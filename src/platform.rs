//! Classifying the host and naming its build target.
use crate::text::text_eq;
use crate::types::{HostArch, HostOs, HostPlatform, LauncherError};
use vstd::prelude::*;

verus! {

/// The operating system a name stands for, if it is a supported one.
pub open spec fn os_named(os: Seq<char>) -> Option<HostOs> {
    if os == "linux"@ {
        Some(HostOs::Linux)
    } else if os == "macos"@ {
        Some(HostOs::MacOs)
    } else {
        None
    }
}

/// The architecture a name stands for, if it is a supported one.
pub open spec fn arch_named(arch: Seq<char>) -> Option<HostArch> {
    if arch == "x86_64"@ {
        Some(HostArch::X86_64)
    } else if arch == "aarch64"@ {
        Some(HostArch::Aarch64)
    } else {
        None
    }
}

/// `r` is the error that names `name` as unsupported.
pub open spec fn rejects_name(r: Result<HostPlatform, LauncherError>, name: Seq<char>) -> bool {
    match r {
        Err(LauncherError::UnsupportedPlatform(s)) => s@ == name,
        _ => false,
    }
}

/// Classifies the host from its OS and architecture names (as in
/// `std::env::consts`). The OS is checked first; an unsupported name is
/// returned in the error.
pub fn detect_platform(os: &str, arch: &str) -> (r: Result<HostPlatform, LauncherError>)
    ensures
        os_named(os@) is None ==> rejects_name(r, os@),
        os_named(os@) is Some && arch_named(arch@) is None ==> rejects_name(r, arch@),
        os_named(os@) is Some && arch_named(arch@) is Some ==> r == Ok::<
            HostPlatform,
            LauncherError,
        >(HostPlatform { os: os_named(os@)->0, arch: arch_named(arch@)->0 }),
{
    let host_os = if text_eq(os, "linux") {
        HostOs::Linux
    } else if text_eq(os, "macos") {
        HostOs::MacOs
    } else {
        return Err(LauncherError::UnsupportedPlatform(String::from_str(os)));
    };
    let host_arch = if text_eq(arch, "x86_64") {
        HostArch::X86_64
    } else if text_eq(arch, "aarch64") {
        HostArch::Aarch64
    } else {
        return Err(LauncherError::UnsupportedPlatform(String::from_str(arch)));
    };
    Ok(HostPlatform { os: host_os, arch: host_arch })
}

/// The target triple under which the builds for a platform are laid out.
pub open spec fn target_triple(platform: HostPlatform) -> Seq<char> {
    match (platform.os, platform.arch) {
        (HostOs::Linux, HostArch::X86_64) => "x86_64-unknown-linux-musl"@,
        (HostOs::Linux, HostArch::Aarch64) => "aarch64-unknown-linux-musl"@,
        (HostOs::MacOs, HostArch::X86_64) => "x86_64-apple-darwin"@,
        (HostOs::MacOs, HostArch::Aarch64) => "aarch64-apple-darwin"@,
    }
}

/// The target triple of a platform; every platform has one.
pub fn resolve_target_triple(platform: HostPlatform) -> (r: Result<&'static str, LauncherError>)
    ensures
        r matches Ok(t) && t@ == target_triple(platform),
{
    match (platform.os, platform.arch) {
        (HostOs::Linux, HostArch::X86_64) => Ok("x86_64-unknown-linux-musl"),
        (HostOs::Linux, HostArch::Aarch64) => Ok("aarch64-unknown-linux-musl"),
        (HostOs::MacOs, HostArch::X86_64) => Ok("x86_64-apple-darwin"),
        (HostOs::MacOs, HostArch::Aarch64) => Ok("aarch64-apple-darwin"),
    }
}

/// Distinct platforms have distinct target triples.
pub proof fn lemma_target_triple_injective(a: HostPlatform, b: HostPlatform)
    ensures
        target_triple(a) == target_triple(b) ==> a == b,
{
    reveal_strlit("x86_64-unknown-linux-musl");
    reveal_strlit("aarch64-unknown-linux-musl");
    reveal_strlit("x86_64-apple-darwin");
    reveal_strlit("aarch64-apple-darwin");
    assert("x86_64-unknown-linux-musl"@.len() == 25);
    assert("aarch64-unknown-linux-musl"@.len() == 26);
    assert("x86_64-apple-darwin"@.len() == 19);
    assert("aarch64-apple-darwin"@.len() == 20);
    if target_triple(a) == target_triple(b) {
        assert(target_triple(a).len() == target_triple(b).len());
    }
}

/// Exactly the four supported name pairs are classified, each as its own platform.
pub proof fn lemma_detect_accepts_exactly_supported(os: Seq<char>, arch: Seq<char>)
    ensures
        (os_named(os) is Some && arch_named(arch) is Some) <==> ((os == "linux"@ || os
            == "macos"@) && (arch == "x86_64"@ || arch == "aarch64"@)),
{
}

} // verus!
