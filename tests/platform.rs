use shell_tool_mcp::platform::{detect_platform, resolve_target_triple};
use shell_tool_mcp::types::{HostArch, HostOs, HostPlatform, LauncherError};

#[test]
fn resolves_linux_targets() {
    let platform = HostPlatform {
        os: HostOs::Linux,
        arch: HostArch::X86_64,
    };

    assert_eq!(
        resolve_target_triple(platform).unwrap(),
        "x86_64-unknown-linux-musl"
    );
}

#[test]
fn resolves_macos_targets() {
    let platform = HostPlatform {
        os: HostOs::MacOs,
        arch: HostArch::Aarch64,
    };

    assert_eq!(
        resolve_target_triple(platform).unwrap(),
        "aarch64-apple-darwin"
    );
}

#[test]
fn every_platform_has_a_distinct_triple() {
    let mut seen = Vec::new();
    for os in [HostOs::Linux, HostOs::MacOs] {
        for arch in [HostArch::X86_64, HostArch::Aarch64] {
            let t = resolve_target_triple(HostPlatform { os, arch }).unwrap();
            assert!(!seen.contains(&t));
            seen.push(t);
        }
    }
    assert_eq!(
        seen,
        vec![
            "x86_64-unknown-linux-musl",
            "aarch64-unknown-linux-musl",
            "x86_64-apple-darwin",
            "aarch64-apple-darwin"
        ]
    );
}

#[test]
fn detects_supported_platforms() {
    assert_eq!(
        detect_platform("linux", "aarch64"),
        Ok(HostPlatform { os: HostOs::Linux, arch: HostArch::Aarch64 })
    );
    assert_eq!(
        detect_platform("macos", "x86_64"),
        Ok(HostPlatform { os: HostOs::MacOs, arch: HostArch::X86_64 })
    );
}

#[test]
fn rejects_unsupported_platforms_with_the_name() {
    assert_eq!(
        detect_platform("windows", "x86_64"),
        Err(LauncherError::UnsupportedPlatform("windows".to_string()))
    );
    assert_eq!(
        detect_platform("linux", "riscv64"),
        Err(LauncherError::UnsupportedPlatform("riscv64".to_string()))
    );
    assert_eq!(
        detect_platform("freebsd", "mips"),
        Err(LauncherError::UnsupportedPlatform("freebsd".to_string()))
    );
    assert_eq!(
        detect_platform("Linux", "x86_64"),
        Err(LauncherError::UnsupportedPlatform("Linux".to_string()))
    );
}
