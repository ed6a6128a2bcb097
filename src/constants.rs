//! The Bash builds that ship with the launcher, in order of preference.
use crate::types::{DarwinBashVariant, DarwinVariantView, LinuxBashVariant, LinuxVariantView};
use vstd::prelude::*;

verus! {

/// The Linux builds, in order of preference.
pub open spec fn linux_variant_table() -> Seq<LinuxVariantView> {
    seq![
        LinuxVariantView { name: "ubuntu-24.04"@, ids: seq!["ubuntu"@], versions: seq!["24.04"@] },
        LinuxVariantView { name: "ubuntu-22.04"@, ids: seq!["ubuntu"@], versions: seq!["22.04"@] },
        LinuxVariantView { name: "ubuntu-20.04"@, ids: seq!["ubuntu"@], versions: seq!["20.04"@] },
        LinuxVariantView { name: "debian-12"@, ids: seq!["debian"@], versions: seq!["12"@] },
        LinuxVariantView { name: "debian-11"@, ids: seq!["debian"@], versions: seq!["11"@] },
        LinuxVariantView {
            name: "centos-9"@,
            ids: seq!["centos"@, "rhel"@, "rocky"@, "almalinux"@],
            versions: seq!["9"@],
        },
    ]
}

/// The table of Linux builds.
pub fn linux_bash_variants() -> (r: Vec<LinuxBashVariant>)
    ensures
        r@.map_values(|v: LinuxBashVariant| v@) =~= linux_variant_table(),
{
    let r = vec![
        LinuxBashVariant { name: "ubuntu-24.04", ids: &["ubuntu"], versions: &["24.04"] },
        LinuxBashVariant { name: "ubuntu-22.04", ids: &["ubuntu"], versions: &["22.04"] },
        LinuxBashVariant { name: "ubuntu-20.04", ids: &["ubuntu"], versions: &["20.04"] },
        LinuxBashVariant { name: "debian-12", ids: &["debian"], versions: &["12"] },
        LinuxBashVariant { name: "debian-11", ids: &["debian"], versions: &["11"] },
        LinuxBashVariant {
            name: "centos-9",
            ids: &["centos", "rhel", "rocky", "almalinux"],
            versions: &["9"],
        },
    ];
    let ghost m = r@.map_values(|v: LinuxBashVariant| v@);
    let ghost t = linux_variant_table();
    assert forall|k: int| 0 <= k < 6 implies m[k] == t[k] by {
        assert(m[k].ids =~= t[k].ids);
        assert(m[k].versions =~= t[k].versions);
    }
    r
}

/// The macOS builds, newest first: each serves Darwin releases from its
/// minimum major version on.
pub open spec fn darwin_variant_table() -> Seq<DarwinVariantView> {
    seq![
        DarwinVariantView { name: "macos-15"@, min_darwin: 24 },
        DarwinVariantView { name: "macos-14"@, min_darwin: 23 },
        DarwinVariantView { name: "macos-13"@, min_darwin: 22 },
    ]
}

/// The table of macOS builds.
pub fn darwin_bash_variants() -> (r: Vec<DarwinBashVariant>)
    ensures
        r@.map_values(|v: DarwinBashVariant| v@) =~= darwin_variant_table(),
{
    vec![
        DarwinBashVariant { name: "macos-15", min_darwin: 24 },
        DarwinBashVariant { name: "macos-14", min_darwin: 23 },
        DarwinBashVariant { name: "macos-13", min_darwin: 22 },
    ]
}

/// The macOS table lists its builds by strictly falling minimum version, so
/// the first entry at or below a host's version is the closest one.
pub proof fn lemma_darwin_table_descending()
    ensures
        forall|i: int, j: int|
            0 <= i < j < darwin_variant_table().len() ==> #[trigger] darwin_variant_table()[i].min_darwin
                > #[trigger] darwin_variant_table()[j].min_darwin,
{
}

} // verus!
