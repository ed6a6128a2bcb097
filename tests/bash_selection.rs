use shell_tool_mcp::bash_selection::{
    parse_darwin_major, resolve_bash_path, select_darwin_variant, select_linux_variant,
    supported_detail, variant_path,
};
use shell_tool_mcp::constants::{darwin_bash_variants, linux_bash_variants};
use shell_tool_mcp::types::{
    DarwinBashVariant, HostOs, LauncherError, LinuxBashVariant, OsReleaseInfo,
};

fn info(id: &str, id_like: &[&str], version: &str) -> OsReleaseInfo {
    OsReleaseInfo {
        id: id.to_string(),
        id_like: id_like.iter().map(|s| s.to_string()).collect(),
        version_id: version.to_string(),
    }
}

fn linux_variant(root: &str, i: &OsReleaseInfo) -> String {
    resolve_bash_path(root, HostOs::Linux, None, Some(i))
        .unwrap()
        .variant
}

fn darwin_variant(release: &str) -> String {
    resolve_bash_path("/tmp/vendor/aarch64", HostOs::MacOs, Some(release), None)
        .unwrap()
        .variant
}

#[test]
fn picks_linux_version_specific_variant() {
    let info = OsReleaseInfo {
        id: "ubuntu".to_string(),
        id_like: vec!["debian".to_string()],
        version_id: "22.04.4".to_string(),
    };

    let selection =
        resolve_bash_path("/opt/tool/vendor/x86_64", HostOs::Linux, None, Some(&info)).unwrap();

    assert_eq!(selection.variant, "ubuntu-22.04");
    assert!(selection.path.ends_with("ubuntu-22.04/bash"));
}

#[test]
fn falls_back_to_matching_linux_distribution() {
    let info = OsReleaseInfo {
        id: "ubuntu".to_string(),
        id_like: vec!["debian".to_string()],
        version_id: "18.04".to_string(),
    };

    let selection =
        resolve_bash_path("/opt/tool/vendor/aarch64", HostOs::Linux, None, Some(&info)).unwrap();

    assert_eq!(selection.variant, "ubuntu-24.04");
}

#[test]
fn selects_closest_darwin_variant() {
    let selection =
        resolve_bash_path("/tmp/vendor/aarch64", HostOs::MacOs, Some("24.0.0"), None).unwrap();

    assert_eq!(selection.variant, "macos-15");
}

#[test]
fn linux_path_is_joined_under_bash_directory() {
    let i = info("ubuntu", &["debian"], "22.04.4");
    let selection =
        resolve_bash_path("/opt/tool/vendor/x86_64", HostOs::Linux, None, Some(&i)).unwrap();
    assert_eq!(selection.path, "/opt/tool/vendor/x86_64/bash/ubuntu-22.04/bash");
}

#[test]
fn root_with_trailing_slash_gets_no_double_separator() {
    let selection = resolve_bash_path("/v/", HostOs::MacOs, Some("23.2.0"), None).unwrap();
    assert_eq!(selection.path, "/v/bash/macos-14/bash");
}

#[test]
fn version_match_through_id_like() {
    let i = info("pop", &["ubuntu", "debian"], "20.04");
    assert_eq!(linux_variant("/r", &i), "ubuntu-20.04");
}

#[test]
fn family_alias_matches_rhel_derivative() {
    let i = info("ol", &["fedora", "rhel"], "9.3");
    assert_eq!(linux_variant("/r", &i), "centos-9");
}

#[test]
fn debian_version_is_a_text_prefix() {
    assert_eq!(linux_variant("/r", &info("debian", &[], "11")), "debian-11");
    assert_eq!(linux_variant("/r", &info("debian", &[], "12.5")), "debian-12");
    assert_eq!(linux_variant("/r", &info("debian", &[], "13")), "debian-12");
}

#[test]
fn unknown_distribution_gets_first_table_entry() {
    assert_eq!(linux_variant("/r", &info("arch", &[], "")), "ubuntu-24.04");
    assert_eq!(linux_variant("/r", &info("", &[], "")), "ubuntu-24.04");
}

#[test]
fn first_version_match_in_table_order_wins() {
    let table = [
        LinuxBashVariant { name: "a", ids: &["x"], versions: &["1"] },
        LinuxBashVariant { name: "b", ids: &["y"], versions: &["1"] },
        LinuxBashVariant { name: "c", ids: &["x"], versions: &["1.2"] },
    ];
    assert_eq!(select_linux_variant(&table, &info("x", &["y"], "1.2.3")), Some(0));
    assert_eq!(select_linux_variant(&table, &info("z", &["y"], "1.2.3")), Some(1));
    assert_eq!(select_linux_variant(&table, &info("x", &[], "2")), Some(0));
    assert_eq!(select_linux_variant(&table, &info("z", &["q"], "2")), Some(0));
}

#[test]
fn empty_tables_select_nothing() {
    assert_eq!(select_linux_variant(&[], &info("ubuntu", &[], "22.04")), None);
    assert_eq!(select_darwin_variant(&[], 24), None);
}

#[test]
fn darwin_major_versions_pick_closest_variant() {
    assert_eq!(darwin_variant("25.1.0"), "macos-15");
    assert_eq!(darwin_variant("23.6.0"), "macos-14");
    assert_eq!(darwin_variant("22"), "macos-13");
}

#[test]
fn old_darwin_falls_back_to_first_entry() {
    assert_eq!(darwin_variant("21.0.0"), "macos-15");
}

#[test]
fn unparsable_darwin_release_falls_back_to_first_entry() {
    assert_eq!(darwin_variant(""), "macos-15");
    assert_eq!(darwin_variant("abc"), "macos-15");
}

#[test]
fn darwin_variant_scan_uses_table_order() {
    let table = [
        DarwinBashVariant { name: "n", min_darwin: 30 },
        DarwinBashVariant { name: "m", min_darwin: 20 },
        DarwinBashVariant { name: "o", min_darwin: 10 },
    ];
    assert_eq!(select_darwin_variant(&table, 25), Some(1));
    assert_eq!(select_darwin_variant(&table, 30), Some(0));
    assert_eq!(select_darwin_variant(&table, 10), Some(2));
    assert_eq!(select_darwin_variant(&table, 5), Some(0));
}

#[test]
fn darwin_major_is_the_leading_integer() {
    assert_eq!(parse_darwin_major("24.0.0"), 24);
    assert_eq!(parse_darwin_major("7"), 7);
    assert_eq!(parse_darwin_major("+7.1"), 7);
    assert_eq!(parse_darwin_major("-3.0"), -3);
    assert_eq!(parse_darwin_major("-2147483648"), -2147483648);
    assert_eq!(parse_darwin_major("2147483647.0"), 2147483647);
}

#[test]
fn darwin_major_defaults_to_zero() {
    assert_eq!(parse_darwin_major(""), 0);
    assert_eq!(parse_darwin_major(".1"), 0);
    assert_eq!(parse_darwin_major("+"), 0);
    assert_eq!(parse_darwin_major("-"), 0);
    assert_eq!(parse_darwin_major("1a.2"), 0);
    assert_eq!(parse_darwin_major(" 24.0"), 0);
    assert_eq!(parse_darwin_major("2147483648.0"), 0);
    assert_eq!(parse_darwin_major("99999999999999999999"), 0);
}

#[test]
fn missing_host_info_is_an_error() {
    assert_eq!(
        resolve_bash_path("/r", HostOs::Linux, Some("24.0.0"), None),
        Err(LauncherError::MissingHostInfo(HostOs::Linux))
    );
    let i = info("ubuntu", &[], "24.04");
    assert_eq!(
        resolve_bash_path("/r", HostOs::MacOs, None, Some(&i)),
        Err(LauncherError::MissingHostInfo(HostOs::MacOs))
    );
}

#[test]
fn supported_detail_lists_names() {
    assert_eq!(
        supported_detail(darwin_bash_variants().as_slice()),
        "Supported variants: macos-15, macos-14, macos-13"
    );
    assert_eq!(
        supported_detail(linux_bash_variants().as_slice()),
        "Supported variants: ubuntu-24.04, ubuntu-22.04, ubuntu-20.04, debian-12, debian-11, centos-9"
    );
    let empty: [DarwinBashVariant; 0] = [];
    assert_eq!(supported_detail(&empty), "Supported variants: ");
}

#[test]
fn variant_path_joins_two_levels() {
    assert_eq!(variant_path("/a/bash", "debian-12"), "/a/bash/debian-12/bash");
    assert_eq!(variant_path("", "debian-12"), "debian-12/bash");
}
