use shell_tool_mcp::os_release::{lowercase_words, parse_os_release};
use shell_tool_mcp::types::OsReleaseInfo;

#[test]
fn parses_os_release_fields() {
    let contents = "ID=ubuntu\nVERSION_ID=22.04\nID_LIKE=debian";
    let parsed = parse_os_release(contents);

    assert_eq!(
        parsed,
        OsReleaseInfo {
            id: "ubuntu".to_string(),
            id_like: vec!["debian".to_string()],
            version_id: "22.04".to_string(),
        },
    );
}

#[test]
fn handles_missing_values() {
    let parsed = parse_os_release("NAME=Example OS");

    assert_eq!(parsed.id, "");
    assert_eq!(parsed.id_like, Vec::<String>::new());
    assert_eq!(parsed.version_id, "");
}

#[test]
fn quotes_are_stripped_from_values() {
    let parsed = parse_os_release("ID=\"rocky\"\nVERSION_ID=\"9.3\"\nID_LIKE=\"rhel centos fedora\"\n");
    assert_eq!(parsed.id, "rocky");
    assert_eq!(parsed.version_id, "9.3");
    assert_eq!(parsed.id_like, vec!["rhel", "centos", "fedora"]);
}

#[test]
fn keys_match_without_regard_to_case_or_padding() {
    let parsed = parse_os_release("  Id =Debian\nversion_id=12\n");
    assert_eq!(parsed.id, "Debian");
    assert_eq!(parsed.version_id, "12");
}

#[test]
fn id_like_is_lowercased_and_split_on_any_white_space() {
    let parsed = parse_os_release("ID_LIKE=\"  Ubuntu\tDEBIAN  \"");
    assert_eq!(parsed.id_like, vec!["ubuntu", "debian"]);
    assert_eq!(lowercase_words(" A\u{3000}b "), vec!["a", "b"]);
    assert_eq!(lowercase_words("   "), Vec::<String>::new());
}

#[test]
fn crlf_line_endings_are_removed() {
    let parsed = parse_os_release("ID=fedora\r\nVERSION_ID=40\r\n");
    assert_eq!(parsed.id, "fedora");
    assert_eq!(parsed.version_id, "40");
}

#[test]
fn blank_lines_and_lines_without_equals_are_ignored() {
    let parsed = parse_os_release("\n\nGARBAGE\nID=alpine\n\n");
    assert_eq!(parsed.id, "alpine");
    assert_eq!(parsed.version_id, "");
    assert_eq!(parse_os_release(""), parse_os_release("NAME=x"));
}

#[test]
fn later_lines_override_earlier_ones() {
    let parsed = parse_os_release("ID=a\nID=b\nVERSION_ID=1=2");
    assert_eq!(parsed.id, "b");
    assert_eq!(parsed.version_id, "1=2");
}
