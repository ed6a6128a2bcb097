use shell_tool_mcp::supervisor::{child_args, exit_action, ExitAction};
use shell_tool_mcp::text::{join_path, trim_whitespace};

#[test]
fn signal_death_is_raised_again() {
    assert_eq!(
        exit_action(Some(2), None),
        ExitAction::RaiseSignal { signal: 2, fallback_code: 1 }
    );
    assert_eq!(
        exit_action(Some(15), Some(0)),
        ExitAction::RaiseSignal { signal: 15, fallback_code: 1 }
    );
}

#[test]
fn normal_exit_passes_the_code_on() {
    assert_eq!(exit_action(None, Some(0)), ExitAction::Exit(0));
    assert_eq!(exit_action(None, Some(42)), ExitAction::Exit(42));
    assert_eq!(exit_action(None, None), ExitAction::Exit(1));
}

#[test]
fn child_command_line_puts_fixed_flags_first() {
    let args = child_args(
        "/v/t/codex-execve-wrapper",
        "/v/t/bash/ubuntu-24.04/bash",
        vec!["--flag".to_string(), "x y".to_string()],
    );
    assert_eq!(
        args,
        vec![
            "--execve",
            "/v/t/codex-execve-wrapper",
            "--bash",
            "/v/t/bash/ubuntu-24.04/bash",
            "--flag",
            "x y"
        ]
    );
    assert_eq!(child_args("w", "b", Vec::new()), vec!["--execve", "w", "--bash", "b"]);
}

#[test]
fn paths_join_like_std_paths() {
    assert_eq!(join_path("/a", "b"), "/a/b");
    assert_eq!(join_path("/a/", "b"), "/a/b");
    assert_eq!(join_path("", "b"), "b");
    assert_eq!(join_path("/a", "/c"), "/c");
}

#[test]
fn release_text_is_trimmed() {
    assert_eq!(trim_whitespace("  24.0.0\n"), "24.0.0");
    assert_eq!(trim_whitespace("\u{3000}x y\u{a0}\t"), "x y");
    assert_eq!(trim_whitespace(" \n "), "");
}
