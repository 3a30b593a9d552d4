use devboule_daemon::shell_unwrap::{normalize_command_execution_command, unwrap_shell_command};
use serde_json::Value;

fn value(command: &str) -> Value {
    Value::String(command.to_string())
}

fn array(parts: &[&str]) -> Value {
    Value::Array(parts.iter().map(|part| value(part)).collect())
}

#[test]
fn unix_shell_wrappers_unwrap_to_the_payload() {
    assert_eq!(
        normalize_command_execution_command(&value("bash -lc \"ls -la\"")).as_deref(),
        Some("ls -la")
    );
    assert_eq!(
        normalize_command_execution_command(&value("/bin/zsh -c 'echo hi'")).as_deref(),
        Some("echo hi")
    );
    assert_eq!(
        normalize_command_execution_command(&value("sh -c ls")).as_deref(),
        Some("ls")
    );
}

#[test]
fn measured_pwsh_wrapper_unwraps_to_the_payload() {
    let measured = value(
        "\"C:\\Users\\gualt\\AppData\\Local\\Microsoft\\WindowsApps\\pwsh.exe\" -Command 'git status'",
    );
    assert_eq!(
        normalize_command_execution_command(&measured).as_deref(),
        Some("git status")
    );
    assert_eq!(
        normalize_command_execution_command(&value(
            "powershell -NoProfile -Command \"Get-ChildItem\""
        ))
        .as_deref(),
        Some("Get-ChildItem")
    );
    assert_eq!(
        normalize_command_execution_command(&value("cmd /c dir")).as_deref(),
        Some("dir")
    );
}

#[test]
fn plain_commands_pass_through_unchanged() {
    assert_eq!(
        normalize_command_execution_command(&value("git status")).as_deref(),
        Some("git status")
    );
}

#[test]
fn array_form_unwraps_shell_and_flag() {
    let array = array(&["bash", "-lc", "ls"]);
    assert_eq!(
        normalize_command_execution_command(&array).as_deref(),
        Some("ls")
    );
}

#[test]
fn mismatched_edge_quotes_are_not_stripped() {
    assert_eq!(
        normalize_command_execution_command(&value("'echo hi\"")).as_deref(),
        Some("'echo hi\"")
    );
}

#[test]
fn payload_whitespace_is_preserved_verbatim() {
    assert_eq!(
        normalize_command_execution_command(&value("bash -c \"echo \\\"hi\\\"\"")).as_deref(),
        Some("echo \\\"hi\\\"")
    );
    assert_eq!(
        normalize_command_execution_command(&value("bash -c 'echo   hi'")).as_deref(),
        Some("echo   hi")
    );
    assert_eq!(
        normalize_command_execution_command(&value("bash -c echo    hello")).as_deref(),
        Some("echo    hello")
    );
    assert_eq!(
        normalize_command_execution_command(&value("bash -c echo\nfoo")).as_deref(),
        Some("echo\nfoo")
    );
}

#[test]
fn unix_branch_is_case_sensitive_with_no_exe_or_backslash_forms() {
    for command in ["BASH -c ls", "bash.exe -c 'ls'", "C:\\bin\\bash -c 'ls'"] {
        assert_eq!(
            normalize_command_execution_command(&value(command)).as_deref(),
            Some(command),
            "{command} stays unchanged"
        );
    }
}

#[test]
fn unquoted_windows_paths_do_not_unwrap() {
    let command = "C:\\Windows\\System32\\WindowsPowerShell\\v1.0\\powershell.exe -Command \"x\"";
    assert_eq!(
        normalize_command_execution_command(&value(command)).as_deref(),
        Some(command)
    );
}

#[test]
fn quoted_windows_path_with_spaces_unwraps() {
    assert_eq!(
        normalize_command_execution_command(&value("\"C:\\my tools\\pwsh.exe\" -Command ls"))
            .as_deref(),
        Some("ls")
    );
}

#[test]
fn windows_flag_is_the_rightmost_viable_one() {
    assert_eq!(
        normalize_command_execution_command(&value("pwsh -c -Command 'ls'")).as_deref(),
        Some("ls")
    );
    assert_eq!(
        normalize_command_execution_command(&value("pwsh -c \"a\" -Command \"b\"")).as_deref(),
        Some("b")
    );
    assert_eq!(
        normalize_command_execution_command(&value("cmd /c echo -Command x")).as_deref(),
        Some("echo -Command x")
    );
}

#[test]
fn windows_options_must_match_dash_letters_entirely() {
    assert_eq!(
        normalize_command_execution_command(&value("pwsh -x1 -Command 'ls'")).as_deref(),
        Some("pwsh -x1 -Command 'ls'")
    );
}

#[test]
fn quoted_option_values_do_not_span_spaces() {
    let command = "pwsh -File \"C:\\my script.ps1\" -Command x";
    assert_eq!(
        normalize_command_execution_command(&value(command)).as_deref(),
        Some(command)
    );
}

#[test]
fn unix_prefix_backtracking_prefers_the_longest_viable_name() {
    assert_eq!(
        normalize_command_execution_command(&value("/sh/sh -c x")).as_deref(),
        Some("x")
    );
    assert_eq!(
        normalize_command_execution_command(&value("//sh -c x")).as_deref(),
        Some("//sh -c x")
    );
}

#[test]
fn unix_lone_slash_prefix_unwraps() {
    assert_eq!(
        normalize_command_execution_command(&value("/bash -c x")).as_deref(),
        Some("x")
    );
    assert_eq!(
        normalize_command_execution_command(&value("/sh -lc \"ls\"")).as_deref(),
        Some("ls")
    );
}

#[test]
fn windows_interpreter_must_be_followed_by_whitespace() {
    for command in [
        "pwsh-Command x",
        "pwsh.exe\"-c x",
        "\"C:\\t\\pwsh.exe\"-Command x",
    ] {
        assert_eq!(
            normalize_command_execution_command(&value(command)).as_deref(),
            Some(command),
            "{command} stays unchanged"
        );
    }
    assert_eq!(
        normalize_command_execution_command(&value("pwsh -Command x")).as_deref(),
        Some("x")
    );
}

#[test]
fn missing_payloads_and_case_variants() {
    for command in ["bash -c", "pwsh -Command"] {
        assert_eq!(
            normalize_command_execution_command(&value(command)).as_deref(),
            Some(command)
        );
    }
    assert_eq!(
        normalize_command_execution_command(&value("PWSH -Command ls")).as_deref(),
        Some("ls")
    );
    assert_eq!(
        normalize_command_execution_command(&value("CMD /C dir")).as_deref(),
        Some("dir")
    );
    assert_eq!(
        normalize_command_execution_command(&value("pwsh -Command \" \"")).as_deref(),
        Some(" ")
    );
}

#[test]
fn array_windows_interpreter_uses_literal_quote_rules() {
    for (array, expected) in [
        (array(&["\"pwsh\"", "-Command", "ls"]), "ls"),
        (array(&["'pwsh'", "-Command", "ls"]), "ls"),
        (
            array(&["C:/tools/pwsh.exe", "-Command", "ls"]),
            "C:/tools/pwsh.exe -Command ls",
        ),
        (array(&["C:\\tools\\pwsh.exe", "-Command", "ls"]), "ls"),
    ] {
        assert_eq!(
            normalize_command_execution_command(&array).as_deref(),
            Some(expected),
            "array {array}"
        );
    }
}

#[test]
fn an_unclosed_quote_before_the_interpreter_still_matches_the_pattern() {
    // The pattern's quoted prefix is `"[^"]*\\` and its closing quote is
    // optional, so a quote that is never closed is part of the prefix.
    assert_eq!(unwrap_shell_command("\"C:\\t\\pwsh -c ls"), "ls");
    assert_eq!(unwrap_shell_command("\"C:\\pwsh -c \\cmd -c x\""), "x\"");
}

#[test]
fn values_that_are_no_command_have_no_title() {
    assert_eq!(normalize_command_execution_command(&Value::Null), None);
    assert_eq!(normalize_command_execution_command(&value("  \u{feff}")), None);
    assert_eq!(normalize_command_execution_command(&array(&[])), None);
    assert_eq!(normalize_command_execution_command(&array(&["  ", ""])), None);
    let mixed = Value::Array(vec![value("git"), Value::Null, value(" status ")]);
    assert_eq!(
        normalize_command_execution_command(&mixed).as_deref(),
        Some("git status")
    );
}

#[test]
fn outer_whitespace_is_ignored_and_a_lone_quote_is_stripped() {
    assert_eq!(unwrap_shell_command("\u{a0} sh -c  x \t"), "x");
    assert_eq!(unwrap_shell_command("sh -c \""), "");
    assert_eq!(unwrap_shell_command("sh -c 'a' b"), "'a' b");
}
