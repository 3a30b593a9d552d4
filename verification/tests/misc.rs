use devboule_daemon::platform::Platform;
use devboule_daemon::session_types::{Held, PtyCommand, RegistryEntry, Scrollback, SessionEvent};
use devboule_daemon::shell_command::{
    load_test_pty_command, override_command, resolve_pty_command, shell_command,
    test_pty_command_text, ShellChoice,
};
use devboule_daemon::spawn::{daemon_file_name, daemon_sibling, resolve_daemon_binary, DaemonError};
use devboule_daemon::spawn_errors::{
    extract_os_error_code, map_workspace_spawn_wire_error, os_error_description, pty_wire_error,
    workspace_spawn_error,
};
use devboule_daemon::temp_dir_guard::{
    check, has_bare_temp_dir_call, is_comment_line, strip_trailing_comment, AllowedSite, HELPER,
};
use devboule_daemon::test_dirs::{is_safe_prefix, temp_dir_name};
use devboule_daemon::text_safety::{is_invisible_format, is_mandatory_line_break};
use devboule_daemon::tool_paths::relativize_tool_path;
use devboule_daemon::transport::{
    connect_step, AcceptFacts, AcceptStep, ConnectStep, PipeListener, CONNECT_TRIES,
    ERROR_PIPE_BUSY, ERROR_PIPE_CONNECTED,
};
use devboule_daemon::utf16::{decoded_lossy, wide};
use devboule_daemon::wire::{ErrorCode, WireError};
use devboule_daemon::wire_json::{blocks_text, tool_kind_from_name, tool_status};
use serde_json::Value;

fn chars(text: &str) -> Vec<char> {
    text.chars().collect()
}

fn text(chars: &[char]) -> String {
    chars.iter().collect()
}

fn json(document: &str) -> Value {
    serde_json::from_str(document).expect("a JSON document")
}

fn output(seq: u64, data: &str) -> SessionEvent {
    SessionEvent::Output {
        seq,
        data: data.to_string(),
    }
}

#[test]
fn cursor_replay_is_strictly_after_last_seen_sequence() {
    let mut scrollback = Scrollback::new();
    scrollback.push(1, b"one");
    scrollback.push(2, b"two");
    scrollback.push(3, b"three");
    assert_eq!(
        scrollback.replay_after(Some(1)),
        vec![output(2, "two"), output(3, "three")]
    );
    assert_eq!(scrollback.replay_after(None).len(), 3);
}

#[test]
fn the_journals_copy_wins_and_nothing_is_sent_twice() {
    let mut scrollback = Scrollback::new();
    scrollback.push(5, b"five");
    scrollback.push(4, b"");
    scrollback.push(3, b"\xff3");
    let journal = [
        (5, "FIVE".to_string()),
        (2, "two".to_string()),
        (1, "one".to_string()),
    ];
    assert_eq!(
        scrollback.replay_after_with_journal(Some(1), &journal),
        vec![output(2, "two"), output(3, "\u{fffd}3"), output(5, "FIVE")]
    );
    assert!(scrollback.needs_journal_replay(Some(3), 9));
    assert!(!scrollback.needs_journal_replay(Some(4), 9));
    let empty = Scrollback::new();
    assert!(empty.needs_journal_replay(None, 2));
    assert!(!empty.needs_journal_replay(None, 1));
    assert!(!empty.needs_journal_replay(Some(u64::MAX), u64::MAX));
}

#[test]
fn a_configuring_session_has_a_child_but_no_peer_sees_it() {
    let held = || {
        Box::new(Held {
            owner: "o",
            metadata: 7,
        })
    };
    let mut live = RegistryEntry::Live(held());
    let mut window = RegistryEntry::Configuring(held());
    let mut past = RegistryEntry::Transcript(held());
    assert!(window.is_configuring() && !live.is_configuring() && !past.is_configuring());
    assert!(window.as_child_process().is_some() && window.as_peer_visible().is_none());
    assert!(live.as_child_process().is_some() && live.as_peer_visible().is_some());
    assert!(past.as_child_process().is_none() && past.as_peer_visible().is_none());
    assert_eq!((*past.owner(), *past.metadata()), ("o", 7));
    assert!(past.as_child_process_mut().is_none() && past.as_peer_visible_mut().is_none());
    assert!(window.as_peer_visible_mut().is_none());
    window.as_child_process_mut().expect("a child").metadata = 8;
    assert!(window.is_configuring());
    assert_eq!(*window.metadata(), 8);
    live.as_peer_visible_mut().expect("visible").metadata = 9;
    live.as_child_process_mut().expect("a child").owner = "p";
    assert_eq!((*live.owner(), *live.metadata()), ("p", 9));
}

#[test]
fn a_pty_command_becomes_the_terminal_librarys_builder() {
    let command = PtyCommand::new(
        "cmd.exe",
        vec!["/c".to_string(), "dir".to_string()],
        "C:\\work".to_string(),
        vec![
            ("A_KEY".to_string(), "1".to_string()),
            ("B_KEY".to_string(), "2".to_string()),
            ("A_KEY".to_string(), "3".to_string()),
            ("c_key".to_string(), "4".to_string()),
            ("C_KEY".to_string(), "5".to_string()),
        ],
    )
    .with_provider_id("grok");
    assert_eq!(command.provider_id.as_deref(), Some("grok"));
    let builder = command.to_command_builder();
    let argv: Vec<String> = builder
        .get_argv()
        .iter()
        .map(|word| word.to_string_lossy().into_owned())
        .collect();
    assert_eq!(argv, ["cmd.exe", "/c", "dir"]);
    assert_eq!(
        builder.get_cwd().map(|cwd| cwd.to_string_lossy().into_owned()),
        Some("C:\\work".to_string())
    );
    assert_eq!(builder.get_env("A_KEY").and_then(|v| v.to_str()), Some("3"));
    assert_eq!(builder.get_env("B_KEY").and_then(|v| v.to_str()), Some("2"));
    assert_eq!(builder.get_env("C_KEY").and_then(|v| v.to_str()), Some("5"));
    // Where names are told apart by case the earlier one keeps its own value.
    let lower = builder.get_env("c_key").and_then(|v| v.to_str());
    assert!(lower == Some("4") || lower == Some("5"), "{lower:?}");
}

#[test]
fn a_test_override_survives_its_file() {
    let command = PtyCommand::new(
        "C:\\tools\\\"x\".exe",
        vec!["a b".to_string(), "\u{1}ü".to_string()],
        "C:\\work".to_string(),
        Vec::new(),
    );
    let body = test_pty_command_text(&command);
    let read = load_test_pty_command(body.as_bytes(), None).expect("the override reads back");
    assert_eq!(read.program, command.program);
    assert_eq!(read.args, command.args);
    assert_eq!(read.cwd, command.cwd);
    assert!(read.env.is_empty() && read.provider_id.is_none());
}

#[test]
fn an_override_needs_a_program_and_some_directory() {
    let here = || Some("C:\\here".to_string());
    let read = load_test_pty_command(br#"{"program":"p","args":["a",1,"b"]}"#, here());
    let read = read.expect("an override");
    assert_eq!(read.program, "p");
    assert_eq!(read.args, ["a", "b"]);
    assert_eq!(read.cwd, "C:\\here");
    assert!(load_test_pty_command(br#"{"program":"p"}"#, None).is_none());
    assert!(load_test_pty_command(br#"{"program":1,"cwd":"C:\\x"}"#, here()).is_none());
    assert!(load_test_pty_command(b"not json", here()).is_none());
    assert!(override_command(None, Vec::new(), None, here()).is_none());
    let plain = override_command(Some("p".to_string()), Vec::new(), None, here()).expect("plain");
    assert_eq!(plain.cwd, "C:\\here");
}

#[test]
fn the_shell_is_the_configured_one_or_powershell() {
    let here = || Ok("C:\\here".to_string());
    let choice = |configured: Option<&str>, pwsh_on_path, login: Option<&str>| ShellChoice {
        configured: configured.map(str::to_string),
        pwsh_on_path,
        login_shell: login.map(str::to_string),
    };
    let shell = |configured: Option<&str>, pwsh| {
        shell_command(Platform::Windows, here(), choice(configured, pwsh, None)).expect("a shell")
    };
    assert_eq!(shell(None, true).program, "pwsh.exe");
    assert_eq!(shell(Some("  "), false).program, "powershell.exe");
    let configured = shell(Some(" bash "), true);
    assert_eq!(configured.program, " bash ");
    assert_eq!(configured.args, ["-NoLogo", "-NoProfile"]);
    assert_eq!(configured.cwd, "C:\\here");
    let error = shell_command(
        Platform::Windows,
        Err("denied".to_string()),
        choice(None, true, None),
    )
    .expect_err("no directory");
    assert_eq!(error.code, ErrorCode::Io);
    assert_eq!(
        error.message,
        "Could not determine terminal directory: denied"
    );
    let resolved = resolve_pty_command(
        Platform::Windows,
        Some(br#"{"program":"p","cwd":"C:\\x"}"#.to_vec()),
        here(),
        choice(None, true, None),
    );
    assert_eq!(resolved.expect("override").program, "p");
    let resolved = resolve_pty_command(
        Platform::Windows,
        Some(b"broken".to_vec()),
        here(),
        choice(None, true, None),
    );
    assert_eq!(resolved.expect("shell").program, "pwsh.exe");
    let elsewhere = |configured, login| {
        shell_command(Platform::Unix, here(), choice(configured, true, login)).expect("a shell")
    };
    assert_eq!(elsewhere(None, Some("/bin/zsh")).program, "/bin/zsh");
    assert_eq!(elsewhere(Some(" "), None).program, "/bin/sh");
    assert_eq!(elsewhere(Some("fish"), Some("/bin/zsh")).program, "fish");
    assert!(elsewhere(None, None).args.is_empty());
}

#[test]
fn file_name_is_the_windows_exe() {
    assert_eq!(daemon_file_name(), "devboule-daemon.exe");
}

#[test]
fn the_daemon_binary_is_configured_or_a_sibling() {
    let exe = r"C:\app\devboule.exe";
    assert_eq!(daemon_sibling(Platform::Windows, exe), r"C:\app\devboule-daemon.exe");
    assert_eq!(daemon_sibling(Platform::Windows, "devboule.exe"), "devboule-daemon.exe");
    let found = resolve_daemon_binary(Platform::Windows, None, Ok(exe.to_string()), true).expect("sibling");
    assert_eq!(found, r"C:\app\devboule-daemon.exe");
    let given = resolve_daemon_binary(Platform::Windows, Some("x".to_string()), Err("e".to_string()), false);
    assert_eq!(given.expect("configured"), "x");
    match resolve_daemon_binary(Platform::Windows, None, Ok(exe.to_string()), false) {
        Err(DaemonError::Protocol(said)) => assert_eq!(
            said,
            r"daemon binary not found next to C:\app\devboule.exe (set DEVBOULE_DAEMON)"
        ),
        other => panic!("expected a protocol error, got {other:?}"),
    }
    assert!(matches!(
        resolve_daemon_binary(Platform::Windows, None, Err("e".to_string()), true),
        Err(DaemonError::Io(_))
    ));
}

#[test]
fn pty_error_exposes_only_the_os_code_to_clients() {
    let detail = "CreateProcessW command=C:\\Users\\secret\\shell.exe (os error 1450)";
    let code = extract_os_error_code(detail).expect("OS error code");
    assert_eq!(code, 1450);
    assert_eq!(os_error_description(code), "no system resources");
    let wire = pty_wire_error("Could not start the terminal shell.", detail);
    assert_eq!(
        wire.message,
        "Could not start the terminal shell. (OS error 1450: no system resources)."
    );
    assert!(!wire.message.contains("secret"));
}

#[test]
fn workspace_spawn_directory_error_names_workspace_in_plain_spelling() {
    let path = r"\\?\C:\work\Project With Spaces";
    let detail = "The directory name is invalid. (os error 267)";
    let wire = workspace_spawn_error(Some("w.race"), path, detail);
    assert_eq!(wire.code, ErrorCode::WorkspaceUnavailable);
    assert!(wire.message.contains("w.race"));
    assert!(wire.message.contains("Project With Spaces"));
    assert!(!wire.message.contains(r"\\?\"));
    assert_eq!(
        wire.message,
        r"Workspace 'w.race' at 'C:\work\Project With Spaces' became unavailable while starting the session (OS error 267: not a directory)."
    );
    let other = workspace_spawn_error(None, path, detail);
    assert_eq!(other.code, ErrorCode::Io);
    let kept = map_workspace_spawn_wire_error(
        Some("w"),
        path,
        WireError::new(ErrorCode::Journal, "no code here".to_string()),
    );
    assert_eq!(kept.code, ErrorCode::Journal);
    assert_eq!(kept.message, "no code here");
    let mapped = map_workspace_spawn_wire_error(
        Some("w"),
        path,
        WireError::new(ErrorCode::Io, "x (os error 2)".to_string()),
    );
    assert_eq!(mapped.code, ErrorCode::WorkspaceUnavailable);
    assert_eq!(extract_os_error_code("(os error 99999999999)"), None);
    assert_eq!(extract_os_error_code("(os error )"), None);
}

#[test]
fn comment_shapes_are_prose_and_a_slash_in_a_string_is_code() {
    let token = ["env", "temp_dir"].join("::");
    let trailing = format!("let dir = here(); // {token} lives in prose");
    assert!(!text(strip_trailing_comment(&chars(&trailing))).contains(&token));
    let opener = format!("/* {token} */");
    assert!(is_comment_line(&chars(opener.trim_start())));
    let continuation = format!(" * {token} inside a block");
    assert!(is_comment_line(&chars(continuation.trim_start())));
    let in_string = format!("let url = \"http://x\"; let d = {token}();");
    assert!(text(strip_trailing_comment(&chars(&in_string))).contains(&token));
}

#[test]
fn the_guard_reports_every_offending_line_and_spends_its_exemptions() {
    let token = ["env", "temp_dir"].join("::");
    let source = format!(
        "use std::{token};\r\n// {token}\nlet a = temp_dir ();\nlet b = test_temp_dir();\nlet c = std::{token}();\n"
    );
    let allow = [AllowedSite {
        file: "a.rs".to_string(),
        snippet: "let c = ".to_string(),
    }];
    let mut used = vec![false];
    let found = check("a.rs", &source, &token, &allow, &mut used);
    assert_eq!(
        found,
        [
            "a.rs:1 — asks for the system temp dir",
            "a.rs:3 — calls the bare temp_dir() this file imports",
        ]
    );
    assert_eq!(used, [true]);
    let mut used = vec![false];
    let found = check("b.rs", &source, &token, &allow, &mut used);
    assert_eq!(found.len(), 3);
    assert_eq!(used, [false]);
    assert!(check(HELPER, &source, &token, &allow, &mut used).is_empty());
    let braces = "use std::env::{self, temp_dir};";
    assert_eq!(
        check("c.rs", braces, &token, &[], &mut Vec::new()),
        ["c.rs:1 — imports temp_dir from std::env"]
    );
    assert!(has_bare_temp_dir_call(&chars("x(temp_dir  (")));
    assert!(!has_bare_temp_dir_call(&chars("étemp_dir()")));
}

#[test]
fn two_names_with_the_same_nanos_differ_by_counter() {
    let first = temp_dir_name("devboule-unique-prefix", 1234, 555_555, 1);
    let second = temp_dir_name("devboule-unique-prefix", 1234, 555_555, 2);
    assert_ne!(
        first, second,
        "same prefix, pid and nanos: only the counter can keep the names apart"
    );
    assert_eq!(first, "devboule-unique-prefix-1234-555555-1");
    assert_eq!(temp_dir_name("devboule-ok", 7, 9, 3), "devboule-ok-7-9-3");
    let late = temp_dir_name("p", 0, u128::MAX, 0);
    assert_eq!(late, "p-0-340282366920938463463374607431768211455-0");
}

#[test]
fn a_prefix_that_could_escape_the_temp_dir_is_refused() {
    for prefix in ["devboule/child", "devboule\\child", "devboule..escape"] {
        assert!(
            !is_safe_prefix(prefix),
            "a separator or .. in the prefix must stop the helper: {prefix}"
        );
    }
    assert!(is_safe_prefix("devboule-ok"));
    assert_eq!(temp_dir_name("devboule-ok", 7, 9, 3), "devboule-ok-7-9-3");
}

#[test]
fn the_line_break_set_is_the_mandatory_seven() {
    for character in [
        '\r', '\n', '\u{b}', '\u{c}', '\u{85}', '\u{2028}', '\u{2029}',
    ] {
        assert!(
            is_mandatory_line_break(character),
            "{character:?} must break"
        );
    }
    for character in [
        'a', ' ', '\u{7}', '\u{1b}', '\u{200b}', '\u{202e}', '\u{feff}',
    ] {
        assert!(
            !is_mandatory_line_break(character),
            "{character:?} must not break"
        );
    }
}

#[test]
fn the_invisible_set_covers_marks_zero_widths_and_overrides() {
    for character in [
        '\u{ad}', '\u{61c}', '\u{200b}', '\u{200e}', '\u{200f}', '\u{202e}', '\u{2066}', '\u{feff}',
    ] {
        assert!(is_invisible_format(character), "{character:?} must hide");
    }
    for character in ['a', ' ', '\n', '\u{2028}', '!'] {
        assert!(
            !is_invisible_format(character),
            "{character:?} must not hide"
        );
    }
}

#[test]
fn blocks_text_passes_strings_and_joins_blocks() {
    assert_eq!(blocks_text(&json(r#""hello""#)), "hello");
    assert_eq!(
        blocks_text(&json(
            r#"[{"type": "text", "text": "a"}, {"type": "text", "text": "b"}]"#
        )),
        "ab"
    );
    assert_eq!(blocks_text(&json("[]")), "");
    assert_eq!(blocks_text(&json("{}")), "");
    assert_eq!(blocks_text(&json("null")), "");
    assert_eq!(blocks_text(&json(r#"[{"text": 1}, "x", {"text": "y"}]"#)), "y");
}

#[test]
fn tool_kind_covers_every_name_both_callers_mapped_before() {
    let first_cases = [
        ("Read", "read"),
        ("Edit", "edit"),
        ("Write", "edit"),
        ("NotebookEdit", "edit"),
        ("Bash", "execute"),
        ("PowerShell", "execute"),
        ("Glob", "search"),
        ("Grep", "search"),
        ("WebFetch", "fetch"),
        ("WebSearch", "search"),
        ("Agent", "think"),
        ("Task", "think"),
        ("Skill", "other"),
    ];
    let pi_cases = [
        ("bash", "execute"),
        ("powershell", "execute"),
        ("read", "read"),
        ("edit", "edit"),
        ("write", "edit"),
        ("grep", "search"),
        ("find", "search"),
        ("ls", "search"),
    ];
    for (name, expected) in first_cases.into_iter().chain(pi_cases) {
        assert_eq!(tool_kind_from_name(name), expected, "tool {name}");
        assert_eq!(
            tool_kind_from_name(&name.to_ascii_lowercase()),
            expected,
            "tool {name} (lowercase)"
        );
    }
    for name in ["mcp__probe__ping", "custom_tool"] {
        assert_eq!(tool_kind_from_name(name), "other", "tool {name}");
    }
}

#[test]
fn tool_kind_widening_is_deliberate() {
    let widened = [
        ("read", "read"),
        ("grep", "search"),
        ("task", "think"),
        ("glob", "search"),
        ("websearch", "search"),
        ("webfetch", "fetch"),
        ("agent", "think"),
        ("notebookedit", "edit"),
    ];
    for (name, expected) in widened {
        assert_eq!(tool_kind_from_name(name), expected, "tool {name}");
    }
}

#[test]
fn tool_status_maps_the_error_flag() {
    assert_eq!(tool_status(true), "failed");
    assert_eq!(tool_status(false), "completed");
}

#[test]
fn tool_paths_are_relative_to_the_directory_they_lie_in() {
    let cwd = Some(r"C:\Work\App");
    let cases = [
        (r"C:\Work\App\src\main.rs", r"src\main.rs"),
        (r"C:\Work\App\src/deep//main.rs\", r"src/deep//main.rs"),
        (r"c:\work\app\src/Main.rs", r"src\Main.rs"),
        (r"c:\Work\App\a", "a"),
        (r"C:\Work\App", r"C:\Work\App"),
        (r"C:\Work\App\", r"C:\Work\App\"),
        (r"C:\Work\Apple\a", r"C:\Work\Apple\a"),
        (r"D:\Work\App\a", r"D:\Work\App\a"),
        (r"src\main.rs", r"src\main.rs"),
        (r"\Work\App\a", r"\Work\App\a"),
    ];
    for (path, expected) in cases {
        assert_eq!(relativize_tool_path(Platform::Windows, path, cwd), expected, "{path}");
    }
    assert_eq!(relativize_tool_path(Platform::Windows, r"C:\x", None), r"C:\x");
    assert_eq!(
        relativize_tool_path(Platform::Windows, r"\\server\share\a\b", Some("//server/share/a")),
        "b"
    );
    assert_eq!(
        relativize_tool_path(Platform::Windows, r"\\?\C:\a\b", Some(r"\\?\c:\a")),
        "b"
    );
    assert_eq!(
        relativize_tool_path(Platform::Windows, r"C:\a\..\b\c", Some(r"c:\A")),
        r"..\b\c"
    );
}

#[test]
fn tool_paths_off_windows_have_one_separator_and_no_drive() {
    let cwd = Some("/work");
    let cases = [
        ("/work/src/a.rs", "src/a.rs"),
        ("/work//src/./a.rs/", "src/./a.rs"),
        ("/work", "/work"),
        ("/work/", "/work/"),
        ("/workspace2/a.rs", "/workspace2/a.rs"),
        ("/Work/src/a.rs", "/Work/src/a.rs"),
        ("src/a.rs", "src/a.rs"),
        (r"/work/a\b", r"a\b"),
        (r"C:\work\a", r"C:\work\a"),
    ];
    for (path, expected) in cases {
        assert_eq!(
            relativize_tool_path(Platform::Unix, path, cwd),
            expected,
            "{path}"
        );
    }
    assert_eq!(relativize_tool_path(Platform::Unix, "/a/b", Some("/")), "a/b");
    assert_eq!(daemon_sibling(Platform::Unix, "/opt/app"), "/opt/devboule-daemon");
}

#[test]
fn text_survives_utf16_and_lone_surrogates_do_not() {
    let units = wide("aé\u{1F600}");
    assert_eq!(units, [0x61, 0xe9, 0xd83d, 0xde00, 0]);
    assert_eq!(text(&decoded_lossy(&units[..4])), "aé\u{1F600}");
    assert_eq!(
        text(&decoded_lossy(&[0xd83d, 0x61, 0xde00])),
        "\u{fffd}a\u{fffd}"
    );
}

#[test]
fn a_client_tries_a_busy_pipe_and_no_other() {
    assert_eq!(connect_step(0, None), ConnectStep::Open { tries: 1 });
    assert_eq!(
        connect_step(CONNECT_TRIES - 1, None),
        ConnectStep::Open {
            tries: CONNECT_TRIES
        }
    );
    assert_eq!(connect_step(CONNECT_TRIES, None), ConnectStep::TimedOut);
    assert_eq!(connect_step(1, Some(Err(ERROR_PIPE_BUSY))), ConnectStep::Wait);
    assert_eq!(connect_step(1, Some(Err(2))), ConnectStep::Fail(2));
    assert_eq!(connect_step(1, Some(Ok(()))), ConnectStep::Connected);
}

#[test]
fn a_listener_accepts_until_it_is_told_to_stop() {
    let mut listener = PipeListener::new();
    let mut facts = AcceptFacts {
        stopped_before: None,
        created: None,
        connected: None,
        stopped_after: None,
    };
    assert_eq!(listener.accept(facts), AcceptStep::CheckStop);
    facts.stopped_before = Some(false);
    assert_eq!(
        listener.accept(facts),
        AcceptStep::CreateInstance { first: true }
    );
    facts.created = Some(Ok(()));
    assert_eq!(listener.accept(facts), AcceptStep::WaitForClient);
    facts.connected = Some(Err(ERROR_PIPE_CONNECTED));
    assert_eq!(listener.accept(facts), AcceptStep::CheckStopAgain);
    facts.stopped_after = Some(false);
    assert_eq!(listener.accept(facts), AcceptStep::Accepted);
    facts.stopped_after = Some(true);
    assert_eq!(listener.accept(facts), AcceptStep::CloseInterrupted);
    facts.connected = Some(Err(109));
    assert_eq!(listener.accept(facts), AcceptStep::CloseAndFail(109));
    facts.created = Some(Err(5));
    assert_eq!(listener.accept(facts), AcceptStep::Fail(5));
    facts.created = None;
    assert_eq!(
        listener.accept(facts),
        AcceptStep::CreateInstance { first: false }
    );
    facts.stopped_before = Some(true);
    assert_eq!(listener.accept(facts), AcceptStep::Interrupted);
}
