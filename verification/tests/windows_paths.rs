use devboule_daemon::windows_path_env::{
    attach_spawn_path_env, merge_entries, InstalledAgent, PathEntry, PathSnapshot,
};
use devboule_daemon::windows_registry_path::{
    expanded_text, read_path_value, RegistryFacts, RegistryPathError, RegistryPathRead,
    RegistryStep, SizeAnswer, ValueAnswer, REG_EXPAND_SZ, REG_SZ,
};

fn read(value: &str) -> RegistryPathRead {
    RegistryPathRead::Read(value.to_string())
}

fn failed() -> RegistryPathRead {
    RegistryPathRead::Failed(RegistryPathError::Win32(2))
}

fn snapshot(process: Option<&str>, machine: RegistryPathRead, user: RegistryPathRead) -> PathSnapshot {
    PathSnapshot::capture(process.map(str::to_string), machine, user)
}

#[test]
fn merged_paths_append_machine_then_user_entries_after_the_process_path() {
    let snapshot = snapshot(Some(r"C:\Tools"), read(r"D:\FromMachine"), read(r"C:\FromUser"));
    assert_eq!(
        snapshot.directories(),
        [r"C:\Tools", r"D:\FromMachine", r"C:\FromUser"]
    );
}

#[test]
fn merged_paths_skip_registry_entries_the_process_path_already_has() {
    let snapshot = snapshot(
        Some(r"C:\Tools;C:\Other"),
        read(r"c:\tools\;D:\OnlyMachine"),
        read(r"C:\OTHER;C:\OnlyUser"),
    );
    assert_eq!(
        snapshot.directories(),
        [r"C:\Tools", r"C:\Other", r"D:\OnlyMachine", r"C:\OnlyUser"]
    );
}

#[test]
fn merged_paths_survive_a_missing_process_path_and_unreadable_registry_values() {
    let snapshot = snapshot(None, failed(), read(r"D:\FromMachine"));
    assert_eq!(snapshot.directories(), [r"D:\FromMachine"]);
}

#[test]
fn spawn_path_for_a_registry_folder_carries_the_registry_entries() {
    let snapshot = snapshot(
        Some(r"C:\Tools;C:\Other"),
        read(r"D:\FromMachine"),
        read(r"c:\other"),
    );
    assert_eq!(
        snapshot.spawn_path_for(r"D:\FromMachine"),
        Some((
            "PATH".to_string(),
            r"C:\Tools;C:\Other;D:\FromMachine".to_string()
        ))
    );
}

#[test]
fn spawn_path_for_is_none_when_the_inherited_path_covers_the_folder() {
    let snapshot = snapshot(Some(r"C:\Tools"), read(r"c:\tools"), failed());
    assert_eq!(snapshot.spawn_path_for(r"C:\Tools"), None);
}

#[test]
fn spawn_path_for_is_none_when_no_path_names_the_folder() {
    let snapshot = snapshot(Some(r"C:\Tools"), read(r"D:\FromMachine"), failed());
    assert_eq!(snapshot.spawn_path_for(r"E:\Elsewhere"), None);
}

#[test]
fn outcome_lines_name_every_source_that_was_read() {
    let snapshot = snapshot(
        Some(r"C:\Tools"),
        read(r"C:\Tools;D:\FromMachine"),
        read(r"C:\FromUser"),
    );
    assert_eq!(
        snapshot.outcome_lines(),
        [
            "machine PATH: read, 2 entries",
            "user PATH: read, 1 entries",
        ]
    );
}

#[test]
fn a_failed_registry_read_is_visible_in_the_outcome_lines() {
    let snapshot = snapshot(Some(r"C:\Tools"), read(r"C:\Tools"), failed());
    assert_eq!(
        snapshot.outcome_lines(),
        [
            "machine PATH: read, 1 entries",
            "user PATH: not read: error 2",
        ]
    );
}

#[test]
fn quotes_protect_a_semicolon_and_unicode_case_is_ignored() {
    let snapshot = snapshot(
        Some(r#"C:\Ä;"C:\a;b";"#),
        read(r"c:\ä/;E:\x;;E:\X\"),
        read(r"c:\A;B"),
    );
    assert_eq!(
        snapshot.directories(),
        [r"C:\Ä", r"C:\a;b", "", r"E:\x", r"c:\A", "B"]
    );
    let spawn = snapshot.spawn_path_for(r"e:\X").expect("a registry folder");
    assert_eq!(spawn.1, r#"C:\Ä;"C:\a;b";;E:\x;c:\A;B"#);
}

#[test]
fn entries_are_merged_by_their_keys() {
    let entry = |text: &str, key: &str| PathEntry {
        text: text.to_string(),
        key: key.to_string(),
    };
    let mut entries = vec![entry("A", "1")];
    merge_entries(
        &mut entries,
        &[entry("B", "1"), entry("", "2"), entry("C", "2"), entry("D", "2")],
    );
    let texts: Vec<&str> = entries.iter().map(|e| e.text.as_str()).collect();
    assert_eq!(texts, ["A", "C"]);
}

#[test]
fn only_programs_in_registry_folders_are_stamped() {
    let snapshot = snapshot(Some(r"C:\Tools"), read(r"D:\Npm"), failed());
    let agent = |executable: &str, launch: Option<&str>| InstalledAgent {
        executable: executable.to_string(),
        launch_directory: launch.map(str::to_string),
        spawn_path_env: None,
    };
    let mut agents = vec![
        agent(r"D:\Npm\node\x.js", Some(r"D:\Npm")),
        agent(r"D:\npm\y.exe", Some("")),
        agent(r"C:\Tools\z.exe", None),
        agent("bare", None),
    ];
    attach_spawn_path_env(&mut agents, &snapshot);
    let stamped: Vec<bool> = agents.iter().map(|a| a.spawn_path_env.is_some()).collect();
    assert_eq!(stamped, [true, true, false, false]);
    assert_eq!(
        agents[0].spawn_path_env,
        Some(("PATH".to_string(), r"C:\Tools;D:\Npm".to_string()))
    );
}

#[test]
fn a_read_describes_its_entry_count_without_spelling_the_value() {
    let read = RegistryPathRead::Read(r"C:\One;;C:\Two\".to_string());
    assert_eq!(
        read.describe("machine PATH"),
        "machine PATH: read, 2 entries"
    );
    assert_eq!(read.value(), Some(r"C:\One;;C:\Two\"));
}

#[test]
fn a_failed_read_describes_the_reason_it_was_not_read() {
    assert_eq!(
        RegistryPathRead::Failed(RegistryPathError::Win32(2)).describe("user PATH"),
        "user PATH: not read: error 2"
    );
    assert_eq!(
        RegistryPathRead::Failed(RegistryPathError::EmptyValue).describe("user PATH"),
        "user PATH: not read: empty value"
    );
    assert_eq!(
        RegistryPathRead::Failed(RegistryPathError::UnexpectedType(3)).describe("machine PATH"),
        "machine PATH: not read: unexpected type 3"
    );
    assert_eq!(
        RegistryPathRead::Failed(RegistryPathError::Win32(2)).value(),
        None
    );
}

fn bytes_of(text: &str) -> Vec<u8> {
    text.encode_utf16().flat_map(u16::to_le_bytes).collect()
}

fn registry(kind: u32, text: &str) -> RegistryFacts {
    let buffer = bytes_of(text);
    RegistryFacts {
        opened: Some(0),
        sized: Some(SizeAnswer {
            status: 0,
            kind,
            bytes: buffer.len() as u32,
        }),
        fetched: Some(ValueAnswer {
            status: 0,
            kind,
            size: buffer.len() as u32,
            buffer,
        }),
        expanded: None,
    }
}

fn answer(facts: &RegistryFacts) -> RegistryPathRead {
    match read_path_value(facts) {
        RegistryStep::Done(read) => read,
        other => panic!("expected an answer, got {other:?}"),
    }
}

#[test]
fn a_registry_value_is_read_call_by_call() {
    let mut facts = RegistryFacts {
        opened: None,
        sized: None,
        fetched: None,
        expanded: None,
    };
    assert!(matches!(read_path_value(&facts), RegistryStep::OpenKey));
    facts.opened = Some(5);
    assert_eq!(
        answer(&facts),
        RegistryPathRead::Failed(RegistryPathError::Win32(5))
    );
    facts.opened = Some(0);
    assert!(matches!(read_path_value(&facts), RegistryStep::QuerySize));
    let sized = |status, kind, bytes| {
        Some(SizeAnswer {
            status,
            kind,
            bytes,
        })
    };
    facts.sized = sized(2, REG_SZ, 0);
    assert_eq!(
        answer(&facts),
        RegistryPathRead::Failed(RegistryPathError::Win32(2))
    );
    facts.sized = sized(0, REG_SZ, 0);
    assert_eq!(
        answer(&facts),
        RegistryPathRead::Failed(RegistryPathError::EmptyValue)
    );
    facts.sized = sized(0, 3, 4);
    assert_eq!(
        answer(&facts),
        RegistryPathRead::Failed(RegistryPathError::UnexpectedType(3))
    );
    facts.sized = sized(0, REG_SZ, 4);
    assert!(matches!(
        read_path_value(&facts),
        RegistryStep::QueryValue {
            bytes: 4,
            buffer_len: 6
        }
    ));
    assert_eq!(answer(&registry(REG_SZ, "C:\\ü\0\0")), read("C:\\ü"));
    let mut expandable = registry(REG_EXPAND_SZ, "%SystemRoot%\0");
    match read_path_value(&expandable) {
        RegistryStep::Expand { text } => assert_eq!(text, "%SystemRoot%"),
        other => panic!("{other:?}"),
    }
    expandable.expanded = Some(None);
    assert_eq!(
        answer(&expandable),
        RegistryPathRead::Failed(RegistryPathError::Win32(0))
    );
    expandable.expanded = Some(Some("C:\\Windows".to_string()));
    assert_eq!(answer(&expandable), read("C:\\Windows"));
}

#[test]
fn an_expansion_counts_its_terminator() {
    let buffer: Vec<u16> = "C:\\W\0".encode_utf16().collect();
    assert_eq!(expanded_text(5, 5, &buffer).as_deref(), Some("C:\\W"));
    assert_eq!(expanded_text(0, 5, &buffer), None);
    assert_eq!(expanded_text(5, 0, &buffer), None);
    assert_eq!(expanded_text(5, 6, &buffer), None);
}
