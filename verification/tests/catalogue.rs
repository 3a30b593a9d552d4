use devboule_daemon::session_rules::SessionKind;
use devboule_daemon::tool_policy::{
    is_tool_enabled, ToolPolicyEntry, ToolPolicyStore, MCP_ROSTER_TOOL,
};
use devboule_daemon::user_providers::{
    extendable_ids_sentence, parse_providers_document, validate_row, FileRead, RowsChange,
    RowsState, UserProviderRow, MAX_PROVIDERS, MAX_PROVIDERS_FILE_BYTES,
};

/// The name of a built-in provider.
fn built_in() -> String {
    format!("{:?}", SessionKind::Claude).to_lowercase()
}

fn natives() -> Vec<String> {
    vec![built_in(), "codex".to_string(), "pi".to_string()]
}

fn reserved() -> Vec<String> {
    vec![
        built_in(),
        format!("{}-code", built_in()),
        "grok-build".to_string(),
    ]
}

fn row(extends: Option<&str>, command: Option<&[&str]>) -> UserProviderRow {
    UserProviderRow {
        extends: extends.map(str::to_string),
        label: None,
        description: None,
        command: command.map(|words| words.iter().map(|word| word.to_string()).collect()),
        env: None,
    }
}

fn valid_row(id: &str) -> UserProviderRow {
    UserProviderRow {
        extends: Some("acp".to_string()),
        label: Some("My agent".to_string()),
        description: Some("a local agent".to_string()),
        command: Some(vec![format!("/usr/local/bin/{id}"), "--chat".to_string()]),
        env: Some(vec![("MY_KEY".to_string(), "value".to_string())]),
    }
}

fn parse(rows: Vec<(&str, UserProviderRow)>) -> Result<Vec<(String, UserProviderRow)>, String> {
    let rows = rows
        .into_iter()
        .map(|(id, row)| (id.to_string(), row))
        .collect();
    parse_providers_document(b"{}", Ok(rows), &natives(), &reserved())
}

fn refused(id: &str, row: UserProviderRow) -> String {
    match parse(vec![(id, row)]) {
        Ok(_) => panic!("{id} must be refused"),
        Err(error) => error,
    }
}

#[test]
fn a_valid_row_parses_with_every_field_it_declares() {
    let rows = parse(vec![("my-agent", valid_row("my-agent"))]).expect("valid row");
    let (id, row) = &rows[0];
    assert_eq!(id, "my-agent");
    assert_eq!(row.extends.as_deref(), Some("acp"));
    assert_eq!(
        row.command.as_deref(),
        Some(&["/usr/local/bin/my-agent".to_string(), "--chat".to_string()][..])
    );
    assert_eq!(
        row.env.as_ref().and_then(|env| env.first()),
        Some(&("MY_KEY".to_string(), "value".to_string()))
    );
}

#[test]
fn an_id_outside_the_closed_alphabet_is_refused() {
    for id in [
        "My-Agent",
        "bad/id",
        "has_underscore",
        "-leading",
        "1leading",
        "a b",
    ] {
        let error = refused(id, valid_row(id));
        assert!(
            error.contains(&format!("\"{id}\"")) && error.contains("^[a-z][a-z0-9-]*$"),
            "the refusal names the id and the pattern: {error}"
        );
    }
    refused("", valid_row("x"));
    refused(&"a".repeat(65), valid_row("x"));
    assert!(parse(vec![(&"a".repeat(64), valid_row("x"))]).is_ok());
}

#[test]
fn a_row_without_extends_is_refused() {
    for extends in [None, Some("  ")] {
        let error = refused("my-agent", row(extends, Some(&["/bin/my-agent"])));
        assert!(
            error.contains("my-agent") && error.contains("must declare extends"),
            "the refusal names the row: {error}"
        );
    }
}

#[test]
fn extends_outside_the_closed_set_is_refused() {
    let error = refused("my-agent", row(Some("gemini"), Some(&["/bin/my-agent"])));
    assert!(
        error.contains("gemini"),
        "the refusal names the value: {error}"
    );
    assert!(
        error.contains(&extendable_ids_sentence(&natives())),
        "the refusal names the closed set: {error}"
    );
    assert_eq!(
        extendable_ids_sentence(&["codex".to_string(), "pi".to_string()]),
        "acp, codex, pi"
    );
}

#[test]
fn a_row_extending_a_native_family_is_refused_as_not_supported_yet() {
    for native in natives() {
        let error = refused("my-agent", row(Some(&native), Some(&["/bin/my-agent"])));
        assert!(
            error.contains("not supported yet") && error.contains(&native),
            "the refusal says it is not supported yet and names the family: {error}"
        );
    }
}

#[test]
fn a_row_taking_a_builtin_id_is_refused_as_not_supported_yet() {
    for (id, command) in [
        (built_in(), format!("/bin/{}", built_in())),
        (format!("{}-code", built_in()), "/bin/mine".to_string()),
    ] {
        let error = refused(&id, row(Some("acp"), Some(&[command.as_str()])));
        assert!(
            error.contains("built in") && error.contains("not supported yet"),
            "the refusal says the id is built in and not supported yet: {error}"
        );
    }
}

#[test]
fn a_row_without_a_spawnable_command_is_refused() {
    let commands: [Option<&[&str]>; 3] = [None, Some(&[]), Some(&["/bin/ok", ""])];
    for command in commands {
        let error = refused("my-agent", row(Some("acp"), command));
        assert!(
            error.contains("command"),
            "the refusal names the command: {error}"
        );
    }
}

#[test]
fn an_unknown_field_is_refused_not_ignored() {
    let unreadable = "unknown field `enabled`, expected one of `extends`, `label`";
    let error = parse_providers_document(b"{}", Err(unreadable.to_string()), &natives(), &[])
        .expect_err("refused");
    assert!(
        error.contains("enabled") || error.contains("unknown field"),
        "the refusal names the field: {error}"
    );
    assert_eq!(
        error,
        format!("the document is not a provider record the daemon can read: {unreadable}")
    );
}

#[test]
fn an_oversize_document_is_refused_whole() {
    let big = vec![b' '; (MAX_PROVIDERS_FILE_BYTES + 1) as usize];
    let error =
        parse_providers_document(&big, Ok(Vec::new()), &natives(), &reserved()).expect_err("refused");
    assert!(error.contains("byte cap"), "{error}");
    assert_eq!(
        error,
        "the document is 1048577 bytes, over the 1048576-byte cap"
    );
    let many = (0..=MAX_PROVIDERS)
        .map(|n| (format!("a{n}"), valid_row("x")))
        .collect();
    let error = parse_providers_document(b"{}", Ok(many), &natives(), &reserved());
    assert_eq!(
        error.expect_err("refused"),
        "the document holds 65 providers, over the 64-provider cap"
    );
}

#[test]
fn an_empty_optional_field_must_be_omitted_not_left_blank() {
    let mut blank = valid_row("my-agent");
    blank.label = Some("  ".to_string());
    let error = refused("my-agent", blank);
    assert!(error.contains("label"), "{error}");
    let mut long = valid_row("my-agent");
    long.description = Some("é".repeat(1025));
    assert_eq!(
        refused("my-agent", long),
        "the description of provider \"my-agent\" is 2050 bytes, over the 2048-byte cap"
    );
}

#[test]
fn every_bound_of_a_row_has_its_sentence() {
    let check = |row: &UserProviderRow| {
        validate_row("my-agent", row, &natives(), &reserved()).expect_err("refused")
    };
    let mut many = valid_row("x");
    many.command = Some(vec!["a".to_string(); 33]);
    assert_eq!(
        check(&many),
        "provider \"my-agent\" carries 33 command elements, over the 32-element cap"
    );
    many.command = Some(vec!["a".to_string(), "b".repeat(4097)]);
    assert_eq!(
        check(&many),
        "the command element at position 2 of provider \"my-agent\" is 4097 bytes, over the 4096-byte cap"
    );
    many.command = Some(vec!["a".to_string(), String::new()]);
    assert_eq!(
        check(&many),
        "provider \"my-agent\" has an empty command element at position 2"
    );
    let pair = |key: &str, value: &str| (key.to_string(), value.to_string());
    let mut env = valid_row("x");
    env.env = Some(vec![pair("k", "v"); 33]);
    assert_eq!(
        check(&env),
        "provider \"my-agent\" carries 33 env entries, over the 32-entry cap"
    );
    env.env = Some(vec![pair("", "v")]);
    assert_eq!(check(&env), "provider \"my-agent\" has an empty env key");
    let long = "k".repeat(4097);
    env.env = Some(vec![pair(&long, "v")]);
    assert_eq!(
        check(&env),
        format!("the env key \"{long}\" of provider \"my-agent\" is 4097 bytes, over the 4096-byte cap")
    );
    env.env = Some(vec![pair("key", &long)]);
    assert_eq!(
        check(&env),
        "the env value of \"key\" in provider \"my-agent\" is 3 bytes, over the 4096-byte cap"
    );
}

/// What the rows file holds, and what it reads as.
fn refresh(
    state: &mut RowsState,
    read: FileRead,
    rows: Vec<(&str, UserProviderRow)>,
) -> RowsChange {
    let rows = rows
        .into_iter()
        .map(|(id, row)| (id.to_string(), row))
        .collect();
    state.refresh_user_rows_with(read, Ok(rows), &natives(), &reserved())
}

#[test]
fn refresh_loads_and_retires_rows_through_the_seam() {
    let mut state = RowsState::new();
    let document = || FileRead::Bytes(b"one".to_vec());
    match refresh(&mut state, document(), vec![("my-agent", valid_row("my-agent"))]) {
        RowsChange::Apply(rows) => assert_eq!(rows[0].0, "my-agent"),
        other => panic!("the row is live after the refresh: {other:?}"),
    }
    assert!(matches!(
        refresh(&mut state, document(), vec![("my-agent", valid_row("my-agent"))]),
        RowsChange::Unchanged
    ));
    match refresh(&mut state, FileRead::Missing, Vec::new()) {
        RowsChange::Apply(rows) => assert!(rows.is_empty(), "the rows are retired"),
        other => panic!("{other:?}"),
    }
    assert!(matches!(
        refresh(&mut state, FileRead::Missing, Vec::new()),
        RowsChange::Unchanged
    ));
}

#[test]
fn an_unreadable_file_keeps_the_loaded_rows() {
    let mut state = RowsState::new();
    let document = || FileRead::Bytes(b"kept".to_vec());
    refresh(&mut state, document(), vec![("kept-agent", valid_row("x"))]);
    match refresh(&mut state, FileRead::Failed("denied".to_string()), Vec::new()) {
        RowsChange::Unreadable(why) => assert_eq!(why, "denied"),
        other => panic!("a read error never empties the catalogue: {other:?}"),
    }
    assert!(matches!(
        refresh(&mut state, document(), vec![("kept-agent", valid_row("x"))]),
        RowsChange::Unchanged
    ));
}

#[test]
fn a_document_with_one_bad_row_is_refused_whole() {
    let mut state = RowsState::new();
    let mixed = || {
        vec![
            ("Bad/Id", row(Some("acp"), Some(&["/bin/bad"]))),
            ("second-agent", row(Some("acp"), Some(&["/bin/second"]))),
        ]
    };
    let document = || FileRead::Bytes(b"mixed".to_vec());
    match refresh(&mut state, document(), mixed()) {
        RowsChange::Refused(why) => assert!(why.contains("Bad/Id")),
        other => panic!("the refused document contributes nothing: {other:?}"),
    }
    assert!(
        matches!(refresh(&mut state, document(), mixed()), RowsChange::Unchanged),
        "a refusal is reported once for each document"
    );
}

#[test]
fn an_empty_file_is_not_a_missing_one() {
    let mut state = RowsState::new();
    refresh(
        &mut state,
        FileRead::Bytes(b"one".to_vec()),
        vec![("my-agent", valid_row("x"))],
    );
    let empty = state.refresh_user_rows_with(
        FileRead::Bytes(Vec::new()),
        Err("EOF while parsing".to_string()),
        &natives(),
        &reserved(),
    );
    assert!(matches!(empty, RowsChange::Refused(_)));
    // The rows are still live, so the absence that follows retires them.
    match refresh(&mut state, FileRead::Missing, Vec::new()) {
        RowsChange::Apply(rows) => assert!(rows.is_empty()),
        other => panic!("absence retires whatever rows were loaded: {other:?}"),
    }
}

fn entry(provider_id: &str, enabled: Option<bool>, disabled: &[&str]) -> ToolPolicyEntry {
    ToolPolicyEntry {
        provider_id: provider_id.to_string(),
        enabled,
        disabled_tools: disabled.iter().map(|name| (*name).to_string()).collect(),
    }
}

#[test]
fn an_absent_or_enabled_policy_serves_every_tool() {
    assert!(is_tool_enabled(None, "devboule_list_agents"));
    assert!(is_tool_enabled(None, "some_future_tool"));
    assert!(is_tool_enabled(
        Some(&entry(&built_in(), None, &[])),
        "some_future_tool"
    ));
    assert!(is_tool_enabled(
        Some(&entry(&built_in(), Some(true), &[])),
        "some_future_tool"
    ));
}

#[test]
fn disabled_globally_or_by_name_is_refused() {
    assert!(!is_tool_enabled(
        Some(&entry(&built_in(), Some(false), &[])),
        "some_future_tool"
    ));
    let selective = entry(&built_in(), Some(true), &["some_future_tool"]);
    assert!(!is_tool_enabled(Some(&selective), "some_future_tool"));
    assert!(is_tool_enabled(Some(&selective), "another_tool"));
}

#[test]
fn the_roster_tool_is_always_on_even_when_a_policy_names_it() {
    let hostile = entry(&built_in(), Some(false), &[MCP_ROSTER_TOOL]);
    assert!(is_tool_enabled(Some(&hostile), MCP_ROSTER_TOOL));
}

fn rows_of(store: &ToolPolicyStore) -> Vec<(String, ToolPolicyEntry)> {
    store
        .rows
        .iter()
        .map(|(key, e)| {
            let tools: Vec<&str> = e.disabled_tools.iter().map(String::as_str).collect();
            (key.clone(), entry(&e.provider_id, e.enabled, &tools))
        })
        .collect()
}

fn shown(entry: Option<&ToolPolicyEntry>) -> Option<(String, Option<bool>, Vec<String>)> {
    entry.map(|e| (e.provider_id.clone(), e.enabled, e.disabled_tools.clone()))
}

#[test]
fn the_store_round_trips_through_its_file() {
    let mut store = ToolPolicyStore::load(Ok(None));
    assert!(store.entries().is_empty(), "a missing file is not an error");
    let first = built_in();
    assert!(store.get(Some(&first)).is_none());
    let tools = vec!["some_tool".to_string()];
    store.set("grok", None, &Vec::new(), Ok(())).expect("set grok");
    store
        .set(&first, Some(false), &tools, Ok(()))
        .expect("set the first");
    let listed: Vec<String> = store
        .entries()
        .into_iter()
        .map(|policy| policy.provider_id)
        .collect();
    assert_eq!(listed, [first.as_str(), "grok"], "entries are ordered by id");
    let reopened = ToolPolicyStore::load(Ok(Some(rows_of(&store))));
    assert_eq!(
        shown(reopened.get(Some(&first))),
        Some((first.clone(), Some(false), tools))
    );
    assert_eq!(
        shown(reopened.get(Some("grok"))),
        Some(("grok".to_string(), None, Vec::new()))
    );
    assert!(reopened.get(None).is_none(), "no provider, no policy");
}

#[test]
fn setting_the_same_provider_twice_replaces_it() {
    let mut store = ToolPolicyStore::load(Ok(None));
    let id = built_in();
    store.set(&id, Some(false), &Vec::new(), Ok(())).expect("first");
    let tools = vec!["some_tool".to_string()];
    let planned = store.planned(&id, Some(true), &tools);
    store.set(&id, Some(true), &tools, Ok(())).expect("second");
    assert_eq!(store.entries().len(), 1);
    assert_eq!(
        shown(store.get(Some(&id))),
        Some((id.clone(), Some(true), tools))
    );
    assert_eq!(shown(planned.get(Some(&id))), shown(store.get(Some(&id))));
}

#[test]
fn a_failed_write_leaves_the_memory_as_it_was() {
    let mut store = ToolPolicyStore::load(Ok(None));
    store.set("a", Some(true), &Vec::new(), Ok(())).expect("set");
    let failed = store.set("a", Some(false), &Vec::new(), Err("disk full".to_string()));
    assert_eq!(failed.expect_err("the failure is handed on"), "disk full");
    assert_eq!(store.get(Some("a")).and_then(|e| e.enabled), Some(true));
}

#[test]
fn a_malformed_file_starts_empty_instead_of_panicking() {
    let mut store = ToolPolicyStore::load(Err("not a tool policy document".to_string()));
    assert!(store.entries().is_empty());
    store
        .set(&built_in(), Some(false), &Vec::new(), Ok(()))
        .expect("set");
    assert!(ToolPolicyStore::load(Ok(Some(rows_of(&store))))
        .get(Some(&built_in()))
        .is_some());
}
