use devboule_daemon::session_rules::{
    env_override_cannot_launch_npx, resolve_session_provider, resume_handle, NativeFamily,
    ProviderOrigin, ProviderProvenance, ResumeRecord, SessionKind,
};
use devboule_daemon::wire::ErrorCode;

/// A native family binds by the lower-case name of its kind.
fn family_id(kind: SessionKind) -> String {
    format!("{kind:?}").to_lowercase()
}

fn families() -> Vec<NativeFamily> {
    [SessionKind::Claude, SessionKind::Codex, SessionKind::Pi]
        .into_iter()
        .map(|kind| NativeFamily {
            id: family_id(kind),
            kind,
        })
        .collect()
}

#[test]
fn explicit_provider_is_not_hijacked_by_claude_env_override() {
    let (kind, provider, provenance) = resolve_session_provider(
        &families(),
        SessionKind::Acp,
        Some("grok".to_string()),
        Some(&family_id(SessionKind::Claude)),
    );
    assert_eq!(kind, SessionKind::Acp);
    assert_eq!(provider.as_deref(), Some("grok"));
    assert_eq!(provenance, Some(ProviderProvenance::Request));
}

#[test]
fn claude_env_override_applies_when_the_request_has_no_provider() {
    let (kind, provider, provenance) =
        resolve_session_provider(&families(), SessionKind::Acp, None, Some(&family_id(SessionKind::Claude)));
    assert_eq!(kind, SessionKind::Claude);
    assert_eq!(provider, None);
    assert_eq!(provenance, None);
}

#[test]
fn pi_provider_selection_uses_the_first_class_rpc_kind() {
    let (kind, provider, provenance) = resolve_session_provider(
        &families(),
        SessionKind::Acp,
        Some("pi".to_string()),
        Some(&family_id(SessionKind::Claude)),
    );
    assert_eq!(kind, SessionKind::Pi);
    assert_eq!(provider, None);
    assert_eq!(provenance, None);

    let (kind, provider, provenance) =
        resolve_session_provider(&families(), SessionKind::Acp, None, Some("pi"));
    assert_eq!(kind, SessionKind::Pi);
    assert_eq!(provider, None);
    assert_eq!(provenance, None);
}

#[test]
fn env_named_provider_is_marked_as_env_provenance() {
    let (kind, provider, provenance) =
        resolve_session_provider(&families(), SessionKind::Acp, None, Some("codex-acp"));
    assert_eq!(kind, SessionKind::Acp);
    assert_eq!(provider.as_deref(), Some("codex-acp"));
    assert_eq!(provenance, Some(ProviderProvenance::Env));
}

#[test]
fn other_kinds_keep_their_kind_and_ignore_the_environment() {
    let (kind, provider, provenance) =
        resolve_session_provider(&families(), SessionKind::Terminal, None, Some("pi"));
    assert_eq!(kind, SessionKind::Terminal);
    assert_eq!(provider, None);
    assert_eq!(provenance, None);
    let (kind, provider, provenance) =
        resolve_session_provider(&families(), SessionKind::Acp, None, None);
    assert_eq!((kind, provider, provenance), (SessionKind::Acp, None, None));
}

#[test]
fn env_override_cannot_launch_npx_wrapper() {
    let error = env_override_cannot_launch_npx(
        "codex-acp",
        Some(ProviderProvenance::Env),
        Some(ProviderOrigin::NpxWrapper),
    )
    .expect_err("env npx must be denied");
    assert_eq!(error.code, ErrorCode::InvalidRequest);
    assert_eq!(
        error.message,
        "provider 'codex-acp' is an npx wrapper; npx wrappers require explicit selection, the env override cannot launch them"
    );
}

#[test]
fn env_override_still_allows_native_user_binary() {
    env_override_cannot_launch_npx(
        "grok",
        Some(ProviderProvenance::Env),
        Some(ProviderOrigin::UserBinary),
    )
    .expect("env native must still resolve");
}

#[test]
fn request_provided_npx_wrapper_is_not_blocked_by_env_policy() {
    env_override_cannot_launch_npx(
        "codex-acp",
        Some(ProviderProvenance::Request),
        Some(ProviderOrigin::NpxWrapper),
    )
    .expect("explicit npx is the consent path");
}

fn record(user: &str, provider: Option<&str>, peer: Option<&str>) -> ResumeRecord {
    ResumeRecord {
        user: user.to_string(),
        provider: provider.map(str::to_string),
        peer_session_id: peer.map(str::to_string),
    }
}

#[test]
fn resume_refuses_a_session_without_a_persisted_provider() {
    let user = "S-1-5-21-resume-provider";
    let record = record(user, None, Some("peer-session"));
    let error = resume_handle(&record, user).expect_err("missing provider must refuse");
    assert_eq!(error.code, ErrorCode::InvalidRequest);
    assert!(error.message.contains("provider was not persisted"));
}

#[test]
fn resume_refuses_a_session_without_a_persisted_peer_id() {
    let user = "S-1-5-21-resume-peer";
    let record = record(user, Some("grok"), None);
    let error = resume_handle(&record, user).expect_err("missing peer id must refuse");
    assert_eq!(error.code, ErrorCode::InvalidRequest);
    assert!(error
        .message
        .contains("the row has no provider handle to resume from"));
}

#[test]
fn resume_refuses_a_session_from_another_user() {
    let record = record("S-1-5-21-resume-owner", Some("grok"), Some("peer-session"));
    let error =
        resume_handle(&record, "S-1-5-21-resume-stranger").expect_err("wrong user must refuse");
    assert_eq!(error.code, ErrorCode::Unauthorized);
}

#[test]
fn resume_hands_out_what_the_row_holds() {
    let record = record("u", Some("grok"), Some("peer-session"));
    let handle = resume_handle(&record, "u").expect("resumable");
    assert_eq!(handle.provider, "grok");
    assert_eq!(handle.peer_session_id, "peer-session");
}
