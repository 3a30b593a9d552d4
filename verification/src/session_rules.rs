//! Rules of a session's life that need no session: which provider a request
//! means, which one the environment may start, and what a row can be resumed
//! from.
use crate::text::same_text;
use crate::wire::{fixed_error, plain_error, text3, text_view, unit_view, ErrorCode, ErrorView, WireError};
use crate::workspace_create::str_view;
use vstd::prelude::*;

verus! {

/// What a session runs.
#[derive(Clone, Copy, Debug, PartialEq, Eq, Structural)]
pub enum SessionKind {
    Terminal,
    Acp,
    Claude,
    Codex,
    Pi,
}

/// Who named a provider.
#[derive(Clone, Copy, Debug, PartialEq, Eq, Structural)]
pub enum ProviderProvenance {
    Request,
    Env,
}

/// What a provider's program is.
#[derive(Clone, Copy, Debug, PartialEq, Eq, Structural)]
pub enum ProviderOrigin {
    UserBinary,
    NpxWrapper,
}

/// A native family: the id it binds by, and the kind of its sessions.
#[derive(Debug)]
pub struct NativeFamily {
    pub id: String,
    pub kind: SessionKind,
}

/// The kind that an id stands for among the families from `i` on.
pub open spec fn native_kind_from(families: Seq<NativeFamily>, id: Seq<char>, i: int) -> Option<
    SessionKind,
>
    decreases families.len() - i,
{
    if i < 0 || i >= families.len() {
        None
    } else if families[i].id@ == id {
        Some(families[i].kind)
    } else {
        native_kind_from(families, id, i + 1)
    }
}

/// The kind that a native family's id stands for.
pub open spec fn native_kind(families: Seq<NativeFamily>, id: Seq<char>) -> Option<SessionKind> {
    native_kind_from(families, id, 0)
}

fn native_family(families: &[NativeFamily], id: &str) -> (r: Option<SessionKind>)
    ensures
        r == native_kind(families@, id@),
{
    let mut i: usize = 0;
    while i < families.len()
        invariant
            i <= families@.len(),
            native_kind(families@, id@) == native_kind_from(families@, id@, i as int),
        decreases families@.len() - i,
    {
        if same_text(families[i].id.as_str(), id) {
            return Some(families[i].kind);
        }
        i = i + 1;
    }
    None
}

/// What a named provider means for an agent session: a native family is its own
/// kind and no provider, any other id is the provider.
pub open spec fn named_provider(
    families: Seq<NativeFamily>,
    id: Seq<char>,
    provenance: ProviderProvenance,
) -> (SessionKind, Option<Seq<char>>, Option<ProviderProvenance>) {
    match native_kind(families, id) {
        Some(kind) => (kind, None, None),
        None => (SessionKind::Acp, Some(id), Some(provenance)),
    }
}

/// What a request means: its own provider counts before the environment's, and
/// the environment counts for agent sessions only.
pub open spec fn resolved_provider(
    families: Seq<NativeFamily>,
    kind: SessionKind,
    provider: Option<Seq<char>>,
    env: Option<Seq<char>>,
) -> (SessionKind, Option<Seq<char>>, Option<ProviderProvenance>) {
    if kind != SessionKind::Acp {
        (
            kind,
            provider,
            if provider is Some {
                Some(ProviderProvenance::Request)
            } else {
                None
            },
        )
    } else {
        match (provider, env) {
            (Some(id), _) => named_provider(families, id, ProviderProvenance::Request),
            (None, Some(id)) => named_provider(families, id, ProviderProvenance::Env),
            (None, None) => (kind, None, None),
        }
    }
}

/// What a request means: the kind of its session, its provider, and who named
/// it. `families` are the native families, which this module never spells.
pub fn resolve_session_provider(
    families: &[NativeFamily],
    kind: SessionKind,
    provider: Option<String>,
    env: Option<&str>,
) -> (r: (SessionKind, Option<String>, Option<ProviderProvenance>))
    ensures
        (r.0, text_view(r.1), r.2) == resolved_provider(
            families@,
            kind,
            text_view(provider),
            str_view(env),
        ),
{
    if kind != SessionKind::Acp {
        let provenance = match &provider {
            Some(_) => Some(ProviderProvenance::Request),
            None => None,
        };
        return (kind, provider, provenance);
    }
    match provider {
        Some(id) => match native_family(families, id.as_str()) {
            Some(family) => (family, None, None),
            None => (SessionKind::Acp, Some(id), Some(ProviderProvenance::Request)),
        },
        None => match env {
            Some(id) => match native_family(families, id) {
                Some(family) => (family, None, None),
                None => (SessionKind::Acp, Some(id.to_owned()), Some(ProviderProvenance::Env)),
            },
            None => (kind, None, None),
        },
    }
}

/// A provider that a request names is never replaced by the environment's.
pub proof fn law_requests_beat_the_environment(
    families: Seq<NativeFamily>,
    kind: SessionKind,
    provider: Seq<char>,
    env: Option<Seq<char>>,
)
    ensures
        resolved_provider(families, kind, Some(provider), env) == resolved_provider(
            families,
            kind,
            Some(provider),
            None,
        ),
{
}

pub open spec fn npx_refusal(id: Seq<char>) -> ErrorView {
    plain_error(
        ErrorCode::InvalidRequest,
        "provider '"@ + id
            + "' is an npx wrapper; npx wrappers require explicit selection, the env override cannot launch them"@,
    )
}

/// The environment cannot start a provider that is an npx wrapper: that takes an
/// explicit choice.
pub fn env_override_cannot_launch_npx(
    id: &str,
    provenance: Option<ProviderProvenance>,
    origin: Option<ProviderOrigin>,
) -> (r: Result<(), WireError>)
    ensures
        unit_view(r) == if provenance == Some(ProviderProvenance::Env) && origin == Some(
            ProviderOrigin::NpxWrapper,
        ) {
            Err(npx_refusal(id@))
        } else {
            Ok(())
        },
{
    match (provenance, origin) {
        (Some(ProviderProvenance::Env), Some(ProviderOrigin::NpxWrapper)) => Err(
            WireError::new(
                ErrorCode::InvalidRequest,
                text3(
                    "provider '",
                    id,
                    "' is an npx wrapper; npx wrappers require explicit selection, the env override cannot launch them",
                ),
            ),
        ),
        _ => Ok(()),
    }
}

/// What a session's row says of resuming it.
#[derive(Debug)]
pub struct ResumeRecord {
    pub user: String,
    pub provider: Option<String>,
    pub peer_session_id: Option<String>,
}

/// What a session is resumed from: its provider and the provider's own id of it.
#[derive(Debug)]
pub struct ResumeHandle {
    pub provider: String,
    pub peer_session_id: String,
}

/// The handle that a row gives to a user, or why it gives none.
pub open spec fn resumable(record: ResumeRecord, user: Seq<char>) -> Result<
    (Seq<char>, Seq<char>),
    ErrorView,
> {
    if record.user@ != user {
        Err(plain_error(ErrorCode::Unauthorized, "This session belongs to another user."@))
    } else {
        match (record.provider, record.peer_session_id) {
            (None, _) => Err(
                plain_error(
                    ErrorCode::InvalidRequest,
                    "This session cannot be resumed because its provider was not persisted."@,
                ),
            ),
            (Some(_), None) => Err(
                plain_error(
                    ErrorCode::InvalidRequest,
                    "This session cannot be resumed because the row has no provider handle to resume from."@,
                ),
            ),
            (Some(provider), Some(peer)) => Ok((provider@, peer@)),
        }
    }
}

/// The outcome of asking for a handle.
pub open spec fn handle_view(r: Result<ResumeHandle, WireError>) -> Result<
    (Seq<char>, Seq<char>),
    ErrorView,
> {
    match r {
        Ok(h) => Ok((h.provider@, h.peer_session_id@)),
        Err(e) => Err(e@),
    }
}

pub fn resume_handle(record: &ResumeRecord, user: &str) -> (r: Result<ResumeHandle, WireError>)
    ensures
        handle_view(r) == resumable(*record, user@),
{
    if !same_text(record.user.as_str(), user) {
        return Err(fixed_error(ErrorCode::Unauthorized, "This session belongs to another user."));
    }
    match (&record.provider, &record.peer_session_id) {
        (None, _) => Err(
            fixed_error(
                ErrorCode::InvalidRequest,
                "This session cannot be resumed because its provider was not persisted.",
            ),
        ),
        (Some(_), None) => Err(
            fixed_error(
                ErrorCode::InvalidRequest,
                "This session cannot be resumed because the row has no provider handle to resume from.",
            ),
        ),
        (Some(provider), Some(peer)) => Ok(
            ResumeHandle { provider: provider.clone(), peer_session_id: peer.clone() },
        ),
    }
}

/// No family before the first `n` answers to the id.
pub open spec fn none_before(families: Seq<NativeFamily>, id: Seq<char>, n: int) -> bool {
    forall|k: int| 0 <= k < n ==> (#[trigger] families[k]).id@ != id
}

proof fn lemma_family(families: Seq<NativeFamily>, id: Seq<char>, from: int, at: int)
    requires
        0 <= from <= at <= families.len(),
        forall|k: int| from <= k < at ==> (#[trigger] families[k]).id@ != id,
        at < families.len() ==> families[at].id@ == id,
    ensures
        native_kind_from(families, id, from) == if at < families.len() {
            Some(families[at].kind)
        } else {
            None
        },
    decreases at - from,
{
    if from < at {
        assert(families[from].id@ != id);
        lemma_family(families, id, from + 1, at);
    }
}

/// An agent session that names a native family is a session of that family's own
/// kind and has no provider; any other name is its provider, on record with who
/// named it: the request, or else the environment. Other sessions keep what the
/// request says, and the environment does not count for them.
pub proof fn law_sessions_run_what_was_named(
    families: Seq<NativeFamily>,
    kind: SessionKind,
    provider: Option<Seq<char>>,
    env: Option<Seq<char>>,
    at: int,
)
    requires
        0 <= at < families.len(),
    ensures
        kind != SessionKind::Acp && provider is None ==> resolved_provider(
            families,
            kind,
            provider,
            env,
        ) == (kind, None::<Seq<char>>, None::<ProviderProvenance>),
        kind != SessionKind::Acp && provider is Some ==> resolved_provider(
            families,
            kind,
            provider,
            env,
        ) == (kind, provider, Some(ProviderProvenance::Request)),
        provider is None && env is None ==> resolved_provider(
            families,
            SessionKind::Acp,
            provider,
            env,
        ) == (SessionKind::Acp, None::<Seq<char>>, None::<ProviderProvenance>),
        provider matches Some(id) ==> {
            let meant = resolved_provider(families, SessionKind::Acp, provider, env);
            &&& families[at].id@ == id && none_before(families, id, at) ==> meant == (
                families[at].kind,
                None::<Seq<char>>,
                None::<ProviderProvenance>,
            )
            &&& none_before(families, id, families.len() as int) ==> meant == (
                SessionKind::Acp,
                Some(id),
                Some(ProviderProvenance::Request),
            )
        },
        provider is None ==> (env matches Some(id) ==> {
            let meant = resolved_provider(families, SessionKind::Acp, provider, env);
            &&& families[at].id@ == id && none_before(families, id, at) ==> meant == (
                families[at].kind,
                None::<Seq<char>>,
                None::<ProviderProvenance>,
            )
            &&& none_before(families, id, families.len() as int) ==> meant == (
                SessionKind::Acp,
                Some(id),
                Some(ProviderProvenance::Env),
            )
        }),
{
    let named = if provider is Some {
        provider
    } else {
        env
    };
    if let Some(id) = named {
        if families[at].id@ == id && none_before(families, id, at) {
            lemma_family(families, id, 0, at);
        }
        if none_before(families, id, families.len() as int) {
            lemma_family(families, id, 0, families.len() as int);
        }
    }
}

/// A session is resumed by its own user only, and only from a row that has both
/// the provider and the provider's id of the session; the handle is those two.
pub proof fn law_sessions_are_resumed_by_their_user(record: ResumeRecord, user: Seq<char>)
    ensures
        record.user@ != user ==> resumable(record, user) == Err::<(Seq<char>, Seq<char>), ErrorView>(
            ErrorView {
                code: ErrorCode::Unauthorized,
                message: "This session belongs to another user."@,
                details: None,
            },
        ),
        record.user@ == user && record.provider is None ==> resumable(record, user) == Err::<
            (Seq<char>, Seq<char>),
            ErrorView,
        >(
            ErrorView {
                code: ErrorCode::InvalidRequest,
                message:
                    "This session cannot be resumed because its provider was not persisted."@,
                details: None,
            },
        ),
        record.user@ == user && record.provider is Some && record.peer_session_id is None
            ==> resumable(record, user) == Err::<(Seq<char>, Seq<char>), ErrorView>(
            ErrorView {
                code: ErrorCode::InvalidRequest,
                message:
                    "This session cannot be resumed because the row has no provider handle to resume from."@,
                details: None,
            },
        ),
        record.user@ == user && record.provider is Some && record.peer_session_id is Some
            ==> resumable(record, user) == Ok::<(Seq<char>, Seq<char>), ErrorView>(
            (record.provider->0@, record.peer_session_id->0@),
        ),
{
}

/// The environment may not name a wrapper that downloads what it runs, and the
/// refusal names it.
pub proof fn law_wrappers_are_refused_by_name(id: Seq<char>)
    ensures
        npx_refusal(id) == (ErrorView {
            code: ErrorCode::InvalidRequest,
            message: "provider '"@ + id
                + "' is an npx wrapper; npx wrappers require explicit selection, the env override cannot launch them"@,
            details: None,
        }),
{
}

} // verus!
