//! The folder a workspace stands in, and the errors of starting a child there.
use crate::registry::{
    journal_closed, journal_error, journal_unavailable, law_remembered_path_is_found, lookup,
    lookup_failure, unavailable, with_entry, without, workspace_journal_error,
    workspace_unavailable, JournalError, SessionRegistry,
};
use crate::session_types::PtyCommand;
use crate::wire::{fixed_error, plain_error, string_view, ErrorCode, ErrorView, WireError};
use crate::workspace::{plain, plain_path, ProjectRecord, WorkspaceRecord};
use crate::workspace_create::{require_project, required_project, ProjectAsk, ProjectAskView};
use vstd::prelude::*;

verus! {

/// What is known so far about a workspace's folder.
#[derive(Debug)]
pub struct PathFacts {
    /// Whether the remembered folder is still there.
    pub cached_is_dir: Option<bool>,
    /// The workspace's row.
    pub row: Option<Result<Option<WorkspaceRecord>, JournalError>>,
    /// Whether the row's folder is there.
    pub folder_is_dir: Option<bool>,
}

/// What looking a folder up asks for next.
#[derive(Debug)]
pub enum PathStep {
    ProbeCached { path: String },
    ReadRow,
    ProbeFolder { path: String },
    /// Nothing: this is the answer.
    Done(Result<String, WireError>),
}

/// `PathStep` over the characters of its texts.
pub ghost enum PathStepView {
    ProbeCached { path: Seq<char> },
    ReadRow,
    ProbeFolder { path: Seq<char> },
    Done(Result<Seq<char>, ErrorView>),
}

impl View for PathStep {
    type V = PathStepView;

    open spec fn view(&self) -> PathStepView {
        match self {
            PathStep::ProbeCached { path } => PathStepView::ProbeCached { path: path@ },
            PathStep::ReadRow => PathStepView::ReadRow,
            PathStep::ProbeFolder { path } => PathStepView::ProbeFolder { path: path@ },
            PathStep::Done(r) => PathStepView::Done(string_view(*r)),
        }
    }
}

/// Looking a folder up in the journal.
pub open spec fn journal_path_step(journal_open: bool, workspace_id: Seq<char>, facts: PathFacts) -> PathStepView {
    if !journal_open {
        PathStepView::Done(Err(lookup_failure(workspace_id, "journal is not open"@)))
    } else {
        match facts.row {
            None => PathStepView::ReadRow,
            Some(Err(e)) => PathStepView::Done(Err(lookup_failure(workspace_id, e.message@))),
            Some(Ok(None)) => PathStepView::Done(
                Err(unavailable(workspace_id, "it does not exist"@)),
            ),
            Some(Ok(Some(w))) => match facts.folder_is_dir {
                None => PathStepView::ProbeFolder { path: w.path@ },
                Some(false) => PathStepView::Done(
                    Err(unavailable(workspace_id, "its folder is no longer available"@)),
                ),
                Some(true) => PathStepView::Done(Ok(w.path@)),
            },
        }
    }
}

/// Looking a folder up: a remembered folder that is still there is the answer,
/// without the journal.
pub open spec fn stored_path_step(
    journal_open: bool,
    cached: Option<Seq<char>>,
    workspace_id: Seq<char>,
    facts: PathFacts,
) -> PathStepView {
    match (cached, facts.cached_is_dir) {
        (Some(path), None) => PathStepView::ProbeCached { path },
        (Some(path), Some(true)) => PathStepView::Done(Ok(path)),
        _ => journal_path_step(journal_open, workspace_id, facts),
    }
}

/// What the registry remembers after a step: a folder that is gone is
/// forgotten, and a folder from the journal is remembered.
pub open spec fn paths_after(
    paths: Seq<(Seq<char>, Seq<char>)>,
    workspace_id: Seq<char>,
    facts: PathFacts,
    step: PathStepView,
) -> Seq<(Seq<char>, Seq<char>)> {
    match (lookup(paths, workspace_id), facts.cached_is_dir) {
        (Some(_), None) => paths,
        (Some(_), Some(true)) => paths,
        (cached, _) => {
            let kept = if cached is Some {
                without(paths, workspace_id)
            } else {
                paths
            };
            match step {
                PathStepView::Done(Ok(path)) => with_entry(kept, workspace_id, path),
                _ => kept,
            }
        },
    }
}

/// A step whose folder, if it is one, is in the plain spelling.
pub open spec fn plain_step(step: PathStepView) -> PathStepView {
    match step {
        PathStepView::Done(Ok(path)) => PathStepView::Done(Ok(plain(path))),
        other => other,
    }
}

fn decide_journal_path(journal_open: bool, workspace_id: &str, facts: &PathFacts) -> (r: PathStep)
    ensures
        r@ == journal_path_step(journal_open, workspace_id@, *facts),
{
    if !journal_open {
        let closed = JournalError { message: "journal is not open".to_owned() };
        return PathStep::Done(Err(workspace_journal_error(workspace_id, &closed)));
    }
    match &facts.row {
        None => PathStep::ReadRow,
        Some(Err(e)) => PathStep::Done(Err(workspace_journal_error(workspace_id, e))),
        Some(Ok(None)) => PathStep::Done(
            Err(workspace_unavailable(workspace_id, "it does not exist")),
        ),
        Some(Ok(Some(w))) => match facts.folder_is_dir {
            None => PathStep::ProbeFolder { path: w.path.clone() },
            Some(false) => PathStep::Done(
                Err(workspace_unavailable(workspace_id, "its folder is no longer available")),
            ),
            Some(true) => PathStep::Done(Ok(w.path.clone())),
        },
    }
}

impl SessionRegistry {
    /// The folder that a workspace's row names, in the stored spelling.
    pub fn workspace_stored_path(&mut self, workspace_id: &str, facts: &PathFacts) -> (r: PathStep)
        ensures
            r@ == stored_path_step(
                old(self).journal_open,
                lookup(old(self).paths@, workspace_id@),
                workspace_id@,
                *facts,
            ),
            final(self).paths@ == paths_after(old(self).paths@, workspace_id@, *facts, r@),
            old(self).well_formed() ==> final(self).well_formed(),
            final(self).journal_open == old(self).journal_open,
            final(self).worktree_add_in_flight == old(self).worktree_add_in_flight,
    {
        let cached = match self.cached_workspace_path(workspace_id) {
            Some(path) => Some(path.clone()),
            None => None,
        };
        if let Some(path) = cached {
            match facts.cached_is_dir {
                None => {
                    return PathStep::ProbeCached { path };
                },
                Some(true) => {
                    return PathStep::Done(Ok(path));
                },
                Some(false) => {
                    self.invalidate_workspace_path(workspace_id);
                },
            }
        }
        let step = decide_journal_path(self.journal_open, workspace_id, facts);
        if let PathStep::Done(Ok(path)) = &step {
            self.remember_workspace_path(workspace_id, path.as_str());
        }
        step
    }

    /// The folder of a workspace in the plain spelling, which is what a child
    /// process receives as its directory.
    pub fn workspace_cwd(&mut self, workspace_id: &str, facts: &PathFacts) -> (r: PathStep)
        ensures
            r@ == plain_step(
                stored_path_step(
                    old(self).journal_open,
                    lookup(old(self).paths@, workspace_id@),
                    workspace_id@,
                    *facts,
                ),
            ),
            final(self).paths@ == paths_after(
                old(self).paths@,
                workspace_id@,
                *facts,
                stored_path_step(
                    old(self).journal_open,
                    lookup(old(self).paths@, workspace_id@),
                    workspace_id@,
                    *facts,
                ),
            ),
            old(self).well_formed() ==> final(self).well_formed(),
            final(self).journal_open == old(self).journal_open,
            final(self).worktree_add_in_flight == old(self).worktree_add_in_flight,
    {
        match self.workspace_stored_path(workspace_id, facts) {
            PathStep::Done(Ok(path)) => PathStep::Done(Ok(plain_cwd(path.as_str()))),
            other => other,
        }
    }

    /// Puts a command into the folder of its workspace, if it has one. Nothing
    /// changes in the command until the folder is known; a lookup that fails
    /// leaves it as it was. `None` says that there is nothing left to do.
    pub fn apply_workspace_cwd(
        &mut self,
        workspace_id: Option<&str>,
        command: &mut PtyCommand,
        facts: &PathFacts,
    ) -> (r: Option<PathStep>)
        ensures
            workspace_id is None ==> r is None && *final(command) == *old(command) && *final(self)
                == *old(self),
            workspace_id matches Some(id) ==> {
                let step = plain_step(
                    stored_path_step(
                        old(self).journal_open,
                        lookup(old(self).paths@, id@),
                        id@,
                        *facts,
                    ),
                );
                &&& final(command).program == old(command).program
                &&& final(command).args == old(command).args
                &&& final(command).env == old(command).env
                &&& final(command).provider_id == old(command).provider_id
                &&& match step {
                    PathStepView::Done(Ok(path)) => r is None && final(command).cwd@ == path,
                    other => r matches Some(s) && s@ == other && final(command).cwd == old(
                        command,
                    ).cwd,
                }
                &&& final(self).paths@ == paths_after(
                    old(self).paths@,
                    id@,
                    *facts,
                    stored_path_step(
                        old(self).journal_open,
                        lookup(old(self).paths@, id@),
                        id@,
                        *facts,
                    ),
                )
            },
            old(self).well_formed() ==> final(self).well_formed(),
            final(self).journal_open == old(self).journal_open,
            final(self).worktree_add_in_flight == old(self).worktree_add_in_flight,
    {
        match workspace_id {
            None => None,
            Some(id) => match self.workspace_cwd(id, facts) {
                PathStep::Done(Ok(path)) => {
                    command.cwd = path;
                    None
                },
                other => Some(other),
            },
        }
    }
}

/// A stored path in the spelling that a child process receives.
pub fn plain_cwd(path: &str) -> (r: String)
    ensures
        r@ == plain(path@),
{
    plain_path(path)
}

/// What scoping a call to its caller's project asks for next.
#[derive(Debug)]
pub enum ScopeStep {
    ReadWorkspace { workspace_id: String },
    /// Nothing: this is the answer, the workspace's id and the project's.
    Done(Result<(String, String), WireError>),
}

/// `ScopeStep` over the characters of its texts.
pub ghost enum ScopeView {
    ReadWorkspace { workspace_id: Seq<char> },
    Done(Result<(Seq<char>, Seq<char>), ErrorView>),
}

impl View for ScopeStep {
    type V = ScopeView;

    open spec fn view(&self) -> ScopeView {
        match self {
            ScopeStep::ReadWorkspace { workspace_id } => ScopeView::ReadWorkspace {
                workspace_id: workspace_id@,
            },
            ScopeStep::Done(r) => ScopeView::Done(
                match r {
                    Ok(p) => Ok((p.0@, p.1@)),
                    Err(e) => Err(e@),
                },
            ),
        }
    }
}

/// The workspace and the project that a caller's session stands in: from the
/// session's row, never from a request.
pub open spec fn scope_step(
    journal_open: bool,
    creator: Result<Option<String>, WireError>,
    row: Option<Result<Option<WorkspaceRecord>, JournalError>>,
) -> ScopeView {
    match creator {
        Err(e) => ScopeView::Done(Err(e@)),
        Ok(None) => ScopeView::Done(
            Err(
                plain_error(
                    ErrorCode::InvalidRequest,
                    "This session has no workspace, so there is no project to scope this call to."@,
                ),
            ),
        ),
        Ok(Some(id)) => if !journal_open {
            ScopeView::Done(Err(journal_closed()))
        } else {
            match row {
                None => ScopeView::ReadWorkspace { workspace_id: id@ },
                Some(Err(e)) => ScopeView::Done(Err(journal_error(e.message@))),
                Some(Ok(None)) => ScopeView::Done(
                    Err(
                        plain_error(
                            ErrorCode::InvalidRequest,
                            "This session's workspace is gone from the journal."@,
                        ),
                    ),
                ),
                Some(Ok(Some(w))) => ScopeView::Done(Ok((id@, w.project_id@))),
            }
        },
    }
}

/// What naming a project's folder asks for next.
#[derive(Debug)]
pub enum NamedProjectStep {
    Ask(ProjectAsk),
    /// The project's name and folder.
    Named { name: String, path: String },
}

/// `NamedProjectStep` over the characters of its texts.
pub ghost enum NamedProjectView {
    Ask(ProjectAskView),
    Named { name: Seq<char>, path: Seq<char> },
}

impl View for NamedProjectStep {
    type V = NamedProjectView;

    open spec fn view(&self) -> NamedProjectView {
        match self {
            NamedProjectStep::Ask(ask) => NamedProjectView::Ask(ask@),
            NamedProjectStep::Named { name, path } => NamedProjectView::Named {
                name: name@,
                path: path@,
            },
        }
    }
}

impl SessionRegistry {
    /// The workspace and the project that a caller's session stands in.
    /// `creator` is the workspace of the session's row, if the caller may see
    /// it, and `row` the workspace's row.
    pub fn caller_workspace_scope(
        &self,
        creator: Result<Option<String>, WireError>,
        row: &Option<Result<Option<WorkspaceRecord>, JournalError>>,
    ) -> (r: ScopeStep)
        ensures
            r@ == scope_step(self.journal_open, creator, *row),
    {
        match creator {
            Err(e) => ScopeStep::Done(Err(e)),
            Ok(None) => ScopeStep::Done(
                Err(
                    fixed_error(
                        ErrorCode::InvalidRequest,
                        "This session has no workspace, so there is no project to scope this call to.",
                    ),
                ),
            ),
            Ok(Some(id)) => {
                if !self.journal_open {
                    return ScopeStep::Done(Err(journal_unavailable()));
                }
                match row {
                    None => ScopeStep::ReadWorkspace { workspace_id: id },
                    Some(Err(e)) => ScopeStep::Done(Err(e.to_wire())),
                    Some(Ok(None)) => ScopeStep::Done(
                        Err(
                            fixed_error(
                                ErrorCode::InvalidRequest,
                                "This session's workspace is gone from the journal.",
                            ),
                        ),
                    ),
                    Some(Ok(Some(w))) => ScopeStep::Done(Ok((id, w.project_id.clone()))),
                }
            },
        }
    }

    /// The project's name and folder, for what names where a create will land
    /// before it runs.
    pub fn project_name_and_path(
        &self,
        project_id: &str,
        row: &Option<Result<Option<ProjectRecord>, JournalError>>,
        is_dir: Option<bool>,
    ) -> (r: NamedProjectStep)
        ensures
            r@ == match required_project(self.journal_open, project_id@, *row, is_dir) {
                Err(ask) => NamedProjectView::Ask(ask),
                Ok(p) => NamedProjectView::Named { name: p.name, path: p.path },
            },
    {
        match require_project(self.journal_open, project_id, row, is_dir) {
            Err(ask) => NamedProjectStep::Ask(ask),
            Ok(p) => NamedProjectStep::Named { name: p.name.clone(), path: p.path.clone() },
        }
    }
}

/// A folder that is remembered and still there is the answer whatever the
/// journal says, or whether there is one.
pub proof fn law_remembered_folders_need_no_journal(
    journal_open: bool,
    path: Seq<char>,
    workspace_id: Seq<char>,
    facts: PathFacts,
)
    requires
        facts.cached_is_dir == Some(true),
    ensures
        stored_path_step(journal_open, Some(path), workspace_id, facts) == PathStepView::Done(
            Ok(path),
        ),
{
}

/// A folder that is gone is never the answer, remembered or not.
pub proof fn law_missing_folders_are_never_answered(
    journal_open: bool,
    cached: Option<Seq<char>>,
    workspace_id: Seq<char>,
    facts: PathFacts,
    path: Seq<char>,
)
    requires
        stored_path_step(journal_open, cached, workspace_id, facts) == PathStepView::Done(Ok(path)),
    ensures
        (cached == Some(path) && facts.cached_is_dir == Some(true)) || (facts.folder_is_dir == Some(
            true,
        ) && facts.row is Some && facts.row->0 is Ok && facts.row->0->Ok_0 is Some
            && facts.row->0->Ok_0->0.path@ == path),
{
}

/// Nothing is asked for that is known already, so a caller that answers every
/// question gets to an end.
pub proof fn law_no_question_is_asked_twice(
    journal_open: bool,
    cached: Option<Seq<char>>,
    workspace_id: Seq<char>,
    facts: PathFacts,
)
    ensures
        match stored_path_step(journal_open, cached, workspace_id, facts) {
            PathStepView::ProbeCached { .. } => facts.cached_is_dir is None,
            PathStepView::ReadRow => facts.row is None,
            PathStepView::ProbeFolder { .. } => facts.folder_is_dir is None,
            _ => true,
        },
{
}

/// A folder is looked up where it was remembered, then in the journal, and it is
/// the answer only where it is there; what stands in the way is said by name.
pub proof fn law_folders_are_looked_up_in_this_order(
    journal_open: bool,
    cached: Option<Seq<char>>,
    workspace_id: Seq<char>,
    facts: PathFacts,
    w: WorkspaceRecord,
    journal: JournalError,
)
    ensures
        ({
            let step = stored_path_step(journal_open, cached, workspace_id, facts);
            let failed = |words: Seq<char>|
                PathStepView::Done(
                    Err(
                        ErrorView {
                            code: ErrorCode::Journal,
                            message: "Workspace '"@ + workspace_id
                                + "' could not be read from the journal: "@ + words,
                            details: None,
                        },
                    ),
                );
            let unusable = |reason: Seq<char>|
                PathStepView::Done(
                    Err(
                        ErrorView {
                            code: ErrorCode::WorkspaceUnavailable,
                            message: "Workspace '"@ + workspace_id + "' is unavailable: "@ + reason
                                + "."@,
                            details: None,
                        },
                    ),
                );
            &&& cached is Some && facts.cached_is_dir is None ==> step == (
            PathStepView::ProbeCached { path: cached->0 })
            &&& cached is Some && facts.cached_is_dir == Some(true) ==> step == PathStepView::Done(
                Ok(cached->0),
            )
            &&& cached is None || facts.cached_is_dir == Some(false) ==> {
                &&& !journal_open ==> step == failed("journal is not open"@)
                &&& journal_open ==> {
                    &&& facts.row is None ==> step == PathStepView::ReadRow
                    &&& facts.row == Some(Err::<Option<WorkspaceRecord>, JournalError>(journal))
                        ==> step == failed(journal.message@)
                    &&& facts.row == Some(Ok::<Option<WorkspaceRecord>, JournalError>(None)) ==> step
                        == unusable("it does not exist"@)
                    &&& facts.row == Some(Ok::<Option<WorkspaceRecord>, JournalError>(Some(w))) ==> {
                        &&& facts.folder_is_dir is None ==> step == (PathStepView::ProbeFolder {
                            path: w.path@,
                        })
                        &&& facts.folder_is_dir == Some(false) ==> step == unusable(
                            "its folder is no longer available"@,
                        )
                        &&& facts.folder_is_dir == Some(true) ==> step == PathStepView::Done(
                            Ok(w.path@),
                        )
                    }
                }
            }
        }),
{
}

/// A folder that is found gone is forgotten, one that the journal gave is
/// remembered, one that is remembered and there stays, and nothing else is
/// touched.
pub proof fn law_found_folders_are_remembered(
    journal_open: bool,
    paths: Seq<(Seq<char>, Seq<char>)>,
    workspace_id: Seq<char>,
    facts: PathFacts,
)
    ensures
        ({
            let cached = lookup(paths, workspace_id);
            let step = stored_path_step(journal_open, cached, workspace_id, facts);
            let after = paths_after(paths, workspace_id, facts, step);
            &&& cached is Some && facts.cached_is_dir != Some(false) ==> after == paths
            &&& cached is None && !(step is Done && step->Done_0 is Ok) ==> after == paths
            &&& cached is Some && facts.cached_is_dir == Some(false) && !(step is Done
                && step->Done_0 is Ok) ==> lookup(after, workspace_id) is None
            &&& (step matches PathStepView::Done(Ok(path)) ==> lookup(after, workspace_id) == Some(
                path,
            ))
        }),
{
    let cached = lookup(paths, workspace_id);
    let step = stored_path_step(journal_open, cached, workspace_id, facts);
    law_remembered_path_is_found(paths, workspace_id, Seq::empty());
    if let PathStepView::Done(Ok(path)) = step {
        law_remembered_path_is_found(paths, workspace_id, path);
        law_remembered_path_is_found(without(paths, workspace_id), workspace_id, path);
    }
}

/// What a child process receives is the plain spelling of the stored folder, and
/// questions and refusals are handed on as they are.
pub proof fn law_children_receive_plain_folders(step: PathStepView)
    ensures
        step matches PathStepView::Done(Ok(path)) ==> plain_step(step) == PathStepView::Done(
            Ok(plain(path)),
        ),
        !(step is Done && step->Done_0 is Ok) ==> plain_step(step) == step,
{
}

/// A call is scoped to the workspace of its caller's session and to that
/// workspace's project, never to what a request names.
pub proof fn law_calls_are_scoped_by_their_session(
    journal_open: bool,
    creator: Result<Option<String>, WireError>,
    row: Option<Result<Option<WorkspaceRecord>, JournalError>>,
    id: String,
    w: WorkspaceRecord,
    journal: JournalError,
    refused: WireError,
)
    ensures
        ({
            let step = scope_step(journal_open, creator, row);
            let error = |code: ErrorCode, message: Seq<char>|
                ScopeView::Done(Err(ErrorView { code, message, details: None }));
            &&& creator == Err::<Option<String>, WireError>(refused) ==> step == ScopeView::Done(
                Err(refused@),
            )
            &&& creator == Ok::<Option<String>, WireError>(None) ==> step == error(
                ErrorCode::InvalidRequest,
                "This session has no workspace, so there is no project to scope this call to."@,
            )
            &&& creator == Ok::<Option<String>, WireError>(Some(id)) ==> {
                &&& !journal_open ==> step == error(ErrorCode::Journal, "journal is not open"@)
                &&& journal_open && row is None ==> step == (ScopeView::ReadWorkspace {
                    workspace_id: id@,
                })
                &&& journal_open && row == Some(
                    Err::<Option<WorkspaceRecord>, JournalError>(journal),
                ) ==> step == error(ErrorCode::Journal, journal.message@)
                &&& journal_open && row == Some(Ok::<Option<WorkspaceRecord>, JournalError>(None))
                    ==> step == error(
                    ErrorCode::InvalidRequest,
                    "This session's workspace is gone from the journal."@,
                )
                &&& journal_open && row == Some(
                    Ok::<Option<WorkspaceRecord>, JournalError>(Some(w)),
                ) ==> step == ScopeView::Done(Ok((id@, w.project_id@)))
            }
        }),
{
}

} // verus!
