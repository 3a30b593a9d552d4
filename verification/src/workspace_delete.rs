//! Deleting a workspace, decision by decision.
//!
//! The journal, git and the disk are asked from outside. Each call says what is
//! known so far and gets back the one thing to do next; the last answer is the
//! reply to the client. A worktree is removed only when it lies beside its
//! project, is the workspace's own, is not locked, and holds no uncommitted work
//! unless the caller insists. Where the project is gone, the row alone goes and
//! the checkout stays on disk.
use crate::registry::{
    journal_closed, journal_error, journal_unavailable, unavailable, without, workspace_unavailable,
    JournalError, SessionRegistry,
};
use crate::wire::{
    detailed_error, fixed_error, plain_error, text3, text5, text7, text_view, unit_view,
    DetailsView, ErrorCode, ErrorDetails, ErrorView, WireError,
};
use crate::workspace::{plain, plain_path, ProjectRecord, ProjectView, WorkspaceIsolation, WorkspaceRecord, WorkspaceView};
use vstd::prelude::*;

verus! {

/// What stands at a checkout's path among the worktrees that git lists.
#[derive(Debug)]
pub enum WorktreeIdentity {
    /// The worktree of the expected branch.
    Match,
    /// No listed worktree.
    Missing,
    /// A locked worktree.
    Locked,
    /// A worktree of another branch, or of none.
    BranchMismatch { observed: Option<String> },
}

/// Where a project's worktrees lie, and whether the checkout is among them.
#[derive(Debug)]
pub struct Confinement {
    /// The folder beside the project; a project without a parent has none.
    pub root: Option<String>,
    /// Whether the checkout lies inside that folder.
    pub inside: bool,
}

/// Whether a checkout holds uncommitted work.
#[derive(Debug)]
pub enum CheckoutProbe {
    Clean,
    /// It does; the sentence that says so.
    Dirty { message: String },
    /// Git did not say.
    Unknown,
}

/// Why a worktree could not be removed.
#[derive(Debug)]
pub enum RemovalError {
    /// It holds uncommitted work; the sentence that says so.
    Dirty { message: String },
    Failed { error: String },
}

/// Why a row is deleted without its checkout.
#[derive(Clone, Copy, Debug, PartialEq, Eq, Structural)]
pub enum Detachment {
    ProjectRowGone,
    ProjectFolderGone,
}

impl Detachment {
    /// The reason in words.
    pub fn reason(&self) -> (r: &'static str)
        ensures
            r@ == match self {
                Detachment::ProjectRowGone => "its project row is gone"@,
                Detachment::ProjectFolderGone => "its project folder is gone"@,
            },
    {
        match self {
            Detachment::ProjectRowGone => "its project row is gone",
            Detachment::ProjectFolderGone => "its project folder is gone",
        }
    }
}

/// What is known so far about a delete; nothing is known at first.
#[derive(Debug)]
pub struct DeleteFacts {
    /// The workspace's row.
    pub workspace: Option<Result<Option<WorkspaceRecord>, JournalError>>,
    /// The row of the workspace's project.
    pub project: Option<Result<Option<ProjectRecord>, JournalError>>,
    /// Whether the project's folder is there.
    pub project_is_dir: Option<bool>,
    pub confinement: Option<Confinement>,
    /// What git lists at the checkout's path.
    pub identity: Option<Result<WorktreeIdentity, String>>,
    pub dirty: Option<CheckoutProbe>,
    /// The outcome of removing the worktree.
    pub removal: Option<Result<(), RemovalError>>,
    /// The outcome of deleting the workspace's row.
    pub row_deleted: Option<Result<(), JournalError>>,
}

/// What a delete asks for next.
#[derive(Debug)]
pub enum DeleteStep {
    ReadWorkspace,
    ReadProject { project_id: String },
    ProbeProjectFolder { path: String },
    Confine { checkout: String, project_path: String },
    Identify { repo: String, checkout: String, branch: String },
    ProbeDirty { checkout: String },
    RemoveWorktree { repo: String, checkout: String, force: bool },
    /// Delete the row; a detached row leaves its checkout on disk.
    DeleteRow { detached: Option<Detachment> },
    /// Nothing: this is the answer.
    Done(Result<(), WireError>),
}

/// `DeleteStep` over the characters of its texts.
pub ghost enum DeleteStepView {
    ReadWorkspace,
    ReadProject { project_id: Seq<char> },
    ProbeProjectFolder { path: Seq<char> },
    Confine { checkout: Seq<char>, project_path: Seq<char> },
    Identify { repo: Seq<char>, checkout: Seq<char>, branch: Seq<char> },
    ProbeDirty { checkout: Seq<char> },
    RemoveWorktree { repo: Seq<char>, checkout: Seq<char>, force: bool },
    DeleteRow { detached: Option<Detachment> },
    Done(Result<(), ErrorView>),
}

impl View for DeleteStep {
    type V = DeleteStepView;

    open spec fn view(&self) -> DeleteStepView {
        match self {
            DeleteStep::ReadWorkspace => DeleteStepView::ReadWorkspace,
            DeleteStep::ReadProject { project_id } => DeleteStepView::ReadProject {
                project_id: project_id@,
            },
            DeleteStep::ProbeProjectFolder { path } => DeleteStepView::ProbeProjectFolder {
                path: path@,
            },
            DeleteStep::Confine { checkout, project_path } => DeleteStepView::Confine {
                checkout: checkout@,
                project_path: project_path@,
            },
            DeleteStep::Identify { repo, checkout, branch } => DeleteStepView::Identify {
                repo: repo@,
                checkout: checkout@,
                branch: branch@,
            },
            DeleteStep::ProbeDirty { checkout } => DeleteStepView::ProbeDirty {
                checkout: checkout@,
            },
            DeleteStep::RemoveWorktree { repo, checkout, force } =>
                DeleteStepView::RemoveWorktree { repo: repo@, checkout: checkout@, force: *force },
            DeleteStep::DeleteRow { detached } => DeleteStepView::DeleteRow { detached: *detached },
            DeleteStep::Done(r) => DeleteStepView::Done(unit_view(*r)),
        }
    }
}

/// The branch that a workspace's row names; a row without one names "".
pub open spec fn expected_branch(w: WorkspaceView) -> Seq<char> {
    match w.branch {
        Some(b) => b,
        None => ""@,
    }
}

pub open spec fn local_refusal() -> ErrorView {
    plain_error(
        ErrorCode::InvalidRequest,
        "The local workspace is the project folder and is not removed as a worktree."@,
    )
}

pub open spec fn no_parent_refusal() -> ErrorView {
    plain_error(
        ErrorCode::InvalidRequest,
        "Project has no parent directory for a sibling worktree."@,
    )
}

/// The checkout lies outside the project's worktree folder.
pub open spec fn unconfined_refusal(checkout: Seq<char>, root: Seq<char>) -> ErrorView {
    detailed_error(
        ErrorCode::InvalidRequest,
        "Checkout '"@ + plain(checkout) + "' is not inside worktree root '"@ + plain(root) + "'."@,
        DetailsView::WorktreeNotConfined { path: plain(checkout), root: plain(root) },
    )
}

pub open spec fn locked_refusal(checkout: Seq<char>) -> ErrorView {
    detailed_error(
        ErrorCode::InvalidRequest,
        "Worktree '"@ + plain(checkout)
            + "' is locked. Unlock it before removing; --force does not override a lock."@,
        DetailsView::WorktreeLocked { path: plain(checkout) },
    )
}

pub open spec fn mismatch_refusal(
    checkout: Seq<char>,
    expected: Seq<char>,
    observed: Option<Seq<char>>,
) -> ErrorView {
    let named = match observed {
        Some(b) => b,
        None => "(detached)"@,
    };
    detailed_error(
        ErrorCode::InvalidRequest,
        "Worktree at '"@ + plain(checkout) + "' is branch '"@ + named + "', not '"@ + expected
            + "'. Refusing to remove another workspace's checkout."@,
        DetailsView::WorktreeMismatch {
            path: plain(checkout),
            expected_branch: expected,
            observed_branch: observed,
        },
    )
}

pub open spec fn dirty_refusal(checkout: Seq<char>, message: Seq<char>) -> ErrorView {
    detailed_error(
        ErrorCode::InvalidRequest,
        message,
        DetailsView::WorktreeDirty { path: plain(checkout), force_required: true },
    )
}

/// The row goes; what the journal says of it is the answer.
pub open spec fn row_step(facts: DeleteFacts, detached: Option<Detachment>) -> DeleteStepView {
    match facts.row_deleted {
        None => DeleteStepView::DeleteRow { detached },
        Some(Err(e)) => DeleteStepView::Done(Err(journal_error(e.message@))),
        Some(Ok(())) => DeleteStepView::Done(Ok(())),
    }
}

/// The worktree goes, then its row.
pub open spec fn removal_step(
    workspace_id: Seq<char>,
    force: bool,
    facts: DeleteFacts,
    w: WorkspaceView,
    p: ProjectView,
) -> DeleteStepView {
    match facts.removal {
        None => DeleteStepView::RemoveWorktree { repo: p.path, checkout: w.path, force },
        Some(Err(RemovalError::Dirty { message })) => DeleteStepView::Done(
            Err(dirty_refusal(w.path, message@)),
        ),
        Some(Err(RemovalError::Failed { error })) => DeleteStepView::Done(
            Err(
                plain_error(
                    ErrorCode::WorkspaceUnavailable,
                    "Could not remove worktree '"@ + workspace_id + "': "@ + error@,
                ),
            ),
        ),
        Some(Ok(())) => row_step(facts, None),
    }
}

/// Uncommitted work stops a delete that does not insist.
pub open spec fn dirty_step(
    workspace_id: Seq<char>,
    force: bool,
    facts: DeleteFacts,
    w: WorkspaceView,
    p: ProjectView,
) -> DeleteStepView {
    if force {
        removal_step(workspace_id, force, facts, w, p)
    } else {
        match facts.dirty {
            None => DeleteStepView::ProbeDirty { checkout: w.path },
            Some(CheckoutProbe::Dirty { message }) => DeleteStepView::Done(
                Err(dirty_refusal(w.path, message@)),
            ),
            Some(_) => removal_step(workspace_id, force, facts, w, p),
        }
    }
}

/// Only the workspace's own worktree, unlocked, or none at all, lets a delete
/// go on.
pub open spec fn identity_step(
    workspace_id: Seq<char>,
    force: bool,
    facts: DeleteFacts,
    w: WorkspaceView,
    p: ProjectView,
) -> DeleteStepView {
    match facts.identity {
        None => DeleteStepView::Identify {
            repo: p.path,
            checkout: w.path,
            branch: expected_branch(w),
        },
        Some(Err(error)) => DeleteStepView::Done(
            Err(
                plain_error(
                    ErrorCode::WorkspaceUnavailable,
                    "Could not list worktrees for '"@ + workspace_id + "': "@ + error@,
                ),
            ),
        ),
        Some(Ok(WorktreeIdentity::Locked)) => DeleteStepView::Done(Err(locked_refusal(w.path))),
        Some(Ok(WorktreeIdentity::BranchMismatch { observed })) => DeleteStepView::Done(
            Err(mismatch_refusal(w.path, expected_branch(w), text_view(observed))),
        ),
        Some(Ok(_)) => dirty_step(workspace_id, force, facts, w, p),
    }
}

/// A project whose folder is there: its checkout must lie beside it.
pub open spec fn confinement_step(
    workspace_id: Seq<char>,
    force: bool,
    facts: DeleteFacts,
    w: WorkspaceView,
    p: ProjectView,
) -> DeleteStepView {
    match facts.confinement {
        None => DeleteStepView::Confine { checkout: w.path, project_path: p.path },
        Some(c) => match c.root {
            None => DeleteStepView::Done(Err(no_parent_refusal())),
            Some(root) => if c.inside {
                identity_step(workspace_id, force, facts, w, p)
            } else {
                DeleteStepView::Done(Err(unconfined_refusal(w.path, root@)))
            },
        },
    }
}

/// A worktree's row: without its project only the row goes.
pub open spec fn project_step(
    workspace_id: Seq<char>,
    force: bool,
    facts: DeleteFacts,
    w: WorkspaceView,
) -> DeleteStepView {
    match facts.project {
        None => DeleteStepView::ReadProject { project_id: w.project_id },
        Some(Err(e)) => DeleteStepView::Done(Err(journal_error(e.message@))),
        Some(Ok(None)) => row_step(facts, Some(Detachment::ProjectRowGone)),
        Some(Ok(Some(p))) => match facts.project_is_dir {
            None => DeleteStepView::ProbeProjectFolder { path: p.path@ },
            Some(false) => row_step(facts, Some(Detachment::ProjectFolderGone)),
            Some(true) => confinement_step(workspace_id, force, facts, w, p@),
        },
    }
}

/// What a delete does next, from what is known.
pub open spec fn delete_step(
    journal_open: bool,
    workspace_id: Seq<char>,
    force: bool,
    facts: DeleteFacts,
) -> DeleteStepView {
    if !journal_open {
        DeleteStepView::Done(Err(journal_closed()))
    } else {
        match facts.workspace {
            None => DeleteStepView::ReadWorkspace,
            Some(Err(e)) => DeleteStepView::Done(Err(journal_error(e.message@))),
            Some(Ok(None)) => DeleteStepView::Done(
                Err(unavailable(workspace_id, "it does not exist"@)),
            ),
            Some(Ok(Some(w))) => match w.isolation {
                WorkspaceIsolation::Local => DeleteStepView::Done(Err(local_refusal())),
                WorkspaceIsolation::Worktree => project_step(workspace_id, force, facts, w@),
            },
        }
    }
}

fn decide_row(facts: &DeleteFacts, detached: Option<Detachment>) -> (r: DeleteStep)
    ensures
        r@ == row_step(*facts, detached),
{
    match &facts.row_deleted {
        None => DeleteStep::DeleteRow { detached },
        Some(Err(e)) => DeleteStep::Done(Err(e.to_wire())),
        Some(Ok(())) => DeleteStep::Done(Ok(())),
    }
}

fn dirty_error(checkout: &str, message: &str) -> (r: WireError)
    ensures
        r@ == dirty_refusal(checkout@, message@),
{
    fixed_error(ErrorCode::InvalidRequest, message).with_details(
        ErrorDetails::WorktreeDirty { path: plain_path(checkout), force_required: true },
    )
}

fn locked_error(checkout: &str) -> (r: WireError)
    ensures
        r@ == locked_refusal(checkout@),
{
    let path = plain_path(checkout);
    let message = text3(
        "Worktree '",
        path.as_str(),
        "' is locked. Unlock it before removing; --force does not override a lock.",
    );
    WireError::new(ErrorCode::InvalidRequest, message).with_details(
        ErrorDetails::WorktreeLocked { path },
    )
}

fn mismatch_error(checkout: &str, expected: &str, observed: &Option<String>) -> (r: WireError)
    ensures
        r@ == mismatch_refusal(checkout@, expected@, text_view(*observed)),
{
    let path = plain_path(checkout);
    let named = match observed {
        Some(b) => b.as_str(),
        None => "(detached)",
    };
    let message = text7(
        "Worktree at '",
        path.as_str(),
        "' is branch '",
        named,
        "', not '",
        expected,
        "'. Refusing to remove another workspace's checkout.",
    );
    let observed_branch = match observed {
        Some(b) => Some(b.clone()),
        None => None,
    };
    WireError::new(ErrorCode::InvalidRequest, message).with_details(
        ErrorDetails::WorktreeMismatch {
            path,
            expected_branch: expected.to_owned(),
            observed_branch,
        },
    )
}

fn unconfined_error(checkout: &str, root: &str) -> (r: WireError)
    ensures
        r@ == unconfined_refusal(checkout@, root@),
{
    let path = plain_path(checkout);
    let root = plain_path(root);
    let message = text5(
        "Checkout '",
        path.as_str(),
        "' is not inside worktree root '",
        root.as_str(),
        "'.",
    );
    WireError::new(ErrorCode::InvalidRequest, message).with_details(
        ErrorDetails::WorktreeNotConfined { path, root },
    )
}

fn failure(before: &str, id: &str, error: &str) -> (r: WireError)
    ensures
        r@ == plain_error(ErrorCode::WorkspaceUnavailable, before@ + id@ + "': "@ + error@),
{
    let mut message = text3(before, id, "': ");
    message.append(error);
    WireError::new(ErrorCode::WorkspaceUnavailable, message)
}

fn decide_removal(
    workspace_id: &str,
    force: bool,
    facts: &DeleteFacts,
    w: &WorkspaceRecord,
    p: &ProjectRecord,
) -> (r: DeleteStep)
    ensures
        r@ == removal_step(workspace_id@, force, *facts, w@, p@),
{
    match &facts.removal {
        None => DeleteStep::RemoveWorktree { repo: p.path.clone(), checkout: w.path.clone(), force },
        Some(Err(RemovalError::Dirty { message })) => DeleteStep::Done(
            Err(dirty_error(w.path.as_str(), message.as_str())),
        ),
        Some(Err(RemovalError::Failed { error })) => DeleteStep::Done(
            Err(failure("Could not remove worktree '", workspace_id, error.as_str())),
        ),
        Some(Ok(())) => decide_row(facts, None),
    }
}

fn decide_dirty(
    workspace_id: &str,
    force: bool,
    facts: &DeleteFacts,
    w: &WorkspaceRecord,
    p: &ProjectRecord,
) -> (r: DeleteStep)
    ensures
        r@ == dirty_step(workspace_id@, force, *facts, w@, p@),
{
    if !force {
        match &facts.dirty {
            None => {
                return DeleteStep::ProbeDirty { checkout: w.path.clone() };
            },
            Some(CheckoutProbe::Dirty { message }) => {
                return DeleteStep::Done(Err(dirty_error(w.path.as_str(), message.as_str())));
            },
            Some(_) => {},
        }
    }
    decide_removal(workspace_id, force, facts, w, p)
}

fn decide_identity(
    workspace_id: &str,
    force: bool,
    facts: &DeleteFacts,
    w: &WorkspaceRecord,
    p: &ProjectRecord,
) -> (r: DeleteStep)
    ensures
        r@ == identity_step(workspace_id@, force, *facts, w@, p@),
{
    let expected = match &w.branch {
        Some(b) => b.as_str(),
        None => "",
    };
    match &facts.identity {
        None => DeleteStep::Identify {
            repo: p.path.clone(),
            checkout: w.path.clone(),
            branch: expected.to_owned(),
        },
        Some(Err(error)) => DeleteStep::Done(
            Err(failure("Could not list worktrees for '", workspace_id, error.as_str())),
        ),
        Some(Ok(WorktreeIdentity::Locked)) => DeleteStep::Done(Err(locked_error(w.path.as_str()))),
        Some(Ok(WorktreeIdentity::BranchMismatch { observed })) => DeleteStep::Done(
            Err(mismatch_error(w.path.as_str(), expected, observed)),
        ),
        Some(Ok(_)) => decide_dirty(workspace_id, force, facts, w, p),
    }
}

fn decide_confinement(
    workspace_id: &str,
    force: bool,
    facts: &DeleteFacts,
    w: &WorkspaceRecord,
    p: &ProjectRecord,
) -> (r: DeleteStep)
    ensures
        r@ == confinement_step(workspace_id@, force, *facts, w@, p@),
{
    match &facts.confinement {
        None => DeleteStep::Confine { checkout: w.path.clone(), project_path: p.path.clone() },
        Some(c) => match &c.root {
            None => DeleteStep::Done(
                Err(
                    fixed_error(
                        ErrorCode::InvalidRequest,
                        "Project has no parent directory for a sibling worktree.",
                    ),
                ),
            ),
            Some(root) => if c.inside {
                decide_identity(workspace_id, force, facts, w, p)
            } else {
                DeleteStep::Done(Err(unconfined_error(w.path.as_str(), root.as_str())))
            },
        },
    }
}

fn decide_project(workspace_id: &str, force: bool, facts: &DeleteFacts, w: &WorkspaceRecord) -> (r:
    DeleteStep)
    ensures
        r@ == project_step(workspace_id@, force, *facts, w@),
{
    match &facts.project {
        None => DeleteStep::ReadProject { project_id: w.project_id.clone() },
        Some(Err(e)) => DeleteStep::Done(Err(e.to_wire())),
        Some(Ok(None)) => decide_row(facts, Some(Detachment::ProjectRowGone)),
        Some(Ok(Some(p))) => match facts.project_is_dir {
            None => DeleteStep::ProbeProjectFolder { path: p.path.clone() },
            Some(false) => decide_row(facts, Some(Detachment::ProjectFolderGone)),
            Some(true) => decide_confinement(workspace_id, force, facts, w, p),
        },
    }
}

impl SessionRegistry {
    /// What deleting a workspace does next, from what is known. Once the row is
    /// gone the registry forgets the workspace's folder.
    pub fn workspace_delete(&mut self, workspace_id: &str, force: bool, facts: &DeleteFacts) -> (r:
        DeleteStep)
        ensures
            r@ == delete_step(old(self).journal_open, workspace_id@, force, *facts),
            final(self).paths@ == (if r@ == DeleteStepView::Done(Ok(())) {
                without(old(self).paths@, workspace_id@)
            } else {
                old(self).paths@
            }),
            old(self).well_formed() ==> final(self).well_formed(),
            final(self).journal_open == old(self).journal_open,
            final(self).worktree_add_in_flight == old(self).worktree_add_in_flight,
    {
        if !self.journal_open {
            return DeleteStep::Done(Err(journal_unavailable()));
        }
        let step = match &facts.workspace {
            None => DeleteStep::ReadWorkspace,
            Some(Err(e)) => DeleteStep::Done(Err(e.to_wire())),
            Some(Ok(None)) => DeleteStep::Done(
                Err(workspace_unavailable(workspace_id, "it does not exist")),
            ),
            Some(Ok(Some(w))) => match w.isolation {
                WorkspaceIsolation::Local => DeleteStep::Done(
                    Err(
                        fixed_error(
                            ErrorCode::InvalidRequest,
                            "The local workspace is the project folder and is not removed as a worktree.",
                        ),
                    ),
                ),
                WorkspaceIsolation::Worktree => decide_project(workspace_id, force, facts, w),
            },
        };
        if let DeleteStep::Done(Ok(())) = &step {
            self.invalidate_workspace_path(workspace_id);
        }
        step
    }
}

/// A worktree is asked to be removed only when its project's folder is there,
/// it lies inside the project's worktree folder, git lists at its path the
/// workspace's own worktree, unlocked, or nothing, and the caller insists or no
/// uncommitted work was seen. Insisting overrides neither a lock nor a
/// mismatch.
pub proof fn law_removal_is_guarded(
    journal_open: bool,
    workspace_id: Seq<char>,
    force: bool,
    facts: DeleteFacts,
)
    requires
        delete_step(journal_open, workspace_id, force, facts) is RemoveWorktree,
    ensures
        facts.project_is_dir == Some(true),
        facts.confinement is Some && facts.confinement->0.root is Some
            && facts.confinement->0.inside,
        facts.identity is Some && facts.identity->0 is Ok && (facts.identity->0->Ok_0 is Match
            || facts.identity->0->Ok_0 is Missing),
        force || (facts.dirty is Some && !(facts.dirty->0 is Dirty)),
{
}

/// The local workspace is the project's folder: whatever is known, neither it
/// nor its row is ever removed.
pub proof fn law_local_workspace_is_never_removed(
    journal_open: bool,
    workspace_id: Seq<char>,
    force: bool,
    facts: DeleteFacts,
    w: WorkspaceRecord,
)
    requires
        facts.workspace == Some(Ok::<Option<WorkspaceRecord>, JournalError>(Some(w))),
        w.isolation == WorkspaceIsolation::Local,
    ensures
        delete_step(journal_open, workspace_id, force, facts) is Done,
        delete_step(journal_open, workspace_id, force, facts)->Done_0 is Err,
{
}

/// Without its project a row is detached: no worktree is ever removed then, so
/// uncommitted work stays on disk.
pub proof fn law_detached_rows_leave_the_checkout(
    journal_open: bool,
    workspace_id: Seq<char>,
    force: bool,
    facts: DeleteFacts,
)
    ensures
        delete_step(journal_open, workspace_id, force, facts) == (DeleteStepView::DeleteRow {
            detached: Some(Detachment::ProjectFolderGone),
        }) ==> facts.project_is_dir == Some(false),
        delete_step(journal_open, workspace_id, force, facts) == (DeleteStepView::DeleteRow {
            detached: Some(Detachment::ProjectRowGone),
        }) ==> facts.project is Some && facts.project->0 is Ok && facts.project->0->Ok_0 is None,
        facts.project_is_dir == Some(false) || (facts.project is Some && facts.project->0 is Ok
            && facts.project->0->Ok_0 is None) ==> !(delete_step(
            journal_open,
            workspace_id,
            force,
            facts,
        ) is RemoveWorktree),
{
}

/// A row that is not detached is deleted only once its worktree was removed,
/// and a delete succeeds only once the row was deleted.
pub proof fn law_row_goes_last(
    journal_open: bool,
    workspace_id: Seq<char>,
    force: bool,
    facts: DeleteFacts,
)
    ensures
        delete_step(journal_open, workspace_id, force, facts) == (DeleteStepView::DeleteRow {
            detached: None,
        }) ==> facts.removal is Some && facts.removal->0 is Ok,
        delete_step(journal_open, workspace_id, force, facts) == DeleteStepView::Done(Ok(()))
            ==> facts.row_deleted is Some && facts.row_deleted->0 is Ok,
{
}

/// Nothing is asked for that is known already, so a caller that answers every
/// question gets to an end.
pub proof fn law_no_question_is_asked_twice(
    journal_open: bool,
    workspace_id: Seq<char>,
    force: bool,
    facts: DeleteFacts,
)
    ensures
        match delete_step(journal_open, workspace_id, force, facts) {
            DeleteStepView::ReadWorkspace => facts.workspace is None,
            DeleteStepView::ReadProject { .. } => facts.project is None,
            DeleteStepView::ProbeProjectFolder { .. } => facts.project_is_dir is None,
            DeleteStepView::Confine { .. } => facts.confinement is None,
            DeleteStepView::Identify { .. } => facts.identity is None,
            DeleteStepView::ProbeDirty { .. } => facts.dirty is None,
            DeleteStepView::RemoveWorktree { .. } => facts.removal is None,
            DeleteStepView::DeleteRow { .. } => facts.row_deleted is None,
            _ => true,
        },
{
}

/// Whatever a delete does, it does it to the checkout that the workspace's own
/// row names, in the repository of the workspace's own project, and it insists
/// exactly where the caller does: the checkout that is removed is the one that
/// was confined, identified and probed.
pub proof fn law_delete_acts_on_the_workspaces_own_checkout(
    journal_open: bool,
    workspace_id: Seq<char>,
    force: bool,
    facts: DeleteFacts,
    w: WorkspaceRecord,
    p: ProjectRecord,
)
    requires
        facts.workspace == Some(Ok::<Option<WorkspaceRecord>, JournalError>(Some(w))),
    ensures
        delete_step(journal_open, workspace_id, force, facts) matches DeleteStepView::ReadProject {
            project_id,
        } ==> project_id == w.project_id@,
        facts.project == Some(Ok::<Option<ProjectRecord>, JournalError>(Some(p))) ==> (
        match delete_step(journal_open, workspace_id, force, facts) {
            DeleteStepView::ProbeProjectFolder { path } => path == p.path@,
            DeleteStepView::Confine { checkout, project_path } => checkout == w.path@ && project_path
                == p.path@,
            DeleteStepView::Identify { repo, checkout, branch } => repo == p.path@ && checkout
                == w.path@ && (match w.branch {
                Some(named) => branch == named@,
                None => branch.len() == 0,
            }),
            DeleteStepView::ProbeDirty { checkout } => checkout == w.path@ && !force,
            DeleteStepView::RemoveWorktree { repo, checkout, force: insists } => repo == p.path@
                && checkout == w.path@ && insists == force,
            _ => true,
        }),
{
    reveal_strlit("");
}

/// A delete goes from question to question: the row, its project, the folder,
/// the confinement, the listing, the uncommitted work, the removal and the row.
pub proof fn law_delete_asks_in_this_order(
    workspace_id: Seq<char>,
    force: bool,
    facts: DeleteFacts,
    w: WorkspaceRecord,
    p: ProjectRecord,
    root: String,
)
    requires
        w.isolation == WorkspaceIsolation::Worktree,
    ensures
        facts.workspace is None ==> delete_step(true, workspace_id, force, facts)
            == DeleteStepView::ReadWorkspace,
        facts.workspace == Some(Ok::<Option<WorkspaceRecord>, JournalError>(Some(w))) ==> {
            let step = delete_step(true, workspace_id, force, facts);
            &&& facts.project is None ==> step is ReadProject
            &&& facts.project == Some(Ok::<Option<ProjectRecord>, JournalError>(Some(p))) ==> {
                &&& facts.project_is_dir is None ==> step is ProbeProjectFolder
                &&& facts.project_is_dir == Some(true) ==> {
                    &&& facts.confinement is None ==> step is Confine
                    &&& facts.confinement == Some(Confinement { root: Some(root), inside: true })
                        ==> {
                        &&& facts.identity is None ==> step is Identify
                        &&& (facts.identity == Some(
                            Ok::<WorktreeIdentity, String>(WorktreeIdentity::Match),
                        ) || facts.identity == Some(
                            Ok::<WorktreeIdentity, String>(WorktreeIdentity::Missing),
                        )) ==> {
                            &&& !force && facts.dirty is None ==> step is ProbeDirty
                            &&& force || facts.dirty == Some(CheckoutProbe::Clean) || facts.dirty
                                == Some(CheckoutProbe::Unknown) ==> {
                                &&& facts.removal is None ==> step is RemoveWorktree
                                &&& facts.removal == Some(Ok::<(), RemovalError>(())) ==> {
                                    &&& facts.row_deleted is None ==> step == (
                                    DeleteStepView::DeleteRow { detached: None })
                                    &&& facts.row_deleted == Some(Ok::<(), JournalError>(()))
                                        ==> step == DeleteStepView::Done(Ok(()))
                                }
                            }
                        }
                    }
                }
            }
        },
{
}

/// A delete ends at the first thing that stands in its way, and says which: with
/// its code, its sentence, and the path in the plain spelling.
pub proof fn law_delete_refusals_say_why(
    workspace_id: Seq<char>,
    force: bool,
    facts: DeleteFacts,
    w: WorkspaceRecord,
    p: ProjectRecord,
    c: Confinement,
    root: String,
    text: String,
    observed: Option<String>,
    journal: JournalError,
)
    ensures
        delete_step(false, workspace_id, force, facts) == DeleteStepView::Done(
            Err(
                ErrorView {
                    code: ErrorCode::Journal,
                    message: "journal is not open"@,
                    details: None,
                },
            ),
        ),
        facts.workspace == Some(Err::<Option<WorkspaceRecord>, JournalError>(journal))
            ==> delete_step(true, workspace_id, force, facts) == DeleteStepView::Done(
            Err(
                ErrorView {
                    code: ErrorCode::Journal,
                    message: journal.message@,
                    details: None,
                },
            ),
        ),
        facts.workspace == Some(Ok::<Option<WorkspaceRecord>, JournalError>(None)) ==> delete_step(
            true,
            workspace_id,
            force,
            facts,
        ) == DeleteStepView::Done(
            Err(
                ErrorView {
                    code: ErrorCode::WorkspaceUnavailable,
                    message: "Workspace '"@ + workspace_id + "' is unavailable: "@
                        + "it does not exist"@ + "."@,
                    details: None,
                },
            ),
        ),
        facts.workspace == Some(Ok::<Option<WorkspaceRecord>, JournalError>(Some(w))) && w.isolation
            == WorkspaceIsolation::Worktree ==> {
            let step = delete_step(true, workspace_id, force, facts);
            &&& facts.project == Some(Err::<Option<ProjectRecord>, JournalError>(journal)) ==> step
                == DeleteStepView::Done(
                Err(
                    ErrorView {
                        code: ErrorCode::Journal,
                        message: journal.message@,
                        details: None,
                    },
                ),
            )
            &&& facts.project == Some(Ok::<Option<ProjectRecord>, JournalError>(None))
                && facts.row_deleted is None ==> step == (DeleteStepView::DeleteRow {
                detached: Some(Detachment::ProjectRowGone),
            })
            &&& facts.project == Some(Ok::<Option<ProjectRecord>, JournalError>(Some(p)))
                && facts.project_is_dir == Some(false) && facts.row_deleted is None ==> step == (
            DeleteStepView::DeleteRow { detached: Some(Detachment::ProjectFolderGone) })
            &&& facts.project == Some(Ok::<Option<ProjectRecord>, JournalError>(Some(p)))
                && facts.project_is_dir == Some(true) && facts.confinement == Some(c) ==> {
                &&& c.root is None ==> step == DeleteStepView::Done(
                    Err(
                        ErrorView {
                            code: ErrorCode::InvalidRequest,
                            message: "Project has no parent directory for a sibling worktree."@,
                            details: None,
                        },
                    ),
                )
                &&& c.root == Some(root) && !c.inside ==> step == DeleteStepView::Done(
                    Err(
                        ErrorView {
                            code: ErrorCode::InvalidRequest,
                            message: "Checkout '"@ + plain(w.path@)
                                + "' is not inside worktree root '"@ + plain(root@) + "'."@,
                            details: Some(
                                DetailsView::WorktreeNotConfined {
                                    path: plain(w.path@),
                                    root: plain(root@),
                                },
                            ),
                        },
                    ),
                )
                &&& c.root == Some(root) && c.inside ==> {
                    &&& facts.identity == Some(Err::<WorktreeIdentity, String>(text)) ==> step
                        == DeleteStepView::Done(
                        Err(
                            ErrorView {
                                code: ErrorCode::WorkspaceUnavailable,
                                message: "Could not list worktrees for '"@ + workspace_id + "': "@
                                    + text@,
                                details: None,
                            },
                        ),
                    )
                    &&& facts.identity == Some(
                        Ok::<WorktreeIdentity, String>(WorktreeIdentity::Locked),
                    ) ==> step == DeleteStepView::Done(
                        Err(
                            ErrorView {
                                code: ErrorCode::InvalidRequest,
                                message: "Worktree '"@ + plain(w.path@)
                                    + "' is locked. Unlock it before removing; --force does not override a lock."@,
                                details: Some(
                                    DetailsView::WorktreeLocked { path: plain(w.path@) },
                                ),
                            },
                        ),
                    )
                    &&& facts.identity == Some(
                        Ok::<WorktreeIdentity, String>(
                            WorktreeIdentity::BranchMismatch { observed },
                        ),
                    ) ==> (step matches DeleteStepView::Done(Err(e)) && e.code
                        == ErrorCode::InvalidRequest && e.details == Some(
                        DetailsView::WorktreeMismatch {
                            path: plain(w.path@),
                            expected_branch: match w.branch {
                                Some(named) => named@,
                                None => ""@,
                            },
                            observed_branch: match observed {
                                Some(b) => Some(b@),
                                None => None,
                            },
                        },
                    ))
                }
            }
        },
{
}

/// Uncommitted work stops a delete that does not insist, whether the probe found
/// it or the removal did; and what git or the journal says is handed on.
pub proof fn law_delete_failures_are_handed_on(
    workspace_id: Seq<char>,
    force: bool,
    facts: DeleteFacts,
    w: WorkspaceRecord,
    p: ProjectRecord,
    root: String,
    text: String,
    journal: JournalError,
)
    requires
        w.isolation == WorkspaceIsolation::Worktree,
        facts.workspace == Some(Ok::<Option<WorkspaceRecord>, JournalError>(Some(w))),
        facts.project == Some(Ok::<Option<ProjectRecord>, JournalError>(Some(p))),
        facts.project_is_dir == Some(true),
        facts.confinement == Some(Confinement { root: Some(root), inside: true }),
        facts.identity == Some(Ok::<WorktreeIdentity, String>(WorktreeIdentity::Match))
            || facts.identity == Some(Ok::<WorktreeIdentity, String>(WorktreeIdentity::Missing)),
    ensures
        ({
            let step = delete_step(true, workspace_id, force, facts);
            let dirty = DeleteStepView::Done(
                Err(
                    ErrorView {
                        code: ErrorCode::InvalidRequest,
                        message: text@,
                        details: Some(
                            DetailsView::WorktreeDirty {
                                path: plain(w.path@),
                                force_required: true,
                            },
                        ),
                    },
                ),
            );
            &&& !force && facts.dirty == Some(CheckoutProbe::Dirty { message: text }) ==> step
                == dirty
            &&& force || facts.dirty == Some(CheckoutProbe::Clean) ==> {
                &&& facts.removal == Some(
                    Err::<(), RemovalError>(RemovalError::Dirty { message: text }),
                ) ==> step == dirty
                &&& facts.removal == Some(
                    Err::<(), RemovalError>(RemovalError::Failed { error: text }),
                ) ==> step == DeleteStepView::Done(
                    Err(
                        ErrorView {
                            code: ErrorCode::WorkspaceUnavailable,
                            message: "Could not remove worktree '"@ + workspace_id + "': "@ + text@,
                            details: None,
                        },
                    ),
                )
                &&& facts.removal == Some(Ok::<(), RemovalError>(())) && facts.row_deleted == Some(
                    Err::<(), JournalError>(journal),
                ) ==> step == DeleteStepView::Done(
                    Err(
                        ErrorView {
                            code: ErrorCode::Journal,
                            message: journal.message@,
                            details: None,
                        },
                    ),
                )
            }
        }),
{
}

/// A local workspace is refused as one, and a checkout of another branch is
/// refused with both names.
pub proof fn law_other_checkouts_are_refused_in_words(
    workspace_id: Seq<char>,
    force: bool,
    facts: DeleteFacts,
    w: WorkspaceRecord,
    p: ProjectRecord,
    c: Confinement,
    observed: Option<String>,
)
    requires
        facts.workspace == Some(Ok::<Option<WorkspaceRecord>, JournalError>(Some(w))),
    ensures
        ({
            let step = delete_step(true, workspace_id, force, facts);
            let expected = match w.branch {
                Some(named) => named@,
                None => ""@,
            };
            let seen = match observed {
                Some(b) => b@,
                None => "(detached)"@,
            };
            &&& w.isolation == WorkspaceIsolation::Local ==> step == DeleteStepView::Done(
                Err(
                    ErrorView {
                        code: ErrorCode::InvalidRequest,
                        message:
                            "The local workspace is the project folder and is not removed as a worktree."@,
                        details: None,
                    },
                ),
            )
            &&& w.isolation == WorkspaceIsolation::Worktree && facts.project == Some(
                Ok::<Option<ProjectRecord>, JournalError>(Some(p)),
            ) && facts.project_is_dir == Some(true) && facts.confinement == Some(c) && c.root is Some
                && c.inside && facts.identity == Some(
                Ok::<WorktreeIdentity, String>(WorktreeIdentity::BranchMismatch { observed }),
            ) ==> (step matches DeleteStepView::Done(Err(e)) && e.message == "Worktree at '"@ + plain(
                w.path@,
            ) + "' is branch '"@ + seen + "', not '"@ + expected
                + "'. Refusing to remove another workspace's checkout."@)
        }),
{
}

} // verus!
