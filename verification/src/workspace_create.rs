//! Creating a workspace, decision by decision.
//!
//! A local workspace is its project's folder and takes no branch. A worktree
//! workspace is a new checkout beside the project, made by `git worktree add`;
//! what a failed add leaves behind is removed only when it is certain that
//! nothing live stands there. The journal, git and the disk are asked from
//! outside: each call says what is known so far and gets back the one thing to
//! do next.
use crate::paths::{parent, parent_of};
use crate::platform::Platform;
use crate::registry::{
    journal_closed, journal_error, journal_unavailable, with_entry, workspace_wire, JournalError,
    SessionRegistry, Workspace, WorkspaceWire,
};
use crate::text::{
    belongs, chars_of, is_white, lemma_blank, lemma_trimmed_stays, same_text, text_of, trim, trimmed,
    CharClass,
};
use crate::wire::{
    detailed_error, fixed_error, plain_error, text3, text5, text7, text_view, unit_view,
    DetailsView, ErrorCode, ErrorDetails, ErrorView, WireError,
};
use crate::workspace::{
    local_workspace, local_workspace_record, plain, plain_path, worktree_workspace,
    worktree_workspace_record, ProjectRecord, ProjectView, Stamp, WorkspaceIsolation,
    WorkspaceRecord, WorkspaceView,
};
use crate::workspace_delete::WorktreeIdentity;
use vstd::prelude::*;

verus! {

/// What has to be known of a project before anything is made in it.
#[derive(Debug)]
pub enum ProjectAsk {
    Read,
    ProbeFolder { path: String },
    Refuse(WireError),
}

/// `ProjectAsk` over the characters of its texts.
pub ghost enum ProjectAskView {
    Read,
    ProbeFolder { path: Seq<char> },
    Refuse(ErrorView),
}

impl View for ProjectAsk {
    type V = ProjectAskView;

    open spec fn view(&self) -> ProjectAskView {
        match self {
            ProjectAsk::Read => ProjectAskView::Read,
            ProjectAsk::ProbeFolder { path } => ProjectAskView::ProbeFolder { path: path@ },
            ProjectAsk::Refuse(e) => ProjectAskView::Refuse(e@),
        }
    }
}

pub open spec fn no_project(project_id: Seq<char>) -> ErrorView {
    plain_error(
        ErrorCode::WorkspaceUnavailable,
        "Project '"@ + project_id + "' does not exist."@,
    )
}

pub open spec fn no_project_folder(project_id: Seq<char>) -> ErrorView {
    plain_error(
        ErrorCode::WorkspaceUnavailable,
        "Project '"@ + project_id + "' is no longer an existing folder."@,
    )
}

/// The project under an id, with its folder in place; or what to ask, or why
/// not.
pub open spec fn required_project(
    journal_open: bool,
    project_id: Seq<char>,
    row: Option<Result<Option<ProjectRecord>, JournalError>>,
    is_dir: Option<bool>,
) -> Result<ProjectView, ProjectAskView> {
    if !journal_open {
        Err(ProjectAskView::Refuse(journal_closed()))
    } else {
        match row {
            None => Err(ProjectAskView::Read),
            Some(Err(e)) => Err(ProjectAskView::Refuse(journal_error(e.message@))),
            Some(Ok(None)) => Err(ProjectAskView::Refuse(no_project(project_id))),
            Some(Ok(Some(p))) => match is_dir {
                None => Err(ProjectAskView::ProbeFolder { path: p.path@ }),
                Some(false) => Err(ProjectAskView::Refuse(no_project_folder(project_id))),
                Some(true) => Ok(p@),
            },
        }
    }
}

/// `require_project`'s answer over views.
pub open spec fn required_view(r: Result<&ProjectRecord, ProjectAsk>) -> Result<
    ProjectView,
    ProjectAskView,
> {
    match r {
        Ok(p) => Ok(p@),
        Err(ask) => Err(ask@),
    }
}

pub fn require_project<'a>(
    journal_open: bool,
    project_id: &str,
    row: &'a Option<Result<Option<ProjectRecord>, JournalError>>,
    is_dir: Option<bool>,
) -> (r: Result<&'a ProjectRecord, ProjectAsk>)
    ensures
        required_view(r) == required_project(journal_open, project_id@, *row, is_dir),
{
    if !journal_open {
        return Err(ProjectAsk::Refuse(journal_unavailable()));
    }
    match row {
        None => Err(ProjectAsk::Read),
        Some(Err(e)) => Err(ProjectAsk::Refuse(e.to_wire())),
        Some(Ok(None)) => Err(
            ProjectAsk::Refuse(
                WireError::new(
                    ErrorCode::WorkspaceUnavailable,
                    text3("Project '", project_id, "' does not exist."),
                ),
            ),
        ),
        Some(Ok(Some(p))) => match is_dir {
            None => Err(ProjectAsk::ProbeFolder { path: p.path.clone() }),
            Some(false) => Err(
                ProjectAsk::Refuse(
                    WireError::new(
                        ErrorCode::WorkspaceUnavailable,
                        text3("Project '", project_id, "' is no longer an existing folder."),
                    ),
                ),
            ),
            Some(true) => Ok(p),
        },
    }
}

/// A folder in these states of git can host a worktree.
pub open spec fn hosts_worktree(state: Seq<char>) -> bool {
    state == "repository"@ || state == "inside_repository"@
}

pub open spec fn git_state_refusal(
    recorded: Seq<char>,
    observed: Seq<char>,
    project_id: Seq<char>,
) -> ErrorView {
    detailed_error(
        ErrorCode::WorkspaceUnavailable,
        "Project '"@ + project_id + "' cannot host a worktree (git state is '"@ + observed
            + "'; recorded '"@ + recorded + "')."@,
        DetailsView::WorktreeGitState { recorded, observed },
    )
}

fn git_state_allows_worktree(state: &str) -> (r: bool)
    ensures
        r == hosts_worktree(state@),
{
    same_text(state, "repository") || same_text(state, "inside_repository")
}

/// Refuses a worktree where git, asked now, sees no repository; what was
/// recorded of the folder earlier decides nothing.
pub fn refuse_worktree_unless_live_git_allows(recorded: &str, observed: &str, project_id: &str) -> (r:
    Result<(), WireError>)
    ensures
        unit_view(r) == if hosts_worktree(observed@) {
            Ok(())
        } else {
            Err(git_state_refusal(recorded@, observed@, project_id@))
        },
{
    if git_state_allows_worktree(observed) {
        return Ok(());
    }
    let message = text7(
        "Project '",
        project_id,
        "' cannot host a worktree (git state is '",
        observed,
        "'; recorded '",
        recorded,
        "').",
    );
    Err(
        WireError::new(ErrorCode::WorkspaceUnavailable, message).with_details(
            ErrorDetails::WorktreeGitState {
                recorded: recorded.to_owned(),
                observed: observed.to_owned(),
            },
        ),
    )
}

/// Why `git worktree add` failed.
#[derive(Debug)]
pub struct AddError {
    /// Git was killed when its time was up.
    pub timed_out: bool,
    pub text: String,
}

/// What became of a checkout that a failed add may have left.
#[derive(Debug)]
pub enum LoserCleanup {
    Removed,
    /// Something live may stand there: it was left alone.
    KeptLive,
    RemoveFailed(String),
}

/// `LoserCleanup` over the characters of its text.
pub ghost enum CleanupView {
    Removed,
    KeptLive,
    RemoveFailed(Seq<char>),
}

impl View for LoserCleanup {
    type V = CleanupView;

    open spec fn view(&self) -> CleanupView {
        match self {
            LoserCleanup::Removed => CleanupView::Removed,
            LoserCleanup::KeptLive => CleanupView::KeptLive,
            LoserCleanup::RemoveFailed(e) => CleanupView::RemoveFailed(e@),
        }
    }
}

/// What becomes of the checkout of an add that lost: it is removed only where
/// git lists nothing at its path. A listing that failed is doubt, not absence.
/// Nothing yet, where the removal has still to be tried.
pub open spec fn loser_cleanup(
    listing: Result<WorktreeIdentity, String>,
    removed: Option<Result<(), String>>,
) -> Option<CleanupView> {
    match listing {
        Ok(WorktreeIdentity::Missing) => match removed {
            None => None,
            Some(Ok(())) => Some(CleanupView::Removed),
            Some(Err(e)) => Some(CleanupView::RemoveFailed(e@)),
        },
        _ => Some(CleanupView::KeptLive),
    }
}

pub fn loser_checkout_cleanup(
    listing: &Result<WorktreeIdentity, String>,
    removed: &Option<Result<(), String>>,
) -> (r: Option<LoserCleanup>)
    ensures
        r is Some == loser_cleanup(*listing, *removed) is Some,
        r matches Some(c) ==> loser_cleanup(*listing, *removed) == Some(c@),
{
    match listing {
        Ok(WorktreeIdentity::Missing) => match removed {
            None => None,
            Some(Ok(())) => Some(LoserCleanup::Removed),
            Some(Err(e)) => Some(LoserCleanup::RemoveFailed(e.clone())),
        },
        _ => Some(LoserCleanup::KeptLive),
    }
}

/// What repairing a killed add does next, or what it says at the end.
#[derive(Debug)]
pub enum RepairStep {
    /// Remove exactly the recorded checkout.
    Remove,
    /// Prune the worktree metadata that git may have written.
    Prune,
    Said(String),
}

/// `RepairStep` over the characters of its text.
pub ghost enum RepairView {
    Remove,
    Prune,
    Said(Seq<char>),
}

impl View for RepairStep {
    type V = RepairView;

    open spec fn view(&self) -> RepairView {
        match self {
            RepairStep::Remove => RepairView::Remove,
            RepairStep::Prune => RepairView::Prune,
            RepairStep::Said(t) => RepairView::Said(t@),
        }
    }
}

/// "Could not add git worktree …".
pub open spec fn add_failed(project_id: Seq<char>, error: Seq<char>) -> Seq<char> {
    "Could not add git worktree for '"@ + project_id + "': "@ + error
}

fn add_failure(project_id: &str, error: &str) -> (r: String)
    ensures
        r@ == add_failed(project_id@, error@),
{
    let mut r = text3("Could not add git worktree for '", project_id, "': ");
    r.append(error);
    r
}

/// A sentence with a note on the checkout that is still there.
pub open spec fn with_leftover(base: Seq<char>, checkout: Seq<char>, error: Seq<char>) -> Seq<char> {
    base + "; leftover checkout at '"@ + plain(checkout) + "' ("@ + error + ")"@
}

fn note_leftover(base: &str, checkout: &str, error: &str) -> (r: String)
    ensures
        r@ == with_leftover(base@, checkout@, error@),
{
    let path = plain_path(checkout);
    let mut r = text5(base, "; leftover checkout at '", path.as_str(), "' (", error);
    r.append(")");
    r
}

/// A killed add is repaired, not judged: the recorded checkout is removed, then
/// the metadata is pruned.
pub open spec fn repair_step(
    project_id: Seq<char>,
    checkout: Seq<char>,
    removed: Option<Result<(), String>>,
    pruned: Option<Result<(), String>>,
) -> RepairView {
    let base = add_failed(project_id, "git timed out"@);
    match removed {
        None => RepairView::Remove,
        Some(Err(e)) => RepairView::Said(with_leftover(base, checkout, e@)),
        Some(Ok(())) => match pruned {
            None => RepairView::Prune,
            Some(Ok(())) => RepairView::Said(
                base + "; removed the partial checkout at '"@ + plain(checkout)
                    + "' and pruned"@,
            ),
            Some(Err(e)) => RepairView::Said(
                base + "; removed the partial checkout at '"@ + plain(checkout)
                    + "' but pruning failed ("@ + e@ + ")"@,
            ),
        },
    }
}

pub fn repair_killed_worktree_add(
    project_id: &str,
    checkout: &str,
    removed: &Option<Result<(), String>>,
    pruned: &Option<Result<(), String>>,
) -> (r: RepairStep)
    ensures
        r@ == repair_step(project_id@, checkout@, *removed, *pruned),
{
    let base = add_failure(project_id, "git timed out");
    match removed {
        None => RepairStep::Remove,
        Some(Err(e)) => RepairStep::Said(note_leftover(base.as_str(), checkout, e.as_str())),
        Some(Ok(())) => {
            let path = plain_path(checkout);
            let mut said = text3(base.as_str(), "; removed the partial checkout at '", path.as_str());
            match pruned {
                None => RepairStep::Prune,
                Some(Ok(())) => {
                    said.append("' and pruned");
                    RepairStep::Said(said)
                },
                Some(Err(e)) => {
                    said.append("' but pruning failed (");
                    said.append(e.as_str());
                    said.append(")");
                    RepairStep::Said(said)
                },
            }
        },
    }
}

/// What is known so far about a create; nothing is known at first.
#[derive(Debug)]
pub struct CreateFacts {
    /// The project's row.
    pub project: Option<Result<Option<ProjectRecord>, JournalError>>,
    /// Whether the project's folder is there.
    pub project_is_dir: Option<bool>,
    /// What git says of the project's folder now.
    pub live_git: Option<String>,
    /// A branch name for a caller that gave none.
    pub generated_branch: Option<String>,
    /// The checkout for the branch, beside the project; a project without a
    /// parent has none.
    pub checkout: Option<Option<String>>,
    /// The outcome of making the folder that the checkout goes into.
    pub root_made: Option<Result<(), String>>,
    /// The outcome of `git worktree add`.
    pub added: Option<Result<(), AddError>>,
    /// A killed add of this call is being repaired.
    pub repairing: bool,
    /// What git lists at the checkout's path after a failed add.
    pub listing: Option<Result<WorktreeIdentity, String>>,
    /// The outcome of removing what the add left.
    pub leftover_removed: Option<Result<(), String>>,
    /// The outcome of pruning git's metadata.
    pub pruned: Option<Result<(), String>>,
    /// The canonical spelling of the new checkout, or its own where there is
    /// none.
    pub settled_checkout: Option<String>,
    /// When and as what the row is made.
    pub stamp: Stamp,
    /// The journal's answer to the row.
    pub stored: Option<Result<WorkspaceRecord, JournalError>>,
    /// The outcome of taking the checkout back after the journal refused the row.
    pub undone: Option<Result<(), String>>,
}

/// What a create asks for next.
#[derive(Debug)]
pub enum CreateStep {
    ReadProject,
    ProbeProjectFolder { path: String },
    DetectGit { path: String },
    GenerateBranch,
    PlaceCheckout { project_path: String, branch: String },
    MakeRoot { root: String },
    AddWorktree { repo: String, checkout: String, branch: String },
    ListWorktrees { repo: String, checkout: String, branch: String },
    /// Remove what a failed add left; `repairing` says that the add was killed
    /// and was this call's own.
    RemoveLeftover { repo: String, checkout: String, repairing: bool },
    Prune { repo: String },
    Settle { checkout: String },
    StoreRow(WorkspaceRecord),
    /// Take the checkout back: its row was refused.
    UndoAdd { repo: String, checkout: String },
    /// Nothing: this is the answer.
    Done(Result<Workspace, WireError>),
}

/// `CreateStep` over the characters of its texts.
pub ghost enum CreateStepView {
    ReadProject,
    ProbeProjectFolder { path: Seq<char> },
    DetectGit { path: Seq<char> },
    GenerateBranch,
    PlaceCheckout { project_path: Seq<char>, branch: Seq<char> },
    MakeRoot { root: Seq<char> },
    AddWorktree { repo: Seq<char>, checkout: Seq<char>, branch: Seq<char> },
    ListWorktrees { repo: Seq<char>, checkout: Seq<char>, branch: Seq<char> },
    RemoveLeftover { repo: Seq<char>, checkout: Seq<char>, repairing: bool },
    Prune { repo: Seq<char> },
    Settle { checkout: Seq<char> },
    StoreRow(WorkspaceView),
    UndoAdd { repo: Seq<char>, checkout: Seq<char> },
    Done(Result<WorkspaceWire, ErrorView>),
}

/// The outcome of creating a workspace.
pub open spec fn workspace_outcome(r: Result<Workspace, WireError>) -> Result<
    WorkspaceWire,
    ErrorView,
> {
    match r {
        Ok(w) => Ok(w@),
        Err(e) => Err(e@),
    }
}

impl View for CreateStep {
    type V = CreateStepView;

    open spec fn view(&self) -> CreateStepView {
        match self {
            CreateStep::ReadProject => CreateStepView::ReadProject,
            CreateStep::ProbeProjectFolder { path } => CreateStepView::ProbeProjectFolder {
                path: path@,
            },
            CreateStep::DetectGit { path } => CreateStepView::DetectGit { path: path@ },
            CreateStep::GenerateBranch => CreateStepView::GenerateBranch,
            CreateStep::PlaceCheckout { project_path, branch } => CreateStepView::PlaceCheckout {
                project_path: project_path@,
                branch: branch@,
            },
            CreateStep::MakeRoot { root } => CreateStepView::MakeRoot { root: root@ },
            CreateStep::AddWorktree { repo, checkout, branch } => CreateStepView::AddWorktree {
                repo: repo@,
                checkout: checkout@,
                branch: branch@,
            },
            CreateStep::ListWorktrees { repo, checkout, branch } => CreateStepView::ListWorktrees {
                repo: repo@,
                checkout: checkout@,
                branch: branch@,
            },
            CreateStep::RemoveLeftover { repo, checkout, repairing } =>
                CreateStepView::RemoveLeftover {
                    repo: repo@,
                    checkout: checkout@,
                    repairing: *repairing,
                },
            CreateStep::Prune { repo } => CreateStepView::Prune { repo: repo@ },
            CreateStep::Settle { checkout } => CreateStepView::Settle { checkout: checkout@ },
            CreateStep::StoreRow(w) => CreateStepView::StoreRow(w@),
            CreateStep::UndoAdd { repo, checkout } => CreateStepView::UndoAdd {
                repo: repo@,
                checkout: checkout@,
            },
            CreateStep::Done(r) => CreateStepView::Done(workspace_outcome(*r)),
        }
    }
}

pub open spec fn project_ask_step(ask: ProjectAskView) -> CreateStepView {
    match ask {
        ProjectAskView::Read => CreateStepView::ReadProject,
        ProjectAskView::ProbeFolder { path } => CreateStepView::ProbeProjectFolder { path },
        ProjectAskView::Refuse(e) => CreateStepView::Done(Err(e)),
    }
}

/// A row under the title that the caller chose, if it is one.
pub open spec fn titled(w: WorkspaceView, title: Option<Seq<char>>) -> WorkspaceView {
    match title {
        Some(t) if trim(t, CharClass::White).len() > 0 => WorkspaceView {
            title: trim(t, CharClass::White),
            ..w
        },
        _ => w,
    }
}

/// The caller's branch, unless it is blank; then a generated one.
pub open spec fn chosen_branch(branch: Option<Seq<char>>, generated: Option<Seq<char>>) -> Option<
    Seq<char>,
> {
    match branch {
        Some(b) if trim(b, CharClass::White).len() > 0 => Some(b),
        _ => generated,
    }
}

pub open spec fn no_sibling(project_id: Seq<char>) -> ErrorView {
    plain_error(
        ErrorCode::InvalidRequest,
        "Project '"@ + project_id + "' has no parent directory for a sibling worktree."@,
    )
}

/// Creating the workspace that is its project's folder.
pub open spec fn local_step(
    journal_open: bool,
    project_id: Seq<char>,
    title: Option<Seq<char>>,
    facts: CreateFacts,
) -> CreateStepView {
    match required_project(journal_open, project_id, facts.project, facts.project_is_dir) {
        Err(ask) => project_ask_step(ask),
        Ok(p) => match facts.stored {
            None => CreateStepView::StoreRow(titled(local_workspace(p, facts.stamp), title)),
            Some(Err(e)) => CreateStepView::Done(Err(journal_error(e.message@))),
            Some(Ok(w)) => CreateStepView::Done(Ok(workspace_wire(w@))),
        },
    }
}

/// The checkout is there: its row is stored, or the checkout is taken back.
pub open spec fn store_step(
    p: ProjectView,
    branch: Seq<char>,
    checkout: Seq<char>,
    title: Option<Seq<char>>,
    facts: CreateFacts,
) -> CreateStepView {
    match facts.settled_checkout {
        None => CreateStepView::Settle { checkout },
        Some(settled) => match facts.stored {
            None => CreateStepView::StoreRow(
                titled(worktree_workspace(p, settled@, branch, facts.stamp), title),
            ),
            Some(Ok(w)) => CreateStepView::Done(Ok(workspace_wire(w@))),
            Some(Err(e)) => match facts.undone {
                None => CreateStepView::UndoAdd { repo: p.path, checkout: settled@ },
                Some(Ok(())) => CreateStepView::Done(Err(journal_error(e.message@))),
                Some(Err(why)) => CreateStepView::Done(
                    Err(
                        plain_error(
                            ErrorCode::Journal,
                            with_leftover(e.message@, settled@, why@),
                        ),
                    ),
                ),
            },
        },
    }
}

/// The add failed: a killed add of this call is repaired, any other is judged
/// by what git lists.
pub open spec fn failed_add_step(
    project_id: Seq<char>,
    repo: Seq<char>,
    branch: Seq<char>,
    checkout: Seq<char>,
    own: bool,
    error: AddError,
    facts: CreateFacts,
) -> CreateStepView {
    let said = add_failed(project_id, error.text@);
    if error.timed_out && own {
        match repair_step(project_id, checkout, facts.leftover_removed, facts.pruned) {
            RepairView::Remove => CreateStepView::RemoveLeftover { repo, checkout, repairing: true },
            RepairView::Prune => CreateStepView::Prune { repo },
            RepairView::Said(t) => CreateStepView::Done(
                Err(plain_error(ErrorCode::WorkspaceUnavailable, t)),
            ),
        }
    } else {
        match facts.listing {
            None => CreateStepView::ListWorktrees { repo, checkout, branch },
            Some(listing) => match loser_cleanup(listing, facts.leftover_removed) {
                None => CreateStepView::RemoveLeftover { repo, checkout, repairing: false },
                Some(CleanupView::Removed) => CreateStepView::Done(
                    Err(plain_error(ErrorCode::WorkspaceUnavailable, said)),
                ),
                Some(CleanupView::KeptLive) => CreateStepView::Done(
                    Err(
                        plain_error(
                            ErrorCode::WorkspaceUnavailable,
                            said + "; the existing checkout at '"@ + plain(checkout)
                                + "' was left alone"@,
                        ),
                    ),
                ),
                Some(CleanupView::RemoveFailed(e)) => CreateStepView::Done(
                    Err(
                        plain_error(
                            ErrorCode::WorkspaceUnavailable,
                            with_leftover(said, checkout, e),
                        ),
                    ),
                ),
            },
        }
    }
}

/// The checkout's place is known: its folder is made, then git adds it. `own`
/// says whether an add of this checkout is on record as this call's.
pub open spec fn add_step(
    platform: Platform,
    project_id: Seq<char>,
    p: ProjectView,
    branch: Seq<char>,
    checkout: Seq<char>,
    title: Option<Seq<char>>,
    own: bool,
    facts: CreateFacts,
) -> CreateStepView {
    match parent_of(platform, checkout) {
        None => CreateStepView::Done(Err(no_sibling(project_id))),
        Some(root) => match facts.root_made {
            None => CreateStepView::MakeRoot { root },
            Some(Err(error)) => CreateStepView::Done(
                Err(
                    plain_error(
                        ErrorCode::Io,
                        "Worktree directory '"@ + plain(root) + "' is not writable: "@ + error@,
                    ),
                ),
            ),
            Some(Ok(())) => match facts.added {
                None => CreateStepView::AddWorktree { repo: p.path, checkout, branch },
                Some(Err(error)) => failed_add_step(
                    project_id,
                    p.path,
                    branch,
                    checkout,
                    own,
                    error,
                    facts,
                ),
                Some(Ok(())) => store_step(p, branch, checkout, title, facts),
            },
        },
    }
}

/// Creating the workspace that is a worktree of its project. `in_flight` is the
/// checkout that is on record as being added.
pub open spec fn worktree_step(
    platform: Platform,
    journal_open: bool,
    in_flight: Option<Seq<char>>,
    project_id: Seq<char>,
    branch: Option<Seq<char>>,
    title: Option<Seq<char>>,
    facts: CreateFacts,
) -> CreateStepView {
    match required_project(journal_open, project_id, facts.project, facts.project_is_dir) {
        Err(ask) => project_ask_step(ask),
        Ok(p) => match facts.live_git {
            None => CreateStepView::DetectGit { path: p.path },
            Some(observed) => if !hosts_worktree(observed@) {
                CreateStepView::Done(Err(git_state_refusal(p.git_state, observed@, project_id)))
            } else {
                match chosen_branch(branch, text_view(facts.generated_branch)) {
                    None => CreateStepView::GenerateBranch,
                    Some(b) => match facts.checkout {
                        None => CreateStepView::PlaceCheckout { project_path: p.path, branch: b },
                        Some(None) => CreateStepView::Done(Err(no_sibling(project_id))),
                        Some(Some(checkout)) => add_step(
                            platform,
                            project_id,
                            p,
                            b,
                            checkout@,
                            title,
                            facts.repairing || in_flight == Some(checkout@),
                            facts,
                        ),
                    },
                }
            },
        },
    }
}

/// What a create does next, from what is known.
pub open spec fn create_step(
    platform: Platform,
    journal_open: bool,
    in_flight: Option<Seq<char>>,
    project_id: Seq<char>,
    isolation: WorkspaceIsolation,
    branch: Option<Seq<char>>,
    title: Option<Seq<char>>,
    facts: CreateFacts,
) -> CreateStepView {
    match isolation {
        WorkspaceIsolation::Local => if branch is Some {
            CreateStepView::Done(
                Err(
                    plain_error(
                        ErrorCode::InvalidRequest,
                        "Local workspaces do not take a branch."@,
                    ),
                ),
            )
        } else {
            local_step(journal_open, project_id, title, facts)
        },
        WorkspaceIsolation::Worktree => worktree_step(
            platform,
            journal_open,
            in_flight,
            project_id,
            branch,
            title,
            facts,
        ),
    }
}

fn ask_step(ask: ProjectAsk) -> (r: CreateStep)
    ensures
        r@ == project_ask_step(ask@),
{
    match ask {
        ProjectAsk::Read => CreateStep::ReadProject,
        ProjectAsk::ProbeFolder { path } => CreateStep::ProbeProjectFolder { path },
        ProjectAsk::Refuse(e) => CreateStep::Done(Err(e)),
    }
}

/// The characters of a text that may be missing.
pub open spec fn str_view(t: Option<&str>) -> Option<Seq<char>> {
    match t {
        Some(t) => Some(t@),
        None => None,
    }
}

fn with_title(w: WorkspaceRecord, title: Option<&str>) -> (r: WorkspaceRecord)
    ensures
        r@ == titled(w@, str_view(title)),
{
    if let Some(t) = title {
        let chars = chars_of(t);
        let name = trimmed(chars.as_slice(), CharClass::White);
        if name.len() > 0 {
            return WorkspaceRecord { title: text_of(name), ..w };
        }
    }
    w
}

fn is_blank(t: &str) -> (r: bool)
    ensures
        r == (trim(t@, CharClass::White).len() == 0),
{
    let chars = chars_of(t);
    trimmed(chars.as_slice(), CharClass::White).len() == 0
}

fn create_local_workspace(
    journal_open: bool,
    project_id: &str,
    title: Option<&str>,
    facts: &CreateFacts,
) -> (r: CreateStep)
    ensures
        r@ == local_step(journal_open, project_id@, str_view(title), *facts),
{
    match require_project(journal_open, project_id, &facts.project, facts.project_is_dir) {
        Err(ask) => ask_step(ask),
        Ok(p) => match &facts.stored {
            None => CreateStep::StoreRow(with_title(local_workspace_record(p, facts.stamp), title)),
            Some(Err(e)) => CreateStep::Done(Err(e.to_wire())),
            Some(Ok(w)) => CreateStep::Done(Ok(w.to_workspace())),
        },
    }
}

fn decide_store(
    p: &ProjectRecord,
    branch: &str,
    checkout: &str,
    title: Option<&str>,
    facts: &CreateFacts,
) -> (r: CreateStep)
    ensures
        r@ == store_step(p@, branch@, checkout@, str_view(title), *facts),
{
    match &facts.settled_checkout {
        None => CreateStep::Settle { checkout: checkout.to_owned() },
        Some(settled) => match &facts.stored {
            None => CreateStep::StoreRow(
                with_title(
                    worktree_workspace_record(p, settled.as_str(), branch, facts.stamp),
                    title,
                ),
            ),
            Some(Ok(w)) => CreateStep::Done(Ok(w.to_workspace())),
            Some(Err(e)) => match &facts.undone {
                None => CreateStep::UndoAdd { repo: p.path.clone(), checkout: settled.clone() },
                Some(Ok(())) => CreateStep::Done(Err(e.to_wire())),
                Some(Err(why)) => CreateStep::Done(
                    Err(
                        WireError::new(
                            ErrorCode::Journal,
                            note_leftover(e.message.as_str(), settled.as_str(), why.as_str()),
                        ),
                    ),
                ),
            },
        },
    }
}

fn decide_failed_add(
    project_id: &str,
    repo: &str,
    branch: &str,
    checkout: &str,
    own: bool,
    error: &AddError,
    facts: &CreateFacts,
) -> (r: CreateStep)
    ensures
        r@ == failed_add_step(project_id@, repo@, branch@, checkout@, own, *error, *facts),
{
    if error.timed_out && own {
        return match repair_killed_worktree_add(
            project_id,
            checkout,
            &facts.leftover_removed,
            &facts.pruned,
        ) {
            RepairStep::Remove => CreateStep::RemoveLeftover {
                repo: repo.to_owned(),
                checkout: checkout.to_owned(),
                repairing: true,
            },
            RepairStep::Prune => CreateStep::Prune { repo: repo.to_owned() },
            RepairStep::Said(t) => CreateStep::Done(
                Err(WireError::new(ErrorCode::WorkspaceUnavailable, t)),
            ),
        };
    }
    let said = add_failure(project_id, error.text.as_str());
    match &facts.listing {
        None => CreateStep::ListWorktrees {
            repo: repo.to_owned(),
            checkout: checkout.to_owned(),
            branch: branch.to_owned(),
        },
        Some(listing) => match loser_checkout_cleanup(listing, &facts.leftover_removed) {
            None => CreateStep::RemoveLeftover {
                repo: repo.to_owned(),
                checkout: checkout.to_owned(),
                repairing: false,
            },
            Some(LoserCleanup::Removed) => CreateStep::Done(
                Err(WireError::new(ErrorCode::WorkspaceUnavailable, said)),
            ),
            Some(LoserCleanup::KeptLive) => {
                let path = plain_path(checkout);
                let mut message = text3(
                    said.as_str(),
                    "; the existing checkout at '",
                    path.as_str(),
                );
                message.append("' was left alone");
                CreateStep::Done(Err(WireError::new(ErrorCode::WorkspaceUnavailable, message)))
            },
            Some(LoserCleanup::RemoveFailed(e)) => CreateStep::Done(
                Err(
                    WireError::new(
                        ErrorCode::WorkspaceUnavailable,
                        note_leftover(said.as_str(), checkout, e.as_str()),
                    ),
                ),
            ),
        },
    }
}

fn no_sibling_error(project_id: &str) -> (r: WireError)
    ensures
        r@ == no_sibling(project_id@),
{
    WireError::new(
        ErrorCode::InvalidRequest,
        text3("Project '", project_id, "' has no parent directory for a sibling worktree."),
    )
}

fn decide_add(
    platform: Platform,
    project_id: &str,
    p: &ProjectRecord,
    branch: &str,
    checkout: &str,
    title: Option<&str>,
    own: bool,
    facts: &CreateFacts,
) -> (r: CreateStep)
    ensures
        r@ == add_step(platform, project_id@, p@, branch@, checkout@, str_view(title), own, *facts),
{
    let chars = chars_of(checkout);
    match parent(platform, chars.as_slice()) {
        None => CreateStep::Done(Err(no_sibling_error(project_id))),
        Some(root) => {
            let root = text_of(root);
            match &facts.root_made {
                None => CreateStep::MakeRoot { root },
                Some(Err(error)) => {
                    let shown = plain_path(root.as_str());
                    let mut message = text3(
                        "Worktree directory '",
                        shown.as_str(),
                        "' is not writable: ",
                    );
                    message.append(error.as_str());
                    CreateStep::Done(Err(WireError::new(ErrorCode::Io, message)))
                },
                Some(Ok(())) => match &facts.added {
                    None => CreateStep::AddWorktree {
                        repo: p.path.clone(),
                        checkout: checkout.to_owned(),
                        branch: branch.to_owned(),
                    },
                    Some(Err(error)) => decide_failed_add(
                        project_id,
                        p.path.as_str(),
                        branch,
                        checkout,
                        own,
                        error,
                        facts,
                    ),
                    Some(Ok(())) => decide_store(p, branch, checkout, title, facts),
                },
            }
        },
    }
}

impl SessionRegistry {
    /// Puts the checkout of an add that is about to start on record.
    pub fn note_worktree_add_start(&mut self, checkout: &str)
        ensures
            text_view(final(self).worktree_add_in_flight) == Some(checkout@),
            final(self).paths == old(self).paths,
            final(self).journal_open == old(self).journal_open,
    {
        self.worktree_add_in_flight = Some(checkout.to_owned());
    }

    /// Whether the checkout on record is this one.
    pub fn is_worktree_add_start(&self, checkout: &str) -> (r: bool)
        ensures
            r == (text_view(self.worktree_add_in_flight) == Some(checkout@)),
    {
        match &self.worktree_add_in_flight {
            Some(recorded) => same_text(recorded.as_str(), checkout),
            None => false,
        }
    }

    /// Takes the checkout off the record, and says whether it was this one.
    pub fn take_worktree_add_start(&mut self, checkout: &str) -> (r: bool)
        ensures
            r == (text_view(old(self).worktree_add_in_flight) == Some(checkout@)),
            final(self).worktree_add_in_flight is None,
            final(self).paths == old(self).paths,
            final(self).journal_open == old(self).journal_open,
    {
        let own = self.is_worktree_add_start(checkout);
        self.worktree_add_in_flight = None;
        own
    }

    /// Takes whatever checkout is there off the record.
    pub fn clear_worktree_add_start(&mut self)
        ensures
            final(self).worktree_add_in_flight is None,
            final(self).paths == old(self).paths,
            final(self).journal_open == old(self).journal_open,
    {
        self.worktree_add_in_flight = None;
    }

    fn create_worktree_workspace(
        &self,
        platform: Platform,
        project_id: &str,
        branch: Option<&str>,
        title: Option<&str>,
        facts: &CreateFacts,
    ) -> (r: CreateStep)
        ensures
            r@ == worktree_step(
                platform,
                self.journal_open,
                text_view(self.worktree_add_in_flight),
                project_id@,
                str_view(branch),
                str_view(title),
                *facts,
            ),
    {
        let p = match require_project(
            self.journal_open,
            project_id,
            &facts.project,
            facts.project_is_dir,
        ) {
            Err(ask) => {
                return ask_step(ask);
            },
            Ok(p) => p,
        };
        let observed = match &facts.live_git {
            None => {
                return CreateStep::DetectGit { path: p.path.clone() };
            },
            Some(observed) => observed,
        };
        if let Err(e) = refuse_worktree_unless_live_git_allows(
            p.git_state.as_str(),
            observed.as_str(),
            project_id,
        ) {
            return CreateStep::Done(Err(e));
        }
        let mut chosen: Option<&str> = match &facts.generated_branch {
            Some(b) => Some(b.as_str()),
            None => None,
        };
        if let Some(b) = branch {
            if !is_blank(b) {
                chosen = Some(b);
            }
        }
        match chosen {
            None => CreateStep::GenerateBranch,
            Some(b) => match &facts.checkout {
                None => CreateStep::PlaceCheckout {
                    project_path: p.path.clone(),
                    branch: b.to_owned(),
                },
                Some(None) => CreateStep::Done(Err(no_sibling_error(project_id))),
                Some(Some(checkout)) => {
                    let own = facts.repairing || self.is_worktree_add_start(checkout.as_str());
                    decide_add(platform, project_id, p, b, checkout.as_str(), title, own, facts)
                },
            },
        }
    }

    /// What creating a workspace does next, from what is known. A new
    /// workspace's folder is remembered; the checkout of a worktree is on record
    /// from the moment its add is asked for until the add's outcome is known.
    pub fn workspace_create_titled(
        &mut self,
        platform: Platform,
        project_id: &str,
        isolation: WorkspaceIsolation,
        branch: Option<&str>,
        title: Option<&str>,
        facts: &CreateFacts,
    ) -> (r: CreateStep)
        ensures
            r@ == create_step(
                platform,
                old(self).journal_open,
                text_view(old(self).worktree_add_in_flight),
                project_id@,
                isolation,
                str_view(branch),
                str_view(title),
                *facts,
            ),
            final(self).paths@ == (match (r, facts.stored) {
                (CreateStep::Done(Ok(_)), Some(Ok(w))) => with_entry(
                    old(self).paths@,
                    w.id@,
                    w.path@,
                ),
                _ => old(self).paths@,
            }),
            text_view(final(self).worktree_add_in_flight) == (match (isolation, r@) {
                (WorkspaceIsolation::Local, _) => text_view(old(self).worktree_add_in_flight),
                (_, CreateStepView::AddWorktree { checkout, .. }) => Some(checkout),
                _ => if facts.added is Some {
                    None
                } else {
                    text_view(old(self).worktree_add_in_flight)
                },
            }),
            old(self).well_formed() ==> final(self).well_formed(),
            final(self).journal_open == old(self).journal_open,
    {
        let step = match isolation {
            WorkspaceIsolation::Local => {
                if branch.is_some() {
                    return CreateStep::Done(
                        Err(
                            fixed_error(
                                ErrorCode::InvalidRequest,
                                "Local workspaces do not take a branch.",
                            ),
                        ),
                    );
                }
                create_local_workspace(self.journal_open, project_id, title, facts)
            },
            WorkspaceIsolation::Worktree => {
                let step = self.create_worktree_workspace(platform, project_id, branch, title, facts);
                if let CreateStep::AddWorktree { checkout, .. } = &step {
                    self.note_worktree_add_start(checkout.as_str());
                } else if facts.added.is_some() {
                    self.clear_worktree_add_start();
                }
                step
            },
        };
        if let CreateStep::Done(Ok(_)) = &step {
            if let Some(Ok(w)) = &facts.stored {
                self.remember_workspace_path(w.id.as_str(), w.path.as_str());
            }
        }
        step
    }

    /// What creating a workspace under its own title does next.
    pub fn workspace_create(
        &mut self,
        platform: Platform,
        project_id: &str,
        isolation: WorkspaceIsolation,
        branch: Option<&str>,
        facts: &CreateFacts,
    ) -> (r: CreateStep)
        ensures
            r@ == create_step(
                platform,
                old(self).journal_open,
                text_view(old(self).worktree_add_in_flight),
                project_id@,
                isolation,
                str_view(branch),
                None,
                *facts,
            ),
            final(self).paths@ == (match (r, facts.stored) {
                (CreateStep::Done(Ok(_)), Some(Ok(w))) => with_entry(
                    old(self).paths@,
                    w.id@,
                    w.path@,
                ),
                _ => old(self).paths@,
            }),
            text_view(final(self).worktree_add_in_flight) == (match (isolation, r@) {
                (WorkspaceIsolation::Local, _) => text_view(old(self).worktree_add_in_flight),
                (_, CreateStepView::AddWorktree { checkout, .. }) => Some(checkout),
                _ => if facts.added is Some {
                    None
                } else {
                    text_view(old(self).worktree_add_in_flight)
                },
            }),
            old(self).well_formed() ==> final(self).well_formed(),
            final(self).journal_open == old(self).journal_open,
    {
        self.workspace_create_titled(platform, project_id, isolation, branch, None, facts)
    }
}

/// What an add left is removed only where it is this call's own killed add, or
/// where git lists nothing at that path: a live checkout is never removed.
pub proof fn law_live_checkouts_are_kept(
    platform: Platform,
    journal_open: bool,
    in_flight: Option<Seq<char>>,
    project_id: Seq<char>,
    isolation: WorkspaceIsolation,
    branch: Option<Seq<char>>,
    title: Option<Seq<char>>,
    facts: CreateFacts,
)
    requires
        create_step(
            platform,
            journal_open,
            in_flight,
            project_id,
            isolation,
            branch,
            title,
            facts,
        ) is RemoveLeftover,
    ensures
        facts.checkout is Some && facts.checkout->0 is Some,
        create_step(
            platform,
            journal_open,
            in_flight,
            project_id,
            isolation,
            branch,
            title,
            facts,
        )->RemoveLeftover_checkout == facts.checkout->0->0@,
        facts.added is Some && facts.added->0 is Err,
        (facts.added->0->Err_0.timed_out && (facts.repairing || in_flight == Some(
            facts.checkout->0->0@,
        ))) || (facts.listing is Some && facts.listing->0 is Ok
            && facts.listing->0->Ok_0 is Missing),
{
}

/// A checkout whose row the journal refused is taken back before anything is
/// reported.
pub proof fn law_refused_rows_are_undone_first(
    p: ProjectView,
    branch: Seq<char>,
    checkout: Seq<char>,
    title: Option<Seq<char>>,
    facts: CreateFacts,
)
    requires
        facts.settled_checkout is Some,
        facts.stored is Some && facts.stored->0 is Err,
        facts.undone is None,
    ensures
        store_step(p, branch, checkout, title, facts) == (CreateStepView::UndoAdd {
            repo: p.path,
            checkout: facts.settled_checkout->0@,
        }),
{
}

/// A create succeeds only with a row that the journal stored, and answers that
/// row.
pub proof fn law_created_workspaces_are_stored(
    platform: Platform,
    journal_open: bool,
    in_flight: Option<Seq<char>>,
    project_id: Seq<char>,
    isolation: WorkspaceIsolation,
    branch: Option<Seq<char>>,
    title: Option<Seq<char>>,
    facts: CreateFacts,
    row: WorkspaceWire,
)
    requires
        create_step(platform, journal_open, in_flight, project_id, isolation, branch, title, facts)
            == CreateStepView::Done(Ok(row)),
    ensures
        facts.stored is Some && facts.stored->0 is Ok,
        row == workspace_wire(facts.stored->0->Ok_0@),
{
}

/// The seed of a generated branch name, from the clock and the process.
pub fn worktree_branch_seed(nanos: Option<u64>, process_id: u32) -> (r: u64)
    ensures
        r == match nanos {
            Some(n) => n ^ (process_id as u64),
            None => 0u64 ^ (process_id as u64),
        },
{
    match nanos {
        Some(n) => n ^ (process_id as u64),
        None => 0 ^ (process_id as u64),
    }
}

/// Nothing is asked for that is known already, so a caller that answers every
/// question gets to an end.
pub proof fn law_no_question_is_asked_twice(
    platform: Platform,
    journal_open: bool,
    in_flight: Option<Seq<char>>,
    project_id: Seq<char>,
    isolation: WorkspaceIsolation,
    branch: Option<Seq<char>>,
    title: Option<Seq<char>>,
    facts: CreateFacts,
)
    ensures
        match create_step(platform, journal_open, in_flight, project_id, isolation, branch, title, facts) {
            CreateStepView::ReadProject => facts.project is None,
            CreateStepView::ProbeProjectFolder { .. } => facts.project_is_dir is None,
            CreateStepView::DetectGit { .. } => facts.live_git is None,
            CreateStepView::GenerateBranch => facts.generated_branch is None,
            CreateStepView::PlaceCheckout { .. } => facts.checkout is None,
            CreateStepView::MakeRoot { .. } => facts.root_made is None,
            CreateStepView::AddWorktree { .. } => facts.added is None,
            CreateStepView::ListWorktrees { .. } => facts.listing is None,
            CreateStepView::RemoveLeftover { .. } => facts.leftover_removed is None,
            CreateStepView::Prune { .. } => facts.pruned is None,
            CreateStepView::Settle { .. } => facts.settled_checkout is None,
            CreateStepView::StoreRow(_) => facts.stored is None,
            CreateStepView::UndoAdd { .. } => facts.undone is None,
            _ => true,
        },
{
}

/// The branch that a caller chose: its own, unless that is blank, else the
/// generated one.
pub open spec fn is_chosen(
    branch: Option<Seq<char>>,
    generated: Option<String>,
    wanted: Seq<char>,
) -> bool {
    match branch {
        Some(b) if exists|i: int| 0 <= i < b.len() && !is_white(#[trigger] b[i]) => wanted == b,
        _ => generated is Some && wanted == generated->0@,
    }
}

proof fn lemma_chosen(branch: Option<Seq<char>>, generated: Option<String>, wanted: Seq<char>)
    ensures
        is_chosen(branch, generated, wanted) <==> chosen_branch(branch, text_view(generated)) == Some(
            wanted,
        ),
{
    if let Some(b) = branch {
        lemma_blank(b, CharClass::White);
        assert forall|i: int| 0 <= i < b.len() implies is_white(#[trigger] b[i]) == belongs(
            CharClass::White,
            b[i],
        ) by {}
    }
}

/// Whatever the create of a worktree does, it does it for the chosen branch, in
/// the repository of the project, at the place that was found for that branch:
/// the branch of the placed checkout, of the added worktree and of the stored row
/// are one and the same.
pub proof fn law_worktrees_are_made_for_the_chosen_branch(
    platform: Platform,
    journal_open: bool,
    in_flight: Option<Seq<char>>,
    project_id: Seq<char>,
    branch: Option<Seq<char>>,
    title: Option<Seq<char>>,
    facts: CreateFacts,
    p: ProjectRecord,
    wanted: Seq<char>,
)
    requires
        facts.project == Some(Ok::<Option<ProjectRecord>, JournalError>(Some(p))),
        is_chosen(branch, facts.generated_branch, wanted),
    ensures
        ({
            let placed = facts.checkout is Some && facts.checkout->0 is Some;
            let place = facts.checkout->0->0@;
            match create_step(
                platform,
                journal_open,
                in_flight,
                project_id,
                WorkspaceIsolation::Worktree,
                branch,
                title,
                facts,
            ) {
                CreateStepView::ProbeProjectFolder { path } => path == p.path@,
                CreateStepView::DetectGit { path } => path == p.path@,
                CreateStepView::GenerateBranch => false,
                CreateStepView::PlaceCheckout { project_path, branch: b } => project_path == p.path@
                    && b == wanted,
                CreateStepView::AddWorktree { repo, checkout, branch: b } => placed && repo
                    == p.path@ && checkout == place && b == wanted,
                CreateStepView::ListWorktrees { repo, checkout, branch: b } => placed && repo
                    == p.path@ && checkout == place && b == wanted,
                CreateStepView::RemoveLeftover { repo, checkout, .. } => placed && repo == p.path@
                    && checkout == place,
                CreateStepView::Prune { repo } => repo == p.path@,
                CreateStepView::Settle { checkout } => placed && checkout == place,
                CreateStepView::StoreRow(row) => {
                    &&& facts.settled_checkout is Some && row.path == facts.settled_checkout->0@
                    &&& row.branch == Some(wanted)
                    &&& row.project_id == p.id@
                    &&& row.isolation == WorkspaceIsolation::Worktree
                    &&& row.created_at_ms == facts.stamp.now_ms
                    &&& row.updated_at_ms == facts.stamp.now_ms
                },
                CreateStepView::UndoAdd { repo, checkout } => repo == p.path@
                    && facts.settled_checkout is Some && checkout == facts.settled_checkout->0@,
                _ => true,
            }
        }),
{
    lemma_chosen(branch, facts.generated_branch, wanted);
}

/// The create of a worktree goes from step to step: git is asked about the
/// folder, a branch is found, the checkout is placed, its folder made, the
/// worktree added and settled, and the row stored.
pub proof fn law_worktrees_are_made_in_this_order(
    platform: Platform,
    in_flight: Option<Seq<char>>,
    project_id: Seq<char>,
    branch: Option<Seq<char>>,
    title: Option<Seq<char>>,
    facts: CreateFacts,
    p: ProjectRecord,
    live: String,
    place: String,
    stored: WorkspaceRecord,
)
    requires
        facts.project == Some(Ok::<Option<ProjectRecord>, JournalError>(Some(p))),
        facts.project_is_dir == Some(true),
    ensures
        ({
            let step = create_step(
                platform,
                true,
                in_flight,
                project_id,
                WorkspaceIsolation::Worktree,
                branch,
                title,
                facts,
            );
            let known = exists|wanted: Seq<char>| #[trigger]
                is_chosen(branch, facts.generated_branch, wanted);
            &&& facts.live_git is None ==> step is DetectGit
            &&& facts.live_git == Some(live) && (live@ == "repository"@ || live@
                == "inside_repository"@) ==> {
                &&& !known ==> step == CreateStepView::GenerateBranch
                &&& known && facts.checkout is None ==> step is PlaceCheckout
                &&& known && facts.checkout == Some(Some(place)) && parent_of(platform, place@) is Some
                    ==> {
                    &&& facts.root_made is None ==> step == (CreateStepView::MakeRoot {
                        root: parent_of(platform, place@)->0,
                    })
                    &&& facts.root_made == Some(Ok::<(), String>(())) ==> {
                        &&& facts.added is None ==> step is AddWorktree
                        &&& facts.added == Some(Ok::<(), AddError>(())) ==> {
                            &&& facts.settled_checkout is None ==> step is Settle
                            &&& facts.settled_checkout is Some ==> {
                                &&& facts.stored is None ==> step is StoreRow
                                &&& facts.stored == Some(
                                    Ok::<WorkspaceRecord, JournalError>(stored),
                                ) ==> (step matches CreateStepView::Done(Ok(row)) && row.id
                                    == stored.id@ && row.project_id == stored.project_id@
                                    && row.title == stored.title@ && row.isolation
                                    == stored.isolation && row.path == plain(stored.path@)
                                    && row.created_at_ms == stored.created_at_ms
                                    && row.updated_at_ms == stored.updated_at_ms)
                            }
                        }
                    }
                }
            }
        }),
{
    let known = exists|wanted: Seq<char>| #[trigger]
        is_chosen(branch, facts.generated_branch, wanted);
    let b = chosen_branch(branch, text_view(facts.generated_branch));
    if b is Some {
        lemma_chosen(branch, facts.generated_branch, b->0);
    }
    if known {
        let wanted = choose|wanted: Seq<char>| #[trigger]
            is_chosen(branch, facts.generated_branch, wanted);
        lemma_chosen(branch, facts.generated_branch, wanted);
    }
}

/// A local workspace takes no branch; its row is the project's own folder.
pub proof fn law_local_workspaces_are_the_projects_folder(
    platform: Platform,
    in_flight: Option<Seq<char>>,
    project_id: Seq<char>,
    branch: Option<Seq<char>>,
    title: Option<Seq<char>>,
    facts: CreateFacts,
    p: ProjectRecord,
    stored: WorkspaceRecord,
    journal: JournalError,
)
    requires
        facts.project == Some(Ok::<Option<ProjectRecord>, JournalError>(Some(p))),
        facts.project_is_dir == Some(true),
    ensures
        ({
            let step = create_step(
                platform,
                true,
                in_flight,
                project_id,
                WorkspaceIsolation::Local,
                branch,
                title,
                facts,
            );
            &&& branch is Some ==> step == CreateStepView::Done(
                Err(
                    ErrorView {
                        code: ErrorCode::InvalidRequest,
                        message: "Local workspaces do not take a branch."@,
                        details: None,
                    },
                ),
            )
            &&& branch is None && facts.stored is None ==> (step matches CreateStepView::StoreRow(
                row,
            ) && row.path == p.path@ && row.branch is None && row.project_id == p.id@
                && row.isolation == WorkspaceIsolation::Local && row.created_at_ms
                == facts.stamp.now_ms && row.updated_at_ms == facts.stamp.now_ms)
            &&& branch is None && facts.stored == Some(
                Ok::<WorkspaceRecord, JournalError>(stored),
            ) ==> (step matches CreateStepView::Done(Ok(row)) && row.id == stored.id@
                && row.project_id == stored.project_id@ && row.title == stored.title@
                && row.isolation == stored.isolation && row.path == plain(stored.path@))
            &&& branch is None && facts.stored == Some(
                Err::<WorkspaceRecord, JournalError>(journal),
            ) ==> step == CreateStepView::Done(
                Err(
                    ErrorView {
                        code: ErrorCode::Journal,
                        message: journal.message@,
                        details: None,
                    },
                ),
            )
        }),
{
}

/// A row has the title that the caller chose, without its outer whitespace; a
/// blank title is none, and then a local workspace has the project's name and a
/// worktree the project's name with the branch in brackets.
pub proof fn law_rows_have_the_callers_title_or_their_own(
    platform: Platform,
    in_flight: Option<Seq<char>>,
    project_id: Seq<char>,
    isolation: WorkspaceIsolation,
    branch: Option<Seq<char>>,
    title: Option<Seq<char>>,
    facts: CreateFacts,
    p: ProjectRecord,
    wanted: Seq<char>,
    row: WorkspaceView,
)
    requires
        facts.project == Some(Ok::<Option<ProjectRecord>, JournalError>(Some(p))),
        isolation == WorkspaceIsolation::Worktree ==> is_chosen(
            branch,
            facts.generated_branch,
            wanted,
        ),
        create_step(
            platform,
            true,
            in_flight,
            project_id,
            isolation,
            branch,
            title,
            facts,
        ) == CreateStepView::StoreRow(row),
    ensures
        ({
            let own = match isolation {
                WorkspaceIsolation::Local => p.name@,
                WorkspaceIsolation::Worktree => p.name@ + " ("@ + wanted + ")"@,
            };
            match title {
                None => row.title == own,
                Some(t) => {
                    &&& (forall|i: int| 0 <= i < t.len() ==> is_white(#[trigger] t[i])) ==> row.title
                        == own
                    &&& t.len() > 0 && !is_white(t[0]) && !is_white(t.last()) ==> row.title == t
                },
            }
        }),
        row.id.len() > 2 && row.id[0] == 'w' && row.id[1] == '.',
{
    reveal_strlit("w");
    reveal_strlit(".");
    lemma_chosen(branch, facts.generated_branch, wanted);
    crate::numbers::lemma_only_digits(facts.stamp.now_ms as nat, 16);
    if let Some(t) = title {
        lemma_blank(t, CharClass::White);
        assert forall|i: int| 0 <= i < t.len() implies is_white(#[trigger] t[i]) == belongs(
            CharClass::White,
            t[i],
        ) by {}
        if t.len() > 0 && !is_white(t[0]) && !is_white(t.last()) {
            lemma_trimmed_stays(t, CharClass::White);
        }
    }
}

/// Nothing is made in a project that is not there: the journal's failure is
/// handed on, and a missing row, a missing folder and a folder that git does not
/// know are refused by name.
pub proof fn law_creates_need_a_usable_project(
    platform: Platform,
    in_flight: Option<Seq<char>>,
    project_id: Seq<char>,
    isolation: WorkspaceIsolation,
    branch: Option<Seq<char>>,
    title: Option<Seq<char>>,
    facts: CreateFacts,
    p: ProjectRecord,
    journal: JournalError,
    live: String,
)
    requires
        isolation == WorkspaceIsolation::Local ==> branch is None,
    ensures
        create_step(platform, false, in_flight, project_id, isolation, branch, title, facts)
            == CreateStepView::Done(
            Err(
                ErrorView {
                    code: ErrorCode::Journal,
                    message: "journal is not open"@,
                    details: None,
                },
            ),
        ),
        ({
            let step = create_step(
                platform,
                true,
                in_flight,
                project_id,
                isolation,
                branch,
                title,
                facts,
            );
            &&& facts.project is None ==> step == CreateStepView::ReadProject
            &&& facts.project == Some(Err::<Option<ProjectRecord>, JournalError>(journal)) ==> step
                == CreateStepView::Done(
                Err(
                    ErrorView {
                        code: ErrorCode::Journal,
                        message: journal.message@,
                        details: None,
                    },
                ),
            )
            &&& facts.project == Some(Ok::<Option<ProjectRecord>, JournalError>(None)) ==> step
                == CreateStepView::Done(
                Err(
                    ErrorView {
                        code: ErrorCode::WorkspaceUnavailable,
                        message: "Project '"@ + project_id + "' does not exist."@,
                        details: None,
                    },
                ),
            )
            &&& facts.project == Some(Ok::<Option<ProjectRecord>, JournalError>(Some(p))) ==> {
                &&& facts.project_is_dir is None ==> step == (CreateStepView::ProbeProjectFolder {
                    path: p.path@,
                })
                &&& facts.project_is_dir == Some(false) ==> step == CreateStepView::Done(
                    Err(
                        ErrorView {
                            code: ErrorCode::WorkspaceUnavailable,
                            message: "Project '"@ + project_id
                                + "' is no longer an existing folder."@,
                            details: None,
                        },
                    ),
                )
                &&& facts.project_is_dir == Some(true) && isolation == WorkspaceIsolation::Worktree
                    && facts.live_git == Some(live) && live@ != "repository"@ && live@
                    != "inside_repository"@ ==> (step matches CreateStepView::Done(Err(e)) && e.code
                    == ErrorCode::WorkspaceUnavailable && e.details == Some(
                    DetailsView::WorktreeGitState { recorded: p.git_state@, observed: live@ },
                ))
            }
        }),
{
}

/// What goes wrong on the way to a worktree is said, with what is left behind: a
/// killed add of this call is repaired and pruned, another failed add is cleaned
/// up only where git lists nothing, and a row that the journal refused takes its
/// checkout with it.
pub proof fn law_failed_creates_say_what_is_left(
    platform: Platform,
    in_flight: Option<Seq<char>>,
    project_id: Seq<char>,
    branch: Option<Seq<char>>,
    title: Option<Seq<char>>,
    facts: CreateFacts,
    p: ProjectRecord,
    live: String,
    place: String,
    wanted: Seq<char>,
    error: AddError,
    text: String,
    journal: JournalError,
    identity: WorktreeIdentity,
)
    requires
        facts.project == Some(Ok::<Option<ProjectRecord>, JournalError>(Some(p))),
        facts.project_is_dir == Some(true),
        facts.live_git == Some(live),
        live@ == "repository"@ || live@ == "inside_repository"@,
        is_chosen(branch, facts.generated_branch, wanted),
    ensures
        ({
            let step = create_step(
                platform,
                true,
                in_flight,
                project_id,
                WorkspaceIsolation::Worktree,
                branch,
                title,
                facts,
            );
            let own = facts.repairing || in_flight == Some(place@);
            let failed = "Could not add git worktree for '"@ + project_id + "': "@;
            &&& facts.checkout == Some(None::<String>) ==> step == CreateStepView::Done(
                Err(
                    ErrorView {
                        code: ErrorCode::InvalidRequest,
                        message: "Project '"@ + project_id
                            + "' has no parent directory for a sibling worktree."@,
                        details: None,
                    },
                ),
            )
            &&& facts.checkout == Some(Some(place)) && parent_of(platform, place@) is Some
                && facts.root_made == Some(Err::<(), String>(text)) ==> step == CreateStepView::Done(
                Err(
                    ErrorView {
                        code: ErrorCode::Io,
                        message: "Worktree directory '"@ + plain(parent_of(platform, place@)->0)
                            + "' is not writable: "@ + text@,
                        details: None,
                    },
                ),
            )
            &&& facts.checkout == Some(Some(place)) && parent_of(platform, place@) is Some
                && facts.root_made == Some(Ok::<(), String>(())) && facts.added == Some(
                Err::<(), AddError>(error),
            ) ==> {
                &&& error.timed_out && own ==> {
                    &&& facts.leftover_removed is None ==> step is RemoveLeftover
                        && step->RemoveLeftover_repairing
                    &&& facts.leftover_removed == Some(Err::<(), String>(text)) ==> step
                        == CreateStepView::Done(
                        Err(
                            ErrorView {
                                code: ErrorCode::WorkspaceUnavailable,
                                message: failed + "git timed out"@ + "; leftover checkout at '"@
                                    + plain(place@) + "' ("@ + text@ + ")"@,
                                details: None,
                            },
                        ),
                    )
                    &&& facts.leftover_removed == Some(Ok::<(), String>(())) ==> {
                        &&& facts.pruned is None ==> step is Prune
                        &&& facts.pruned == Some(Ok::<(), String>(())) ==> step
                            == CreateStepView::Done(
                            Err(
                                ErrorView {
                                    code: ErrorCode::WorkspaceUnavailable,
                                    message: failed + "git timed out"@
                                        + "; removed the partial checkout at '"@ + plain(place@)
                                        + "' and pruned"@,
                                    details: None,
                                },
                            ),
                        )
                        &&& facts.pruned == Some(Err::<(), String>(text)) ==> step
                            == CreateStepView::Done(
                            Err(
                                ErrorView {
                                    code: ErrorCode::WorkspaceUnavailable,
                                    message: failed + "git timed out"@
                                        + "; removed the partial checkout at '"@ + plain(place@)
                                        + "' but pruning failed ("@ + text@ + ")"@,
                                    details: None,
                                },
                            ),
                        )
                    }
                }
                &&& !(error.timed_out && own) ==> {
                    &&& facts.listing is None ==> step is ListWorktrees
                    &&& facts.listing is Some && facts.listing != Some(
                        Ok::<WorktreeIdentity, String>(WorktreeIdentity::Missing),
                    ) ==> step == CreateStepView::Done(
                        Err(
                            ErrorView {
                                code: ErrorCode::WorkspaceUnavailable,
                                message: failed + error.text@ + "; the existing checkout at '"@
                                    + plain(place@) + "' was left alone"@,
                                details: None,
                            },
                        ),
                    )
                    &&& facts.listing == Some(
                        Ok::<WorktreeIdentity, String>(WorktreeIdentity::Missing),
                    ) ==> {
                        &&& facts.leftover_removed is None ==> step is RemoveLeftover
                            && !step->RemoveLeftover_repairing
                        &&& facts.leftover_removed == Some(Ok::<(), String>(())) ==> step
                            == CreateStepView::Done(
                            Err(
                                ErrorView {
                                    code: ErrorCode::WorkspaceUnavailable,
                                    message: failed + error.text@,
                                    details: None,
                                },
                            ),
                        )
                        &&& facts.leftover_removed == Some(Err::<(), String>(text)) ==> step
                            == CreateStepView::Done(
                            Err(
                                ErrorView {
                                    code: ErrorCode::WorkspaceUnavailable,
                                    message: failed + error.text@ + "; leftover checkout at '"@
                                        + plain(place@) + "' ("@ + text@ + ")"@,
                                    details: None,
                                },
                            ),
                        )
                    }
                }
            }
            &&& facts.checkout == Some(Some(place)) && parent_of(platform, place@) is Some
                && facts.root_made == Some(Ok::<(), String>(())) && facts.added == Some(
                Ok::<(), AddError>(()),
            ) && facts.settled_checkout is Some && facts.stored == Some(
                Err::<WorkspaceRecord, JournalError>(journal),
            ) ==> {
                &&& facts.undone is None ==> step is UndoAdd
                &&& facts.undone == Some(Ok::<(), String>(())) ==> step == CreateStepView::Done(
                    Err(
                        ErrorView {
                            code: ErrorCode::Journal,
                            message: journal.message@,
                            details: None,
                        },
                    ),
                )
                &&& facts.undone == Some(Err::<(), String>(text)) ==> step == CreateStepView::Done(
                    Err(
                        ErrorView {
                            code: ErrorCode::Journal,
                            message: journal.message@ + "; leftover checkout at '"@ + plain(
                                facts.settled_checkout->0@,
                            ) + "' ("@ + text@ + ")"@,
                            details: None,
                        },
                    ),
                )
            }
        }),
{
    lemma_chosen(branch, facts.generated_branch, wanted);
}

/// A killed add is repaired by removing the partial checkout and pruning, in this
/// order; what is said names the checkout and how far the repair came.
pub proof fn law_killed_adds_are_repaired(
    project_id: Seq<char>,
    checkout: Seq<char>,
    error: String,
    pruned: Option<Result<(), String>>,
)
    ensures
        ({
            let said = "Could not add git worktree for '"@ + project_id + "': "@
                + "git timed out"@;
            let done = Some(Ok::<(), String>(()));
            &&& repair_step(project_id, checkout, None, pruned) == RepairView::Remove
            &&& repair_step(project_id, checkout, done, None) == RepairView::Prune
            &&& repair_step(project_id, checkout, Some(Err(error)), pruned) == RepairView::Said(
                said + "; leftover checkout at '"@ + plain(checkout) + "' ("@ + error@ + ")"@,
            )
            &&& repair_step(project_id, checkout, done, done) == RepairView::Said(
                said + "; removed the partial checkout at '"@
                    + plain(checkout) + "' and pruned"@,
            )
            &&& repair_step(project_id, checkout, done, Some(Err(error))) == RepairView::Said(
                said + "; removed the partial checkout at '"@
                    + plain(checkout) + "' but pruning failed ("@ + error@ + ")"@,
            )
        }),
{
}

/// A checkout of a lost race is removed only where no worktree is listed for it,
/// and what came of it is told.
pub proof fn law_lost_checkouts_are_removed_when_unlisted(
    listing: Result<WorktreeIdentity, String>,
    removed: Option<Result<(), String>>,
    error: String,
)
    ensures
        listing != Ok::<WorktreeIdentity, String>(WorktreeIdentity::Missing) ==> loser_cleanup(
            listing,
            removed,
        ) == Some(CleanupView::KeptLive),
        loser_cleanup(Ok(WorktreeIdentity::Missing), None) is None,
        loser_cleanup(Ok(WorktreeIdentity::Missing), Some(Ok(()))) == Some(CleanupView::Removed),
        loser_cleanup(Ok(WorktreeIdentity::Missing), Some(Err(error))) == Some(
            CleanupView::RemoveFailed(error@),
        ),
{
}

/// Only a repository, or a folder inside one, hosts worktrees; any other state is
/// refused with what was recorded and what was seen.
pub proof fn law_only_repositories_host_worktrees(
    state: Seq<char>,
    recorded: Seq<char>,
    project_id: Seq<char>,
)
    ensures
        hosts_worktree(state) <==> seq!["repository"@, "inside_repository"@].contains(state),
        git_state_refusal(recorded, state, project_id) == (ErrorView {
            code: ErrorCode::WorkspaceUnavailable,
            message: "Project '"@ + project_id + "' cannot host a worktree (git state is '"@ + state
                + "'; recorded '"@ + recorded + "')."@,
            details: Some(DetailsView::WorktreeGitState { recorded, observed: state }),
        }),
{
    let states = seq!["repository"@, "inside_repository"@];
    assert(states[0] == "repository"@ && states[1] == "inside_repository"@);
}

} // verus!
