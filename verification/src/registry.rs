//! The session registry's view of projects and workspaces: the rows that go to
//! a client, the cache of workspace folders, and the plain journal reads.
//!
//! The registry does no input or output itself. A method takes what the journal
//! or the disk answered and says what follows from it.
use crate::platform::Platform;
use crate::text::same_text;
use crate::wire::{fixed_error, plain_error, text3, text5, ErrorCode, ErrorView, WireError};
use crate::workspace::{
    new_project, plain, plain_path, project_record, ProjectRecord, ProjectView, ResolvedPath, Stamp,
    WorkspaceIsolation, WorkspaceRecord, WorkspaceView,
};
use vstd::prelude::*;

verus! {

/// How many workspace folders the cache remembers.
pub const WORKSPACE_PATH_CACHE_CAP: usize = 64;

/// A project as a client sees it.
#[derive(Debug)]
pub struct Project {
    pub id: String,
    pub name: String,
    pub git_state: String,
    pub path: String,
    pub created_at_ms: u64,
    pub updated_at_ms: u64,
}

/// A workspace as a client sees it: its row without the branch.
#[derive(Debug)]
pub struct Workspace {
    pub id: String,
    pub project_id: String,
    pub title: String,
    pub isolation: WorkspaceIsolation,
    pub path: String,
    pub created_at_ms: u64,
    pub updated_at_ms: u64,
}

/// `Workspace` over the characters of its texts.
pub ghost struct WorkspaceWire {
    pub id: Seq<char>,
    pub project_id: Seq<char>,
    pub title: Seq<char>,
    pub isolation: WorkspaceIsolation,
    pub path: Seq<char>,
    pub created_at_ms: u64,
    pub updated_at_ms: u64,
}

impl View for Project {
    type V = ProjectView;

    open spec fn view(&self) -> ProjectView {
        ProjectView {
            id: self.id@,
            name: self.name@,
            git_state: self.git_state@,
            path: self.path@,
            created_at_ms: self.created_at_ms,
            updated_at_ms: self.updated_at_ms,
        }
    }
}

impl View for Workspace {
    type V = WorkspaceWire;

    open spec fn view(&self) -> WorkspaceWire {
        WorkspaceWire {
            id: self.id@,
            project_id: self.project_id@,
            title: self.title@,
            isolation: self.isolation,
            path: self.path@,
            created_at_ms: self.created_at_ms,
            updated_at_ms: self.updated_at_ms,
        }
    }
}

/// A project row for a client: its folder in the plain spelling.
pub open spec fn project_wire(p: ProjectView) -> ProjectView {
    ProjectView { path: plain(p.path), ..p }
}

/// A workspace row for a client: its folder in the plain spelling, no branch.
pub open spec fn workspace_wire(w: WorkspaceView) -> WorkspaceWire {
    WorkspaceWire {
        id: w.id,
        project_id: w.project_id,
        title: w.title,
        isolation: w.isolation,
        path: plain(w.path),
        created_at_ms: w.created_at_ms,
        updated_at_ms: w.updated_at_ms,
    }
}

impl ProjectRecord {
    pub fn to_project(&self) -> (r: Project)
        ensures
            r@ == project_wire(self@),
    {
        Project {
            id: self.id.clone(),
            name: self.name.clone(),
            git_state: self.git_state.clone(),
            path: plain_path(self.path.as_str()),
            created_at_ms: self.created_at_ms,
            updated_at_ms: self.updated_at_ms,
        }
    }
}

impl WorkspaceRecord {
    pub fn to_workspace(&self) -> (r: Workspace)
        ensures
            r@ == workspace_wire(self@),
    {
        Workspace {
            id: self.id.clone(),
            project_id: self.project_id.clone(),
            title: self.title.clone(),
            isolation: self.isolation,
            path: plain_path(self.path.as_str()),
            created_at_ms: self.created_at_ms,
            updated_at_ms: self.updated_at_ms,
        }
    }
}

/// A journal call that failed.
#[derive(Debug)]
pub struct JournalError {
    pub message: String,
}

/// A journal failure as it goes over the wire.
pub open spec fn journal_error(message: Seq<char>) -> ErrorView {
    plain_error(ErrorCode::Journal, message)
}

/// The answer when there is no journal to ask.
pub open spec fn journal_closed() -> ErrorView {
    journal_error("journal is not open"@)
}

impl JournalError {
    pub fn to_wire(&self) -> (r: WireError)
        ensures
            r@ == journal_error(self.message@),
    {
        WireError::new(ErrorCode::Journal, self.message.clone())
    }
}

pub fn journal_unavailable() -> (r: WireError)
    ensures
        r@ == journal_closed(),
{
    fixed_error(ErrorCode::Journal, "journal is not open")
}

/// A workspace that cannot be used, and why.
pub open spec fn unavailable(workspace_id: Seq<char>, reason: Seq<char>) -> ErrorView {
    plain_error(
        ErrorCode::WorkspaceUnavailable,
        "Workspace '"@ + workspace_id + "' is unavailable: "@ + reason + "."@,
    )
}

pub fn workspace_unavailable(workspace_id: &str, reason: &str) -> (r: WireError)
    ensures
        r@ == unavailable(workspace_id@, reason@),
{
    WireError::new(
        ErrorCode::WorkspaceUnavailable,
        text5("Workspace '", workspace_id, "' is unavailable: ", reason, "."),
    )
}

/// A journal failure while a workspace was looked up.
pub open spec fn lookup_failure(workspace_id: Seq<char>, message: Seq<char>) -> ErrorView {
    journal_error(
        "Workspace '"@ + workspace_id + "' could not be read from the journal: "@ + message,
    )
}

pub fn workspace_journal_error(workspace_id: &str, error: &JournalError) -> (r: WireError)
    ensures
        r@ == lookup_failure(workspace_id@, error.message@),
{
    let mut message = text3(
        "Workspace '",
        workspace_id,
        "' could not be read from the journal: ",
    );
    message.append(error.message.as_str());
    WireError::new(ErrorCode::Journal, message)
}

/// The folders of workspaces, oldest first, at most
/// `WORKSPACE_PATH_CACHE_CAP` of them and one for each id.
#[derive(Debug)]
pub struct WorkspacePathCache {
    pub entries: Vec<(String, String)>,
}

/// The ids and folders that the entries hold.
pub open spec fn entries_view(entries: Seq<(String, String)>) -> Seq<(Seq<char>, Seq<char>)> {
    entries.map_values(|e: (String, String)| (e.0@, e.1@))
}

/// The folder under `id`, the oldest entry first.
pub open spec fn lookup(entries: Seq<(Seq<char>, Seq<char>)>, id: Seq<char>) -> Option<Seq<char>>
    decreases entries.len(),
{
    if entries.len() == 0 {
        None
    } else if entries[0].0 == id {
        Some(entries[0].1)
    } else {
        lookup(entries.skip(1), id)
    }
}

/// The entries without the one under `id`.
pub open spec fn without(entries: Seq<(Seq<char>, Seq<char>)>, id: Seq<char>) -> Seq<
    (Seq<char>, Seq<char>),
>
    decreases entries.len(),
{
    if entries.len() == 0 {
        Seq::empty()
    } else if entries.last().0 == id {
        without(entries.drop_last(), id)
    } else {
        without(entries.drop_last(), id).push(entries.last())
    }
}

/// The entries after one more: the new one is the youngest, and the oldest
/// leaves where there would be too many.
pub open spec fn with_entry(
    entries: Seq<(Seq<char>, Seq<char>)>,
    id: Seq<char>,
    path: Seq<char>,
) -> Seq<(Seq<char>, Seq<char>)> {
    let rest = without(entries, id);
    if rest.len() >= WORKSPACE_PATH_CACHE_CAP {
        rest.skip(1).push((id, path))
    } else {
        rest.push((id, path))
    }
}

/// No id occurs twice.
pub open spec fn distinct_ids(entries: Seq<(Seq<char>, Seq<char>)>) -> bool {
    forall|i: int, j: int|
        0 <= i < j < entries.len() ==> (#[trigger] entries[i]).0 != (#[trigger] entries[j]).0
}

pub proof fn lemma_without(entries: Seq<(Seq<char>, Seq<char>)>, id: Seq<char>)
    ensures
        without(entries, id).len() <= entries.len(),
        distinct_ids(entries) ==> distinct_ids(without(entries, id)),
        forall|i: int|
            0 <= i < without(entries, id).len() ==> (#[trigger] without(entries, id)[i]).0 != id
                && entries.contains(without(entries, id)[i]),
    decreases entries.len(),
{
    if entries.len() > 0 {
        let before = entries.drop_last();
        lemma_without(before, id);
        let rest = without(before, id);
        assert forall|i: int| 0 <= i < without(entries, id).len() implies (#[trigger] without(
            entries,
            id,
        )[i]).0 != id && entries.contains(without(entries, id)[i]) by {
            if i < rest.len() {
                let k = choose|k: int| 0 <= k < before.len() && before[k] == rest[i];
                assert(entries[k] == rest[i]);
            }
        }
        if distinct_ids(entries) && entries.last().0 != id {
            assert forall|i: int, j: int|
                0 <= i < j < without(entries, id).len() implies (#[trigger] without(
                entries,
                id,
            )[i]).0 != (#[trigger] without(entries, id)[j]).0 by {
                if j == rest.len() {
                    let k = choose|k: int| 0 <= k < before.len() && before[k] == rest[i];
                    assert(entries[k] == rest[i]);
                    assert(entries[entries.len() - 1].0 != entries[k].0);
                } else {
                    assert(rest[i].0 != rest[j].0);
                }
            }
        }
    }
}

/// An id that no entry has is not found.
pub proof fn lemma_lookup_none(entries: Seq<(Seq<char>, Seq<char>)>, id: Seq<char>)
    requires
        forall|i: int| 0 <= i < entries.len() ==> (#[trigger] entries[i]).0 != id,
    ensures
        lookup(entries, id) is None,
    decreases entries.len(),
{
    if entries.len() > 0 {
        assert(entries[0].0 != id);
        assert forall|i: int| 0 <= i < entries.skip(1).len() implies (#[trigger] entries.skip(
            1,
        )[i]).0 != id by {
            assert(entries.skip(1)[i] == entries[i + 1]);
        }
        lemma_lookup_none(entries.skip(1), id);
    }
}

/// What a lookup finds behind entries with other ids.
pub proof fn lemma_lookup_push(
    entries: Seq<(Seq<char>, Seq<char>)>,
    id: Seq<char>,
    path: Seq<char>,
)
    requires
        forall|i: int| 0 <= i < entries.len() ==> (#[trigger] entries[i]).0 != id,
    ensures
        lookup(entries.push((id, path)), id) == Some(path),
    decreases entries.len(),
{
    if entries.len() > 0 {
        assert(entries[0].0 != id);
        assert(entries.push((id, path)).skip(1) =~= entries.skip(1).push((id, path)));
        assert forall|i: int| 0 <= i < entries.skip(1).len() implies (#[trigger] entries.skip(
            1,
        )[i]).0 != id by {
            assert(entries.skip(1)[i] == entries[i + 1]);
        }
        lemma_lookup_push(entries.skip(1), id, path);
    }
}

/// A remembered folder is found under its id until it is forgotten.
pub proof fn law_remembered_path_is_found(
    entries: Seq<(Seq<char>, Seq<char>)>,
    id: Seq<char>,
    path: Seq<char>,
)
    ensures
        lookup(with_entry(entries, id, path), id) == Some(path),
        lookup(without(entries, id), id) is None,
{
    lemma_without(entries, id);
    let rest = without(entries, id);
    assert(forall|i: int| 0 <= i < rest.len() ==> (#[trigger] rest[i]).0 != id);
    lemma_lookup_none(rest, id);
    lemma_lookup_push(rest, id, path);
    if rest.len() >= WORKSPACE_PATH_CACHE_CAP {
        assert forall|i: int| 0 <= i < rest.skip(1).len() implies (#[trigger] rest.skip(1)[i]).0
            != id by {
            assert(rest.skip(1)[i] == rest[i + 1]);
        }
        lemma_lookup_push(rest.skip(1), id, path);
    }
}

/// The cache keeps its bound and one entry for each id, whatever is remembered.
pub proof fn law_cache_stays_bounded(
    entries: Seq<(Seq<char>, Seq<char>)>,
    id: Seq<char>,
    path: Seq<char>,
)
    requires
        entries.len() <= WORKSPACE_PATH_CACHE_CAP,
        distinct_ids(entries),
    ensures
        with_entry(entries, id, path).len() <= WORKSPACE_PATH_CACHE_CAP,
        distinct_ids(with_entry(entries, id, path)),
{
    lemma_without(entries, id);
    let rest = without(entries, id);
    let kept = if rest.len() >= WORKSPACE_PATH_CACHE_CAP {
        rest.skip(1)
    } else {
        rest
    };
    let all = with_entry(entries, id, path);
    assert(all =~= kept.push((id, path)));
    assert forall|i: int, j: int| 0 <= i < j < all.len() implies (#[trigger] all[i]).0 != (
    #[trigger] all[j]).0 by {
        let shift = if rest.len() >= WORKSPACE_PATH_CACHE_CAP {
            1int
        } else {
            0int
        };
        assert(all[i] == rest[i + shift]);
        if j < kept.len() {
            assert(all[j] == rest[j + shift]);
        }
    }
}

impl View for WorkspacePathCache {
    type V = Seq<(Seq<char>, Seq<char>)>;

    open spec fn view(&self) -> Seq<(Seq<char>, Seq<char>)> {
        entries_view(self.entries@)
    }
}

impl WorkspacePathCache {
    /// The bound is kept and no id occurs twice.
    pub open spec fn well_formed(&self) -> bool {
        self@.len() <= WORKSPACE_PATH_CACHE_CAP && distinct_ids(self@)
    }

    pub fn new() -> (r: WorkspacePathCache)
        ensures
            r@ == Seq::<(Seq<char>, Seq<char>)>::empty(),
            r.well_formed(),
    {
        let r = WorkspacePathCache { entries: Vec::new() };
        assert(r@ =~= Seq::empty());
        r
    }

    /// The folder under an id.
    pub fn get(&self, id: &str) -> (r: Option<&String>)
        ensures
            r is Some == lookup(self@, id@) is Some,
            r matches Some(p) ==> lookup(self@, id@) == Some(p@),
    {
        let mut i: usize = 0;
        assert(self@.skip(0) =~= self@);
        while i < self.entries.len()
            invariant
                i <= self.entries@.len(),
                lookup(self@, id@) == lookup(self@.skip(i as int), id@),
            decreases self.entries@.len() - i,
        {
            let ghost rest = self@.skip(i as int);
            assert(rest[0] == self@[i as int]);
            assert(rest.skip(1) =~= self@.skip(i + 1));
            if same_text(self.entries[i].0.as_str(), id) {
                return Some(&self.entries[i].1);
            }
            i = i + 1;
        }
        assert(self@.skip(i as int).len() == 0);
        None
    }

    /// Forgets the folder under an id.
    pub fn remove(&mut self, id: &str)
        ensures
            final(self)@ == without(old(self)@, id@),
            old(self).well_formed() ==> final(self).well_formed(),
    {
        let mut kept: Vec<(String, String)> = Vec::new();
        let mut i: usize = 0;
        assert(entries_view(kept@) =~= without(self@.take(0), id@));
        while i < self.entries.len()
            invariant
                *self == *old(self),
                i <= self.entries@.len(),
                entries_view(kept@) == without(self@.take(i as int), id@),
            decreases self.entries@.len() - i,
        {
            let ghost before = kept@;
            assert(self@.take(i + 1).drop_last() =~= self@.take(i as int));
            assert(self@.take(i + 1).last() == self@[i as int]);
            if !same_text(self.entries[i].0.as_str(), id) {
                kept.push((self.entries[i].0.clone(), self.entries[i].1.clone()));
                assert(entries_view(kept@) =~= entries_view(before).push(self@[i as int]));
            }
            i = i + 1;
        }
        assert(self@.take(i as int) =~= self@);
        self.entries = kept;
        proof {
            lemma_without(old(self)@, id@);
        }
    }

    /// Remembers the folder under an id; the oldest entry leaves where the
    /// cache is full.
    pub fn insert(&mut self, id: String, path: String)
        ensures
            final(self)@ == with_entry(old(self)@, id@, path@),
            old(self).well_formed() ==> final(self).well_formed(),
    {
        self.remove(id.as_str());
        let ghost rest = self@;
        if self.entries.len() >= WORKSPACE_PATH_CACHE_CAP {
            let _ = self.entries.remove(0);
            assert(self@ =~= rest.skip(1));
        }
        let ghost kept = self@;
        let ghost entry = (id@, path@);
        self.entries.push((id, path));
        assert(self@ =~= kept.push(entry));
        proof {
            if old(self).well_formed() {
                law_cache_stays_bounded(old(self)@, entry.0, entry.1);
            }
        }
    }
}

impl Default for WorkspacePathCache {
    fn default() -> (r: WorkspacePathCache)
        ensures
            r@ == Seq::<(Seq<char>, Seq<char>)>::empty(),
            r.well_formed(),
    {
        WorkspacePathCache::new()
    }
}

/// What the registry knows by itself: whether there is a journal to ask, the
/// workspace folders it remembers, and the checkout of a worktree that is
/// being added right now.
#[derive(Debug)]
pub struct SessionRegistry {
    pub journal_open: bool,
    pub paths: WorkspacePathCache,
    pub worktree_add_in_flight: Option<String>,
}

/// The rows of projects for a client.
pub open spec fn projects_view(rows: Seq<Project>) -> Seq<ProjectView> {
    rows.map_values(|p: Project| p@)
}

/// The rows of workspaces for a client.
pub open spec fn workspaces_view(rows: Seq<Workspace>) -> Seq<WorkspaceWire> {
    rows.map_values(|w: Workspace| w@)
}

/// The outcome of listing projects.
pub open spec fn projects_outcome(r: Result<Vec<Project>, WireError>) -> Result<
    Seq<ProjectView>,
    ErrorView,
> {
    match r {
        Ok(rows) => Ok(projects_view(rows@)),
        Err(e) => Err(e@),
    }
}

/// The outcome of listing workspaces.
pub open spec fn workspaces_outcome(r: Result<Vec<Workspace>, WireError>) -> Result<
    Seq<WorkspaceWire>,
    ErrorView,
> {
    match r {
        Ok(rows) => Ok(workspaces_view(rows@)),
        Err(e) => Err(e@),
    }
}

/// The outcome of adding a project.
pub open spec fn project_outcome(r: Result<Project, WireError>) -> Result<ProjectView, ErrorView> {
    match r {
        Ok(row) => Ok(row@),
        Err(e) => Err(e@),
    }
}

/// What adding a project asks for next.
#[derive(Debug)]
pub enum ProjectStep {
    /// Give the row to the journal.
    Store(ProjectRecord),
    /// Nothing: this is the answer.
    Done(Result<Project, WireError>),
}

/// `ProjectStep` over the characters of its texts.
pub ghost enum ProjectStepView {
    Store(ProjectView),
    Done(Result<ProjectView, ErrorView>),
}

impl View for ProjectStep {
    type V = ProjectStepView;

    open spec fn view(&self) -> ProjectStepView {
        match self {
            ProjectStep::Store(row) => ProjectStepView::Store(row@),
            ProjectStep::Done(r) => ProjectStepView::Done(project_outcome(*r)),
        }
    }
}

/// The outcome of reading workspace rows.
pub open spec fn records_outcome(r: Result<Vec<WorkspaceRecord>, WireError>) -> Result<
    Seq<WorkspaceRecord>,
    ErrorView,
> {
    match r {
        Ok(rows) => Ok(rows@),
        Err(e) => Err(e@),
    }
}

impl SessionRegistry {
    pub fn new(journal_open: bool) -> (r: SessionRegistry)
        ensures
            r.journal_open == journal_open,
            r.paths@ == Seq::<(Seq<char>, Seq<char>)>::empty(),
            r.worktree_add_in_flight is None,
            r.well_formed(),
    {
        SessionRegistry { journal_open, paths: WorkspacePathCache::new(), worktree_add_in_flight: None }
    }

    /// The cache of folders keeps its invariant.
    pub open spec fn well_formed(&self) -> bool {
        self.paths.well_formed()
    }

    /// The journal's projects, as a client sees them.
    pub fn projects_list(&self, rows: Result<Vec<ProjectRecord>, JournalError>) -> (r: Result<
        Vec<Project>,
        WireError,
    >)
        ensures
            projects_outcome(r) == if !self.journal_open {
                Err(journal_closed())
            } else {
                match rows {
                    Err(e) => Err(journal_error(e.message@)),
                    Ok(found) => Ok(found@.map_values(|p: ProjectRecord| project_wire(p@))),
                }
            },
    {
        if !self.journal_open {
            return Err(journal_unavailable());
        }
        match rows {
            Err(e) => Err(e.to_wire()),
            Ok(found) => {
                let ghost wanted = found@.map_values(|p: ProjectRecord| project_wire(p@));
                let mut sent: Vec<Project> = Vec::new();
                let mut i: usize = 0;
                while i < found.len()
                    invariant
                        i <= found@.len(),
                        wanted == found@.map_values(|p: ProjectRecord| project_wire(p@)),
                        projects_view(sent@) == wanted.take(i as int),
                    decreases found@.len() - i,
                {
                    let ghost before = sent@;
                    sent.push(found[i].to_project());
                    i = i + 1;
                    assert(projects_view(sent@) =~= projects_view(before).push(wanted[i - 1]));
                    assert(projects_view(sent@) =~= wanted.take(i as int));
                }
                assert(wanted.take(i as int) =~= wanted);
                Ok(sent)
            },
        }
    }

    /// Adds the project at a path. The row is made first, so a path that is no
    /// folder is refused before the journal is asked; `resolved` and
    /// `git_state` are what the disk and git say of the path, and `stored` is
    /// the journal's answer to the row, once there is one.
    pub fn project_add(
        &self,
        platform: Platform,
        path: &str,
        resolved: Option<ResolvedPath>,
        git_state: &str,
        stamp: Stamp,
        stored: Option<Result<ProjectRecord, JournalError>>,
    ) -> (r: ProjectStep)
        ensures
            r@ == match new_project(platform, path@, resolved, git_state@, stamp) {
                Err(e) => ProjectStepView::Done(Err(e)),
                Ok(row) => if !self.journal_open {
                    ProjectStepView::Done(Err(journal_closed()))
                } else {
                    match stored {
                        None => ProjectStepView::Store(row),
                        Some(Err(e)) => ProjectStepView::Done(Err(journal_error(e.message@))),
                        Some(Ok(p)) => ProjectStepView::Done(Ok(project_wire(p@))),
                    }
                },
            },
    {
        match project_record(platform, path, resolved, git_state, stamp) {
            Err(e) => ProjectStep::Done(Err(e)),
            Ok(row) => {
                if !self.journal_open {
                    return ProjectStep::Done(Err(journal_unavailable()));
                }
                match stored {
                    None => ProjectStep::Store(row),
                    Some(Err(e)) => ProjectStep::Done(Err(e.to_wire())),
                    Some(Ok(p)) => ProjectStep::Done(Ok(p.to_project())),
                }
            },
        }
    }

    /// The journal's workspaces of a project, as a client sees them.
    pub fn workspaces_list(&self, rows: Result<Vec<WorkspaceRecord>, JournalError>) -> (r: Result<
        Vec<Workspace>,
        WireError,
    >)
        ensures
            workspaces_outcome(r) == if !self.journal_open {
                Err(journal_closed())
            } else {
                match rows {
                    Err(e) => Err(journal_error(e.message@)),
                    Ok(found) => Ok(found@.map_values(|w: WorkspaceRecord| workspace_wire(w@))),
                }
            },
    {
        if !self.journal_open {
            return Err(journal_unavailable());
        }
        match rows {
            Err(e) => Err(e.to_wire()),
            Ok(found) => {
                let ghost wanted = found@.map_values(|w: WorkspaceRecord| workspace_wire(w@));
                let mut sent: Vec<Workspace> = Vec::new();
                let mut i: usize = 0;
                while i < found.len()
                    invariant
                        i <= found@.len(),
                        wanted == found@.map_values(|w: WorkspaceRecord| workspace_wire(w@)),
                        workspaces_view(sent@) == wanted.take(i as int),
                    decreases found@.len() - i,
                {
                    let ghost before = sent@;
                    sent.push(found[i].to_workspace());
                    i = i + 1;
                    assert(workspaces_view(sent@) =~= workspaces_view(before).push(wanted[i - 1]));
                    assert(workspaces_view(sent@) =~= wanted.take(i as int));
                }
                assert(wanted.take(i as int) =~= wanted);
                Ok(sent)
            },
        }
    }

    /// The journal's workspace rows of a project, branches included.
    pub fn workspace_records(&self, rows: Result<Vec<WorkspaceRecord>, JournalError>) -> (r: Result<
        Vec<WorkspaceRecord>,
        WireError,
    >)
        ensures
            records_outcome(r) == if !self.journal_open {
                Err(journal_closed())
            } else {
                match rows {
                    Err(e) => Err(journal_error(e.message@)),
                    Ok(found) => Ok(found@),
                }
            },
    {
        if !self.journal_open {
            return Err(journal_unavailable());
        }
        match rows {
            Err(e) => Err(e.to_wire()),
            Ok(found) => Ok(found),
        }
    }

    /// The folder that the registry remembers for a workspace.
    pub fn cached_workspace_path(&self, workspace_id: &str) -> (r: Option<&String>)
        ensures
            r is Some == lookup(self.paths@, workspace_id@) is Some,
            r matches Some(p) ==> lookup(self.paths@, workspace_id@) == Some(p@),
    {
        self.paths.get(workspace_id)
    }

    /// Remembers the folder of a workspace.
    pub fn remember_workspace_path(&mut self, workspace_id: &str, path: &str)
        ensures
            final(self).paths@ == with_entry(old(self).paths@, workspace_id@, path@),
            old(self).well_formed() ==> final(self).well_formed(),
            final(self).journal_open == old(self).journal_open,
            final(self).worktree_add_in_flight == old(self).worktree_add_in_flight,
    {
        self.paths.insert(workspace_id.to_owned(), path.to_owned());
    }

    /// Forgets the folder of a workspace.
    pub fn invalidate_workspace_path(&mut self, workspace_id: &str)
        ensures
            final(self).paths@ == without(old(self).paths@, workspace_id@),
            old(self).well_formed() ==> final(self).well_formed(),
            final(self).journal_open == old(self).journal_open,
            final(self).worktree_add_in_flight == old(self).worktree_add_in_flight,
    {
        self.paths.remove(workspace_id);
    }
}

/// A client sees a row as it is, with its folder in the plain spelling.
pub proof fn law_clients_see_plain_rows(p: ProjectView, w: WorkspaceView)
    ensures
        project_wire(p).id == p.id && project_wire(p).name == p.name && project_wire(p).git_state
            == p.git_state && project_wire(p).path == plain(p.path) && project_wire(p).created_at_ms
            == p.created_at_ms && project_wire(p).updated_at_ms == p.updated_at_ms,
        workspace_wire(w).id == w.id && workspace_wire(w).project_id == w.project_id
            && workspace_wire(w).title == w.title && workspace_wire(w).isolation == w.isolation
            && workspace_wire(w).path == plain(w.path) && workspace_wire(w).created_at_ms
            == w.created_at_ms && workspace_wire(w).updated_at_ms == w.updated_at_ms,
{
}

/// Journal failures keep the journal's words under the journal's code, and a
/// workspace that cannot be used is named with the reason.
pub proof fn law_failures_keep_their_words(id: Seq<char>, words: Seq<char>)
    ensures
        journal_error(words).code == ErrorCode::Journal && journal_error(words).message == words
            && journal_error(words).details is None,
        journal_closed().code == ErrorCode::Journal && journal_closed().message
            == "journal is not open"@,
        unavailable(id, words).code == ErrorCode::WorkspaceUnavailable && unavailable(
            id,
            words,
        ).message == "Workspace '"@ + id + "' is unavailable: "@ + words + "."@,
        lookup_failure(id, words).code == ErrorCode::Journal && lookup_failure(id, words).message
            == "Workspace '"@ + id + "' could not be read from the journal: "@ + words,
{
}

proof fn lemma_lookup_without(
    entries: Seq<(Seq<char>, Seq<char>)>,
    id: Seq<char>,
    other: Seq<char>,
)
    requires
        other != id,
    ensures
        lookup(without(entries, id), other) == lookup(entries, other),
    decreases entries.len(),
{
    if entries.len() > 0 {
        let before = entries.drop_last();
        lemma_lookup_without(before, id, other);
        lemma_lookup_last(before, entries.last(), other);
        assert(before.push(entries.last()) =~= entries);
        if entries.last().0 != id {
            lemma_lookup_last(without(before, id), entries.last(), other);
        }
    }
}

proof fn lemma_lookup_last(
    entries: Seq<(Seq<char>, Seq<char>)>,
    last: (Seq<char>, Seq<char>),
    id: Seq<char>,
)
    ensures
        lookup(entries.push(last), id) == (match lookup(entries, id) {
            Some(path) => Some(path),
            None => if last.0 == id {
                Some(last.1)
            } else {
                None
            },
        }),
    decreases entries.len(),
{
    if entries.len() == 0 {
        reveal_with_fuel(lookup, 2);
        assert(entries.push(last)[0] == last);
        assert(entries.push(last).skip(1) =~= Seq::empty());
    } else {
        assert(entries.push(last)[0] == entries[0]);
        assert(entries.push(last).skip(1) =~= entries.skip(1).push(last));
        lemma_lookup_last(entries.skip(1), last, id);
    }
}

/// Remembering or forgetting one folder leaves the others, but for the oldest one
/// where 64 others are remembered already.
pub proof fn law_other_folders_stay_remembered(
    entries: Seq<(Seq<char>, Seq<char>)>,
    id: Seq<char>,
    path: Seq<char>,
    other: Seq<char>,
)
    requires
        other != id,
    ensures
        lookup(without(entries, id), other) == lookup(entries, other),
        entries.len() < 64 ==> lookup(with_entry(entries, id, path), other) == lookup(
            entries,
            other,
        ),
        entries.len() > 0 && entries[0].0 != other && entries.len() <= 64 ==> lookup(
            with_entry(entries, id, path),
            other,
        ) == lookup(entries, other),
{
    lemma_lookup_without(entries, id, other);
    lemma_without(entries, id);
    let rest = without(entries, id);
    lemma_lookup_last(rest, (id, path), other);
    if rest.len() >= 64 && entries.len() <= 64 {
        assert(rest.len() == entries.len());
        lemma_nothing_left_out(entries, id);
        assert(rest[0] == entries[0]);
        lemma_lookup_last(rest.skip(1), (id, path), other);
    }
}

proof fn lemma_nothing_left_out(entries: Seq<(Seq<char>, Seq<char>)>, id: Seq<char>)
    requires
        without(entries, id).len() == entries.len(),
    ensures
        without(entries, id) == entries,
    decreases entries.len(),
{
    if entries.len() > 0 {
        lemma_without(entries.drop_last(), id);
        lemma_nothing_left_out(entries.drop_last(), id);
        assert(without(entries, id) =~= entries);
    } else {
        assert(without(entries, id) =~= entries);
    }
}

} // verus!
