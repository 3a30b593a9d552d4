use devboule_daemon::platform::Platform;
use devboule_daemon::registry::{
    JournalError, ProjectStep, SessionRegistry, WorkspacePathCache, WORKSPACE_PATH_CACHE_CAP,
};
use devboule_daemon::session_types::PtyCommand;
use devboule_daemon::wire::{ErrorCode, ErrorDetails};
use devboule_daemon::workspace::{
    ProjectRecord, ResolvedPath, Stamp, WorkspaceIsolation, WorkspaceRecord,
};
use devboule_daemon::workspace_create::{
    loser_checkout_cleanup, refuse_worktree_unless_live_git_allows, repair_killed_worktree_add,
    AddError, CreateFacts, CreateStep, LoserCleanup, ProjectAsk, RepairStep,
};
use devboule_daemon::workspace_delete::{
    CheckoutProbe, Confinement, DeleteFacts, DeleteStep, Detachment, RemovalError, WorktreeIdentity,
};
use devboule_daemon::workspace_paths::{NamedProjectStep, PathFacts, PathStep, ScopeStep};

fn stamp() -> Stamp {
    Stamp {
        now_ms: 1,
        process_id: 2,
        counter: 3,
    }
}

fn project(path: &str) -> ProjectRecord {
    ProjectRecord {
        id: "p.1".to_string(),
        name: "project".to_string(),
        git_state: "repository".to_string(),
        path: path.to_string(),
        created_at_ms: 1,
        updated_at_ms: 1,
    }
}

fn workspace(isolation: WorkspaceIsolation, path: &str, branch: Option<&str>) -> WorkspaceRecord {
    WorkspaceRecord {
        id: "w.1".to_string(),
        project_id: "p.1".to_string(),
        title: "project".to_string(),
        isolation,
        path: path.to_string(),
        branch: branch.map(str::to_string),
        created_at_ms: 1,
        updated_at_ms: 1,
    }
}

fn journal(message: &str) -> JournalError {
    JournalError {
        message: message.to_string(),
    }
}

fn delete_facts() -> DeleteFacts {
    DeleteFacts {
        workspace: None,
        project: None,
        project_is_dir: None,
        confinement: None,
        identity: None,
        dirty: None,
        removal: None,
        row_deleted: None,
    }
}

/// A worktree that is there, beside its project, and the workspace's own.
fn ready_to_delete() -> DeleteFacts {
    DeleteFacts {
        workspace: Some(Ok(Some(workspace(
            WorkspaceIsolation::Worktree,
            r"\\?\C:\project.worktrees\a",
            Some("feature/a"),
        )))),
        project: Some(Ok(Some(project(r"\\?\C:\project")))),
        project_is_dir: Some(true),
        confinement: Some(Confinement {
            root: Some(r"\\?\C:\project.worktrees".to_string()),
            inside: true,
        }),
        identity: Some(Ok(WorktreeIdentity::Match)),
        ..delete_facts()
    }
}

fn create_facts() -> CreateFacts {
    CreateFacts {
        project: None,
        project_is_dir: None,
        live_git: None,
        generated_branch: None,
        checkout: None,
        root_made: None,
        added: None,
        repairing: false,
        listing: None,
        leftover_removed: None,
        pruned: None,
        settled_checkout: None,
        stamp: stamp(),
        stored: None,
        undone: None,
    }
}

/// Everything up to `git worktree add`.
fn ready_to_add() -> CreateFacts {
    CreateFacts {
        project: Some(Ok(Some(project(r"C:\project")))),
        project_is_dir: Some(true),
        live_git: Some("repository".to_string()),
        checkout: Some(Some(r"C:\project.worktrees\feature".to_string())),
        root_made: Some(Ok(())),
        ..create_facts()
    }
}

fn path_facts() -> PathFacts {
    PathFacts {
        cached_is_dir: None,
        row: None,
        folder_is_dir: None,
    }
}

fn command() -> PtyCommand {
    PtyCommand::new("cmd.exe", Vec::new(), r"C:\daemon".to_string(), Vec::new())
}

fn done(step: DeleteStep) -> Result<(), devboule_daemon::wire::WireError> {
    match step {
        DeleteStep::Done(answer) => answer,
        other => panic!("expected an answer, got {other:?}"),
    }
}

#[test]
fn a_real_local_workspace_supplies_the_session_command_cwd() {
    let mut registry = SessionRegistry::new(true);
    let stored = r"\\?\C:\work\Project With Spaces";
    let mut command = command();
    let mut facts = path_facts();
    assert!(matches!(
        registry.apply_workspace_cwd(Some("w.1"), &mut command, &facts),
        Some(PathStep::ReadRow)
    ));
    facts.row = Some(Ok(Some(workspace(WorkspaceIsolation::Local, stored, None))));
    match registry.apply_workspace_cwd(Some("w.1"), &mut command, &facts) {
        Some(PathStep::ProbeFolder { path }) => assert_eq!(path, stored),
        other => panic!("expected a probe, got {other:?}"),
    }
    assert_eq!(command.cwd, r"C:\daemon");
    facts.folder_is_dir = Some(true);
    assert!(registry
        .apply_workspace_cwd(Some("w.1"), &mut command, &facts)
        .is_none());
    assert_eq!(command.cwd, r"C:\work\Project With Spaces");
    assert!(!command.cwd.contains("\\\\?\\"));
    assert_eq!(
        registry.cached_workspace_path("w.1").map(String::as_str),
        Some(stored),
        "the cache keeps the stored spelling"
    );
}

#[test]
fn an_unknown_workspace_fails_without_using_the_daemon_cwd() {
    let mut registry = SessionRegistry::new(true);
    let mut command = command();
    let facts = PathFacts {
        row: Some(Ok(None)),
        ..path_facts()
    };
    match registry.apply_workspace_cwd(Some("w.missing"), &mut command, &facts) {
        Some(PathStep::Done(Err(error))) => {
            assert_eq!(error.code, ErrorCode::WorkspaceUnavailable);
            assert_eq!(
                error.message,
                "Workspace 'w.missing' is unavailable: it does not exist."
            );
        }
        other => panic!("unknown workspace must fail, got {other:?}"),
    }
    assert_eq!(command.cwd, r"C:\daemon");
    assert!(registry
        .apply_workspace_cwd(None, &mut command, &facts)
        .is_none());
}

#[test]
fn workspace_cwd_cache_avoids_a_journal_rpc_after_first_lookup() {
    // The journal is not open at all: the hit asks it nothing.
    let mut registry = SessionRegistry::new(false);
    registry.remember_workspace_path("w.1", r"\\?\C:\cached-project");
    let mut cached = command();
    match registry.apply_workspace_cwd(Some("w.1"), &mut cached, &path_facts()) {
        Some(PathStep::ProbeCached { path }) => assert_eq!(path, r"\\?\C:\cached-project"),
        other => panic!("expected a probe, got {other:?}"),
    }
    let facts = PathFacts {
        cached_is_dir: Some(true),
        ..path_facts()
    };
    assert!(registry
        .apply_workspace_cwd(Some("w.1"), &mut cached, &facts)
        .is_none());
    assert_eq!(cached.cwd, r"C:\cached-project");
}

#[test]
fn workspace_lookup_reports_journal_failure_not_a_missing_workspace() {
    let mut registry = SessionRegistry::new(true);
    let facts = PathFacts {
        row: Some(Err(journal("journal writer has stopped"))),
        ..path_facts()
    };
    match registry.apply_workspace_cwd(Some("w.journal-stopped"), &mut command(), &facts) {
        Some(PathStep::Done(Err(error))) => {
            assert_eq!(error.code, ErrorCode::Journal);
            assert!(error.message.contains("journal writer has stopped"));
            assert!(!error.message.contains("does not exist"));
        }
        other => panic!("stopped journal must fail, got {other:?}"),
    }
    let mut closed = SessionRegistry::new(false);
    match closed.workspace_cwd("w.1", &path_facts()) {
        PathStep::Done(Err(error)) => assert_eq!(
            error.message,
            "Workspace 'w.1' could not be read from the journal: journal is not open"
        ),
        other => panic!("a closed journal must fail, got {other:?}"),
    }
}

#[test]
fn workspace_path_cache_evicts_old_entries_at_its_bound() {
    let mut cache = WorkspacePathCache::default();
    for index in 0..=WORKSPACE_PATH_CACHE_CAP {
        cache.insert(format!("w.{index}"), format!("C:\\workspace-{index}"));
    }
    assert_eq!(cache.entries.len(), WORKSPACE_PATH_CACHE_CAP);
    assert!(cache.get("w.0").is_none());
    assert!(cache
        .get(&format!("w.{WORKSPACE_PATH_CACHE_CAP}"))
        .is_some());
    cache.insert("w.1".to_string(), "D:\\moved".to_string());
    assert_eq!(cache.entries.len(), WORKSPACE_PATH_CACHE_CAP);
    assert_eq!(cache.get("w.1").map(String::as_str), Some("D:\\moved"));
    cache.remove("w.1");
    assert!(cache.get("w.1").is_none());
}

#[test]
fn workspace_cache_invalidation_reports_a_missing_folder_not_a_deadline() {
    let mut registry = SessionRegistry::new(true);
    registry.remember_workspace_path("w.1", r"C:\missing-project");
    let facts = PathFacts {
        cached_is_dir: Some(false),
        row: Some(Ok(Some(workspace(
            WorkspaceIsolation::Local,
            r"C:\missing-project",
            None,
        )))),
        folder_is_dir: Some(false),
    };
    match registry.apply_workspace_cwd(Some("w.1"), &mut command(), &facts) {
        Some(PathStep::Done(Err(error))) => {
            assert_eq!(error.code, ErrorCode::WorkspaceUnavailable);
            assert!(error.message.contains("folder is no longer available"));
            assert!(!error.message.contains("deadline"));
        }
        other => panic!("missing workspace folder must fail, got {other:?}"),
    }
    assert!(registry.cached_workspace_path("w.1").is_none());
}

#[test]
fn workspace_create_rejects_a_branch_on_a_local_workspace() {
    let mut registry = SessionRegistry::new(true);
    let step = registry.workspace_create(
        Platform::Windows,
        "p.not-needed-for-branch-rejection",
        WorkspaceIsolation::Local,
        Some("feature-x"),
        &create_facts(),
    );
    match step {
        CreateStep::Done(Err(error)) => {
            assert_eq!(error.code, ErrorCode::InvalidRequest);
            assert!(error.message.contains("branch"));
        }
        other => panic!("branch must not be silently ignored, got {other:?}"),
    }
}

#[test]
fn worktree_create_refuses_when_live_git_is_not_a_repository() {
    let error = refuse_worktree_unless_live_git_allows("repository", "not_repository", "p.one")
        .expect_err("live not_repository must refuse even if recorded says repository");
    assert_eq!(error.code, ErrorCode::WorkspaceUnavailable);
    match error.details {
        Some(ErrorDetails::WorktreeGitState { recorded, observed }) => {
            assert_eq!(recorded, "repository");
            assert_eq!(observed, "not_repository");
        }
        other => panic!("expected WorktreeGitState, got {other:?}"),
    }
    assert_eq!(
        error.message,
        "Project 'p.one' cannot host a worktree (git state is 'not_repository'; recorded 'repository')."
    );
    assert!(
        refuse_worktree_unless_live_git_allows("not_repository", "repository", "p.one").is_ok(),
        "live repository must win over a stale recorded not_repository"
    );
    assert!(refuse_worktree_unless_live_git_allows("x", "inside_repository", "p.one").is_ok());
}

#[test]
fn worktree_workspace_cwd_uses_the_checkout_path_not_the_project() {
    let mut registry = SessionRegistry::new(true);
    let facts = PathFacts {
        row: Some(Ok(Some(workspace(
            WorkspaceIsolation::Worktree,
            r"C:\checkout",
            Some("feature-x"),
        )))),
        folder_is_dir: Some(true),
        ..path_facts()
    };
    let mut command = command();
    assert!(registry
        .apply_workspace_cwd(Some("w.1"), &mut command, &facts)
        .is_none());
    assert_eq!(command.cwd, r"C:\checkout");
}

#[test]
fn workspace_delete_detaches_the_row_when_the_project_folder_is_gone() {
    let mut registry = SessionRegistry::new(true);
    registry.remember_workspace_path("w.1", r"C:\kept");
    let mut facts = ready_to_delete();
    facts.project_is_dir = Some(false);
    assert!(matches!(
        registry.workspace_delete("w.1", false, &facts),
        DeleteStep::DeleteRow {
            detached: Some(Detachment::ProjectFolderGone)
        }
    ));
    assert!(registry.cached_workspace_path("w.1").is_some());
    facts.row_deleted = Some(Ok(()));
    done(registry.workspace_delete("w.1", false, &facts))
        .expect("row must be removable when the project folder is gone");
    assert!(registry.cached_workspace_path("w.1").is_none());
    let mut facts = ready_to_delete();
    facts.project = Some(Ok(None));
    assert!(matches!(
        registry.workspace_delete("w.1", true, &facts),
        DeleteStep::DeleteRow {
            detached: Some(Detachment::ProjectRowGone)
        }
    ));
    assert_eq!(
        Detachment::ProjectRowGone.reason(),
        "its project row is gone"
    );
    assert_eq!(
        Detachment::ProjectFolderGone.reason(),
        "its project folder is gone"
    );
}

#[test]
fn workspace_delete_refuses_a_checkout_outside_the_project_worktree_root() {
    let mut registry = SessionRegistry::new(true);
    let mut facts = ready_to_delete();
    facts.confinement = Some(Confinement {
        root: Some(r"\\?\C:\project.worktrees".to_string()),
        inside: false,
    });
    let error = done(registry.workspace_delete("w.1", true, &facts))
        .expect_err("must not git-remove a path outside the worktree root");
    assert_eq!(error.code, ErrorCode::InvalidRequest);
    assert_eq!(
        error.message,
        r"Checkout 'C:\project.worktrees\a' is not inside worktree root 'C:\project.worktrees'."
    );
    assert!(matches!(
        error.details,
        Some(ErrorDetails::WorktreeNotConfined { .. })
    ));
    facts.confinement = Some(Confinement {
        root: None,
        inside: false,
    });
    let error = done(registry.workspace_delete("w.1", true, &facts)).expect_err("no parent");
    assert_eq!(
        error.message,
        "Project has no parent directory for a sibling worktree."
    );
}

#[test]
fn local_workspace_delete_does_not_remove_the_project_folder() {
    let mut registry = SessionRegistry::new(true);
    let facts = DeleteFacts {
        workspace: Some(Ok(Some(workspace(
            WorkspaceIsolation::Local,
            r"C:\project",
            None,
        )))),
        ..delete_facts()
    };
    let error = done(registry.workspace_delete("w.1", false, &facts))
        .expect_err("local workspace must not be deleted as a worktree");
    assert_eq!(error.code, ErrorCode::InvalidRequest);
}

#[test]
fn a_delete_asks_one_thing_after_the_other() {
    let mut registry = SessionRegistry::new(true);
    let mut known = delete_facts();
    let full = ready_to_delete();
    assert!(matches!(
        registry.workspace_delete("w.1", false, &known),
        DeleteStep::ReadWorkspace
    ));
    known.workspace = full.workspace;
    match registry.workspace_delete("w.1", false, &known) {
        DeleteStep::ReadProject { project_id } => assert_eq!(project_id, "p.1"),
        other => panic!("{other:?}"),
    }
    known.project = full.project;
    match registry.workspace_delete("w.1", false, &known) {
        DeleteStep::ProbeProjectFolder { path } => assert_eq!(path, r"\\?\C:\project"),
        other => panic!("{other:?}"),
    }
    known.project_is_dir = Some(true);
    assert!(matches!(
        registry.workspace_delete("w.1", false, &known),
        DeleteStep::Confine { .. }
    ));
    known.confinement = full.confinement;
    match registry.workspace_delete("w.1", false, &known) {
        DeleteStep::Identify { branch, .. } => assert_eq!(branch, "feature/a"),
        other => panic!("{other:?}"),
    }
    known.identity = Some(Ok(WorktreeIdentity::Missing));
    assert!(matches!(
        registry.workspace_delete("w.1", false, &known),
        DeleteStep::ProbeDirty { .. }
    ));
    assert!(matches!(
        registry.workspace_delete("w.1", true, &known),
        DeleteStep::RemoveWorktree { force: true, .. }
    ));
    known.dirty = Some(CheckoutProbe::Unknown);
    assert!(matches!(
        registry.workspace_delete("w.1", false, &known),
        DeleteStep::RemoveWorktree { force: false, .. }
    ));
    known.removal = Some(Ok(()));
    assert!(matches!(
        registry.workspace_delete("w.1", false, &known),
        DeleteStep::DeleteRow { detached: None }
    ));
    known.row_deleted = Some(Err(journal("no")));
    let error = done(registry.workspace_delete("w.1", false, &known)).expect_err("journal");
    assert_eq!((error.code, error.message.as_str()), (ErrorCode::Journal, "no"));
    known.row_deleted = Some(Ok(()));
    done(registry.workspace_delete("w.1", false, &known)).expect("deleted");
}

#[test]
fn force_overrides_dirt_but_neither_a_lock_nor_a_mismatch() {
    let mut registry = SessionRegistry::new(true);
    let mut facts = ready_to_delete();
    facts.identity = Some(Ok(WorktreeIdentity::Locked));
    let error = done(registry.workspace_delete("w.1", true, &facts)).expect_err("locked");
    assert_eq!(
        error.message,
        r"Worktree 'C:\project.worktrees\a' is locked. Unlock it before removing; --force does not override a lock."
    );
    assert!(matches!(
        error.details,
        Some(ErrorDetails::WorktreeLocked { .. })
    ));
    facts.identity = Some(Ok(WorktreeIdentity::BranchMismatch { observed: None }));
    let error = done(registry.workspace_delete("w.1", true, &facts)).expect_err("mismatch");
    assert_eq!(
        error.message,
        r"Worktree at 'C:\project.worktrees\a' is branch '(detached)', not 'feature/a'. Refusing to remove another workspace's checkout."
    );
    facts.identity = Some(Err("git died".to_string()));
    let error = done(registry.workspace_delete("w.1", true, &facts)).expect_err("listing");
    assert_eq!(
        error.message,
        "Could not list worktrees for 'w.1': git died"
    );
    let mut facts = ready_to_delete();
    facts.dirty = Some(CheckoutProbe::Dirty {
        message: "dirty!".to_string(),
    });
    let error = done(registry.workspace_delete("w.1", false, &facts)).expect_err("dirty");
    assert_eq!(error.message, "dirty!");
    assert!(matches!(
        error.details,
        Some(ErrorDetails::WorktreeDirty {
            force_required: true,
            ..
        })
    ));
    facts.removal = Some(Err(RemovalError::Dirty {
        message: "still dirty".to_string(),
    }));
    let error = done(registry.workspace_delete("w.1", true, &facts)).expect_err("dirty");
    assert_eq!(error.message, "still dirty");
    facts.removal = Some(Err(RemovalError::Failed {
        error: "busy".to_string(),
    }));
    let error = done(registry.workspace_delete("w.1", true, &facts)).expect_err("failed");
    assert_eq!(error.message, "Could not remove worktree 'w.1': busy");
    let mut closed = SessionRegistry::new(false);
    let error = done(closed.workspace_delete("w.1", true, &facts)).expect_err("closed");
    assert_eq!(error.code, ErrorCode::Journal);
    facts.workspace = Some(Ok(None));
    let error = done(registry.workspace_delete("w.1", true, &facts)).expect_err("gone");
    assert_eq!(
        error.message,
        "Workspace 'w.1' is unavailable: it does not exist."
    );
}

#[test]
fn loser_cleanup_attempts_a_missing_path_and_keeps_a_mismatch() {
    assert!(loser_checkout_cleanup(&Ok(WorktreeIdentity::Missing), &None).is_none());
    assert!(matches!(
        loser_checkout_cleanup(&Ok(WorktreeIdentity::Missing), &Some(Ok(()))),
        Some(LoserCleanup::Removed)
    ));
    match loser_checkout_cleanup(&Ok(WorktreeIdentity::Missing), &Some(Err("x".to_string()))) {
        Some(LoserCleanup::RemoveFailed(error)) => assert_eq!(error, "x"),
        other => panic!("{other:?}"),
    }
    let foreign = WorktreeIdentity::BranchMismatch {
        observed: Some("guard-branch".to_string()),
    };
    for listing in [
        Ok(foreign),
        Ok(WorktreeIdentity::Match),
        Ok(WorktreeIdentity::Locked),
        Err("doubt".to_string()),
    ] {
        assert!(matches!(
            loser_checkout_cleanup(&listing, &None),
            Some(LoserCleanup::KeptLive)
        ));
    }
}

#[test]
fn a_killed_add_repairs_exactly_its_recorded_debris() {
    let debris = r"\\?\C:\KillProject\debris-checkout";
    assert!(matches!(
        repair_killed_worktree_add("p.kill", debris, &None, &None),
        RepairStep::Remove
    ));
    assert!(matches!(
        repair_killed_worktree_add("p.kill", debris, &Some(Ok(())), &None),
        RepairStep::Prune
    ));
    let said = |removed, pruned| match repair_killed_worktree_add("p.kill", debris, &removed, &pruned)
    {
        RepairStep::Said(message) => message,
        other => panic!("{other:?}"),
    };
    let message = said(Some(Ok(())), Some(Ok(())));
    assert!(
        message.contains("removed the partial checkout") && message.contains("pruned"),
        "the repair is reported: {message}"
    );
    assert_eq!(
        said(Some(Ok(())), Some(Err("no".to_string()))),
        r"Could not add git worktree for 'p.kill': git timed out; removed the partial checkout at 'C:\KillProject\debris-checkout' but pruning failed (no)"
    );
    assert_eq!(
        said(Some(Err("in use".to_string())), None),
        r"Could not add git worktree for 'p.kill': git timed out; leftover checkout at 'C:\KillProject\debris-checkout' (in use)"
    );
}

#[test]
fn a_killed_add_is_repaired_only_by_the_call_that_recorded_it() {
    let mut registry = SessionRegistry::new(true);
    let mut facts = ready_to_add();
    let branch = Some("feature");
    let tree = WorkspaceIsolation::Worktree;
    match registry.workspace_create(Platform::Windows, "p.1", tree, branch, &facts) {
        CreateStep::AddWorktree {
            repo,
            checkout,
            branch,
        } => {
            assert_eq!(repo, r"C:\project");
            assert_eq!(checkout, r"C:\project.worktrees\feature");
            assert_eq!(branch, "feature");
        }
        other => panic!("{other:?}"),
    }
    assert!(registry.is_worktree_add_start(r"C:\project.worktrees\feature"));
    facts.added = Some(Err(AddError {
        timed_out: true,
        text: "git timed out".to_string(),
    }));
    assert!(matches!(
        registry.workspace_create(Platform::Windows, "p.1", tree, branch, &facts),
        CreateStep::RemoveLeftover {
            repairing: true,
            ..
        }
    ));
    assert!(registry.worktree_add_in_flight.is_none());
    facts.repairing = true;
    facts.leftover_removed = Some(Ok(()));
    assert!(matches!(
        registry.workspace_create(Platform::Windows, "p.1", tree, branch, &facts),
        CreateStep::Prune { .. }
    ));
    facts.pruned = Some(Ok(()));
    match registry.workspace_create(Platform::Windows, "p.1", tree, branch, &facts) {
        CreateStep::Done(Err(error)) => assert!(error.message.ends_with("and pruned")),
        other => panic!("{other:?}"),
    }
    // Without the record the listing decides.
    facts.repairing = false;
    facts.leftover_removed = None;
    assert!(matches!(
        registry.workspace_create(Platform::Windows, "p.1", tree, branch, &facts),
        CreateStep::ListWorktrees { .. }
    ));
}

#[test]
fn a_lost_add_keeps_what_is_live() {
    let mut registry = SessionRegistry::new(true);
    let mut facts = ready_to_add();
    facts.added = Some(Err(AddError {
        timed_out: false,
        text: "branch exists".to_string(),
    }));
    facts.listing = Some(Ok(WorktreeIdentity::Match));
    let tree = WorkspaceIsolation::Worktree;
    let said = |registry: &mut SessionRegistry, facts: &CreateFacts| {
        match registry.workspace_create(Platform::Windows, "p.1", tree, Some("feature"), facts) {
            CreateStep::Done(Err(error)) => error.message,
            other => panic!("{other:?}"),
        }
    };
    assert_eq!(
        said(&mut registry, &facts),
        r"Could not add git worktree for 'p.1': branch exists; the existing checkout at 'C:\project.worktrees\feature' was left alone"
    );
    facts.listing = Some(Ok(WorktreeIdentity::Missing));
    assert!(matches!(
        registry.workspace_create(Platform::Windows, "p.1", tree, Some("feature"), &facts),
        CreateStep::RemoveLeftover {
            repairing: false,
            ..
        }
    ));
    facts.leftover_removed = Some(Ok(()));
    assert_eq!(
        said(&mut registry, &facts),
        "Could not add git worktree for 'p.1': branch exists"
    );
    facts.leftover_removed = Some(Err("busy".to_string()));
    assert_eq!(
        said(&mut registry, &facts),
        r"Could not add git worktree for 'p.1': branch exists; leftover checkout at 'C:\project.worktrees\feature' (busy)"
    );
}

#[test]
fn a_created_worktree_is_stored_remembered_and_undone_when_refused() {
    let mut registry = SessionRegistry::new(true);
    let tree = WorkspaceIsolation::Worktree;
    let mut facts = ready_to_add();
    facts.generated_branch = Some("quiet-otter".to_string());
    facts.added = Some(Ok(()));
    match registry.workspace_create(Platform::Windows, "p.1", tree, Some("  "), &facts) {
        CreateStep::Settle { checkout } => assert_eq!(checkout, r"C:\project.worktrees\feature"),
        other => panic!("{other:?}"),
    }
    facts.settled_checkout = Some(r"\\?\C:\project.worktrees\feature".to_string());
    match registry.workspace_create_titled(Platform::Windows, "p.1", tree, None, Some(" Mine "), &facts) {
        CreateStep::StoreRow(row) => {
            assert_eq!(row.title, "Mine");
            assert_eq!(row.branch.as_deref(), Some("quiet-otter"));
            assert_eq!(row.path, r"\\?\C:\project.worktrees\feature");
        }
        other => panic!("{other:?}"),
    }
    facts.stored = Some(Err(journal("full")));
    assert!(matches!(
        registry.workspace_create(Platform::Windows, "p.1", tree, None, &facts),
        CreateStep::UndoAdd { .. }
    ));
    facts.undone = Some(Err("locked".to_string()));
    match registry.workspace_create(Platform::Windows, "p.1", tree, None, &facts) {
        CreateStep::Done(Err(error)) => {
            assert_eq!(error.code, ErrorCode::Journal);
            assert_eq!(
                error.message,
                r"full; leftover checkout at 'C:\project.worktrees\feature' (locked)"
            );
        }
        other => panic!("{other:?}"),
    }
    facts.undone = Some(Ok(()));
    match registry.workspace_create(Platform::Windows, "p.1", tree, None, &facts) {
        CreateStep::Done(Err(error)) => assert_eq!(error.message, "full"),
        other => panic!("{other:?}"),
    }
    facts.stored = Some(Ok(workspace(tree, r"\\?\C:\project.worktrees\feature", None)));
    match registry.workspace_create(Platform::Windows, "p.1", tree, None, &facts) {
        CreateStep::Done(Ok(row)) => assert_eq!(row.path, r"C:\project.worktrees\feature"),
        other => panic!("{other:?}"),
    }
    assert_eq!(
        registry.cached_workspace_path("w.1").map(String::as_str),
        Some(r"\\?\C:\project.worktrees\feature")
    );
}

#[test]
fn a_create_asks_about_its_project_first() {
    let mut registry = SessionRegistry::new(true);
    let local = WorkspaceIsolation::Local;
    let mut facts = create_facts();
    assert!(matches!(
        registry.workspace_create(Platform::Windows, "p.1", local, None, &facts),
        CreateStep::ReadProject
    ));
    facts.project = Some(Ok(None));
    match registry.workspace_create(Platform::Windows, "p.1", local, None, &facts) {
        CreateStep::Done(Err(error)) => {
            assert_eq!(error.message, "Project 'p.1' does not exist.");
        }
        other => panic!("{other:?}"),
    }
    facts.project = Some(Ok(Some(project(r"\\?\C:\project"))));
    facts.project_is_dir = Some(false);
    match registry.workspace_create(Platform::Windows, "p.1", local, None, &facts) {
        CreateStep::Done(Err(error)) => assert_eq!(
            error.message,
            "Project 'p.1' is no longer an existing folder."
        ),
        other => panic!("{other:?}"),
    }
    facts.project_is_dir = Some(true);
    match registry.workspace_create(Platform::Windows, "p.1", local, None, &facts) {
        CreateStep::StoreRow(row) => {
            assert_eq!(row.title, "project");
            assert_eq!(row.path, r"\\?\C:\project");
        }
        other => panic!("{other:?}"),
    }
    let tree = WorkspaceIsolation::Worktree;
    assert!(matches!(
        registry.workspace_create(Platform::Windows, "p.1", tree, None, &facts),
        CreateStep::DetectGit { .. }
    ));
    facts.live_git = Some("repository".to_string());
    assert!(matches!(
        registry.workspace_create(Platform::Windows, "p.1", tree, None, &facts),
        CreateStep::GenerateBranch
    ));
    facts.generated_branch = Some("b".to_string());
    assert!(matches!(
        registry.workspace_create(Platform::Windows, "p.1", tree, None, &facts),
        CreateStep::PlaceCheckout { .. }
    ));
    facts.checkout = Some(None);
    match registry.workspace_create(Platform::Windows, "p.1", tree, None, &facts) {
        CreateStep::Done(Err(error)) => assert_eq!(
            error.message,
            "Project 'p.1' has no parent directory for a sibling worktree."
        ),
        other => panic!("{other:?}"),
    }
    facts.checkout = Some(Some(r"C:\project.worktrees\b".to_string()));
    match registry.workspace_create(Platform::Windows, "p.1", tree, None, &facts) {
        CreateStep::MakeRoot { root } => assert_eq!(root, r"C:\project.worktrees"),
        other => panic!("{other:?}"),
    }
    facts.root_made = Some(Err("denied".to_string()));
    match registry.workspace_create(Platform::Windows, "p.1", tree, None, &facts) {
        CreateStep::Done(Err(error)) => {
            assert_eq!(error.code, ErrorCode::Io);
            assert_eq!(
                error.message,
                r"Worktree directory 'C:\project.worktrees' is not writable: denied"
            );
        }
        other => panic!("{other:?}"),
    }
}

#[test]
fn lists_and_additions_go_through_the_journal() {
    let open = SessionRegistry::new(true);
    let closed = SessionRegistry::new(false);
    let rows = open
        .projects_list(Ok(vec![project(r"\\?\C:\a"), project(r"\\?\UNC\s\b")]))
        .expect("projects");
    let paths: Vec<&str> = rows.iter().map(|row| row.path.as_str()).collect();
    assert_eq!(paths, [r"C:\a", r"\\?\UNC\s\b"]);
    assert_eq!(
        closed.projects_list(Ok(Vec::new())).expect_err("closed").code,
        ErrorCode::Journal
    );
    assert_eq!(
        open.workspaces_list(Err(journal("x"))).expect_err("failed").message,
        "x"
    );
    let local = || workspace(WorkspaceIsolation::Local, r"\\?\C:\a", None);
    let rows = open.workspaces_list(Ok(vec![local()])).expect("workspaces");
    assert_eq!(rows[0].path, r"C:\a");
    let records = open.workspace_records(Ok(vec![local()])).expect("records");
    assert_eq!(records[0].path, r"\\?\C:\a");
    let resolved = || {
        Some(ResolvedPath {
            path: r"\\?\C:\a".to_string(),
            is_dir: true,
            name_is_text: true,
        })
    };
    match open.project_add(Platform::Windows, r"C:\a", resolved(), "repository", stamp(), None) {
        ProjectStep::Store(row) => assert_eq!(row.id, "p.1.2.3"),
        other => panic!("{other:?}"),
    }
    match open.project_add(
        Platform::Windows,
        r"C:\a",
        resolved(),
        "repository",
        stamp(),
        Some(Ok(project(r"\\?\C:\a"))),
    ) {
        ProjectStep::Done(Ok(row)) => assert_eq!(row.path, r"C:\a"),
        other => panic!("{other:?}"),
    }
    match closed.project_add(Platform::Windows, "relative", None, "repository", stamp(), None) {
        ProjectStep::Done(Err(error)) => assert_eq!(error.code, ErrorCode::InvalidRequest),
        other => panic!("{other:?}"),
    }
    match closed.project_add(Platform::Windows, r"C:\a", resolved(), "repository", stamp(), None) {
        ProjectStep::Done(Err(error)) => assert_eq!(error.code, ErrorCode::Journal),
        other => panic!("{other:?}"),
    }
}

#[test]
fn a_call_is_scoped_to_its_sessions_own_project() {
    let registry = SessionRegistry::new(true);
    match registry.caller_workspace_scope(Ok(None), &None) {
        ScopeStep::Done(Err(error)) => assert!(error.message.contains("no workspace")),
        other => panic!("{other:?}"),
    }
    let creator = || Ok(Some("w.1".to_string()));
    match registry.caller_workspace_scope(creator(), &None) {
        ScopeStep::ReadWorkspace { workspace_id } => assert_eq!(workspace_id, "w.1"),
        other => panic!("{other:?}"),
    }
    match registry.caller_workspace_scope(creator(), &Some(Ok(None))) {
        ScopeStep::Done(Err(error)) => assert!(error.message.contains("gone from the journal")),
        other => panic!("{other:?}"),
    }
    let row = Some(Ok(Some(workspace(WorkspaceIsolation::Local, "x", None))));
    match registry.caller_workspace_scope(creator(), &row) {
        ScopeStep::Done(Ok(pair)) => assert_eq!(pair, ("w.1".to_string(), "p.1".to_string())),
        other => panic!("{other:?}"),
    }
    match registry.project_name_and_path("p.1", &None, None) {
        NamedProjectStep::Ask(ProjectAsk::Read) => {}
        other => panic!("{other:?}"),
    }
    match registry.project_name_and_path("p.1", &Some(Ok(Some(project("x")))), Some(true)) {
        NamedProjectStep::Named { name, path } => {
            assert_eq!((name.as_str(), path.as_str()), ("project", "x"));
        }
        other => panic!("{other:?}"),
    }
}

#[test]
fn the_record_of_an_add_is_taken_once_and_only_by_its_own_checkout() {
    let mut registry = SessionRegistry::new(true);
    assert!(!registry.take_worktree_add_start(r"C:\trees\a"));
    registry.note_worktree_add_start(r"C:\trees\a");
    assert!(registry.take_worktree_add_start(r"C:\trees\a"));
    assert!(!registry.take_worktree_add_start(r"C:\trees\a"));
    registry.note_worktree_add_start(r"C:\trees\a");
    assert!(!registry.take_worktree_add_start(r"C:\trees\b"));
    assert!(registry.worktree_add_in_flight.is_none());
}
