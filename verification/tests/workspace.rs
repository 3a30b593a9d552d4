use devboule_daemon::platform::Platform;
use devboule_daemon::wire::ErrorCode;
use devboule_daemon::workspace::{
    canonical_directory, entity_id, is_canonical_candidate, local_workspace_record, plain_path,
    project_record, worktree_workspace_record, ResolvedPath, Stamp, WorkspaceIsolation,
};

fn stamp(counter: u64) -> Stamp {
    Stamp {
        now_ms: 0x1234,
        process_id: 255,
        counter,
    }
}

fn folder(path: &str) -> Option<ResolvedPath> {
    Some(ResolvedPath {
        path: path.to_string(),
        is_dir: true,
        name_is_text: true,
    })
}

#[test]
fn relative_project_path_is_rejected_before_canonicalization() {
    let error = canonical_directory(Platform::Windows, "relative-project", None).expect_err("relative path");
    assert_eq!(error.code, ErrorCode::InvalidRequest);
    assert!(error.message.contains("absolute"));
    // Whatever the disk would say of it.
    let error = canonical_directory(Platform::Windows, "relative-project", folder(r"C:\relative-project"))
        .expect_err("relative path");
    assert!(error.message.contains("absolute"));
    assert!(!is_canonical_candidate(Platform::Windows, "relative-project"));
}

#[test]
fn project_paths_are_refused_one_rule_after_the_other() {
    let said = |path: &str, resolved| {
        canonical_directory(Platform::Windows, path, resolved)
            .expect_err("refused")
            .message
    };
    assert_eq!(said(" \t", None), "Project path is required.");
    assert_eq!(said(r"C:temp", None), "Project path must be absolute.");
    assert_eq!(said(r"\temp", None), "Project path must be absolute.");
    assert_eq!(
        said(r"C:\gone", None),
        "Project path is not an existing folder."
    );
    let file = Some(ResolvedPath {
        path: r"\\?\C:\file".to_string(),
        is_dir: false,
        name_is_text: true,
    });
    assert_eq!(said(r"C:\file", file), "Project path is not a folder.");
    assert_eq!(
        canonical_directory(Platform::Windows, r"c:/work", folder(r"\\?\C:\work")).expect("folder"),
        r"\\?\C:\work"
    );
    for path in [
        r"C:\",
        r"\\server\share",
        r"\\?\C:\x",
        r"\\.\COM42",
        "//server/share/x",
    ] {
        assert!(is_canonical_candidate(Platform::Windows, path), "{path}");
    }
    for path in [r"\\server", r"\\", "C:", "x", ""] {
        assert!(!is_canonical_candidate(Platform::Windows, path), "{path}");
    }
}

#[test]
fn plain_path_keeps_the_prefix_when_a_middle_component_is_verbatim_only() {
    assert_eq!(plain_path(r"\\?\C:\release.\repo"), r"\\?\C:\release.\repo");
    assert_eq!(plain_path(r"\\?\C:\release \repo"), r"\\?\C:\release \repo");
    assert_eq!(
        plain_path(r"\\?\C:\repo\con.txt\src"),
        r"\\?\C:\repo\con.txt\src"
    );
    assert_eq!(plain_path(r"\\?\C:\repo\lpt3\src"), r"\\?\C:\repo\lpt3\src");
}

#[test]
fn plain_path_measures_the_windows_limit_in_utf16_units_and_the_nul() {
    let plain = format!(r"C:\{}", "é".repeat(130));
    assert!(
        plain.len() >= 260,
        "the fixture is over the byte count: {}",
        plain.len()
    );
    assert_eq!(plain_path(&format!(r"\\?\{plain}")), plain);
}

#[test]
fn plain_path_strips_only_a_short_drive_path_with_plain_safe_components() {
    assert_eq!(
        plain_path(r"\\?\C:\Users\alice\Project"),
        r"C:\Users\alice\Project"
    );
    assert_eq!(plain_path(r"\\?\C:\Project"), r"C:\Project");
    let deep = r"\\?\C:\";
    let long_tail = "word\\";
    let long = format!("{deep}{}", long_tail.repeat(60));
    assert!(plain_path(&long).starts_with(r"\\?\"));
    assert_eq!(plain_path(&long), long);
    assert_eq!(plain_path(r"\\?\C:\proj\CON"), r"\\?\C:\proj\CON");
    assert_eq!(plain_path(r"\\?\C:\proj\CON.txt"), r"\\?\C:\proj\CON.txt");
    assert_eq!(plain_path(r"\\?\C:\proj\lpt9"), r"\\?\C:\proj\lpt9");
    assert_eq!(plain_path(r"\\?\C:\proj\name."), r"\\?\C:\proj\name.");
    assert_eq!(plain_path(r"\\?\C:\proj\name "), r"\\?\C:\proj\name ");
    assert_eq!(
        plain_path(r"\\?\UNC\server\share\Project"),
        r"\\?\UNC\server\share\Project"
    );
    assert_eq!(plain_path(r"\\?\UNC\"), r"\\?\UNC\");
    assert_eq!(plain_path(r"\\?\UNC\server"), r"\\?\UNC\server");
    assert_eq!(plain_path(r"\\?\"), r"\\?\");
    assert_eq!(
        plain_path(r"\\?\Volume{abcd}\folder"),
        r"\\?\Volume{abcd}\folder"
    );
    assert_eq!(
        plain_path(r"C:\Users\alice\Project"),
        r"C:\Users\alice\Project"
    );
    assert_eq!(plain_path(r"relative\path"), r"relative\path");
}

#[test]
fn plain_path_counts_to_the_last_unit() {
    let fits = format!(r"\\?\C:\{}", "a".repeat(256));
    assert_eq!(plain_path(&fits), fits[4..]);
    let over = format!(r"\\?\C:\{}", "a".repeat(257));
    assert_eq!(plain_path(&over), over);
    let pairs = format!(r"\\?\C:\{}", "\u{1F600}".repeat(129));
    assert_eq!(plain_path(&pairs), pairs, "a pair counts as two units");
    assert_eq!(plain_path(r"\\?\C:\com0"), r"C:\com0");
    assert_eq!(plain_path(&plain_path(r"\\?\D:\a")), r"D:\a");
}

#[test]
fn records_are_named_stamped_and_numbered() {
    assert_eq!(entity_id("p", stamp(16)), "p.1234.ff.10");
    assert_ne!(entity_id("p", stamp(1)), entity_id("p", stamp(2)));
    let project = project_record(
        Platform::Windows,
        r"C:\work\My Project",
        folder(r"\\?\C:\work\My Project"),
        "repository",
        stamp(1),
    )
    .expect("record");
    assert_eq!(project.id, "p.1234.ff.1");
    assert_eq!(project.name, "My Project");
    assert_eq!(project.git_state, "repository");
    assert_eq!(project.path, r"\\?\C:\work\My Project");
    assert_eq!(project.created_at_ms, 0x1234);
    let local = local_workspace_record(&project, stamp(2));
    assert_eq!(local.id, "w.1234.ff.2");
    assert_eq!(local.title, "My Project");
    assert_eq!(local.isolation, WorkspaceIsolation::Local);
    assert_eq!(local.branch, None);
    let tree = worktree_workspace_record(&project, r"\\?\C:\work\x", "feature/a", stamp(3));
    assert_eq!(tree.title, "My Project (feature/a)");
    assert_eq!(tree.branch.as_deref(), Some("feature/a"));
    assert_eq!(tree.isolation, WorkspaceIsolation::Worktree);
    assert_eq!(tree.path, r"\\?\C:\work\x");
    let foreign = project_record(
        Platform::Windows,
        r"C:\odd",
        Some(ResolvedPath {
            path: "\\\\?\\C:\\od\u{fffd}".to_string(),
            is_dir: true,
            name_is_text: false,
        }),
        "x",
        stamp(5),
    )
    .expect("record");
    assert_eq!(foreign.name, "Project");
    assert_eq!(foreign.path, "\\\\?\\C:\\od\u{fffd}");
    let drive = project_record(Platform::Windows, r"C:\", folder(r"\\?\C:\"), "x", stamp(4)).expect("record");
    assert_eq!(drive.name, "Project", "a drive has no name of its own");
}

#[test]
fn off_windows_a_project_path_begins_with_a_slash() {
    assert!(is_canonical_candidate(Platform::Unix, "/home/me/app"));
    for path in [r"C:\app", r"\\server\share", "app", "~/app"] {
        assert!(!is_canonical_candidate(Platform::Unix, path), "{path}");
    }
    let project = project_record(
        Platform::Unix,
        "/home/me/app/",
        folder(r"/home/me/my\app"),
        "repository",
        stamp(1),
    )
    .expect("record");
    assert_eq!(project.name, r"my\app");
    assert_eq!(project.path, r"/home/me/my\app");
}
