use devboule_daemon::platform::Platform;
use std::collections::BTreeMap;

use devboule_daemon::workspace_entries::{
    answered, deletion_reply, erased, mutation_reply, names_git_metadata, usable_name, EntryStat,
    Refusal, Walked, DOES_NOT_EXIST, NAME_DOT, NAME_EMPTY, NAME_INVALID, NAME_SEPARATOR, NAME_TAKEN,
    NAME_TRAILING, NOT_PART_OF_THE_TREE, OUTSIDE_THE_WORKSPACE, THE_ROOT,
};
use devboule_daemon::workspace_file_delete::{
    deleted, final_path_inside, read_location, EntryDeleteFacts, EntryDeleteStep, LocationStep,
};
use devboule_daemon::workspace_file_duplicate::{
    copy_entry, copy_name_for, duplicated, file_copied, folder_copied, CopyRoad, CopySource,
    DuplicateFacts, DuplicateStep,
};
use devboule_daemon::workspace_file_preview::{
    clear, confirm_binding, copy_name, copy_of, name_by_digest, open_failure_sentence,
    preview_refused, previews_of, reset_folder, showable_extension, staged_copy, Binding,
    FolderRemoval, OpenedSource, PathStat, PreviewFacts, PreviewRefusal, PreviewStatus, PreviewStep,
    WorkspaceFilePreview, NOT_SHOWABLE,
};
use devboule_daemon::workspace_file_rename::{
    claim_then_move, renamed, ClaimFacts, ClaimStep, RenameFacts, RenameStep,
};

const ROOT: &str = r"C:\ws";
const PREVIEWS: &str = r"C:\run\previews";

#[derive(Clone, Debug, PartialEq)]
enum Node {
    Folder,
    File(String),
    Link,
}

/// A workspace folder in memory: entries by their path below the root, found
/// without regard to case, as on Windows.
struct Repo {
    entries: BTreeMap<String, Node>,
    index: Vec<String>,
    repository: bool,
    git_moves: usize,
    previews: BTreeMap<String, String>,
}

impl Repo {
    fn new() -> Self {
        let mut repo = Repo {
            entries: BTreeMap::new(),
            index: Vec::new(),
            repository: true,
            git_moves: 0,
            previews: BTreeMap::new(),
        };
        repo.write(".git/config", "[core]");
        repo
    }

    fn write(&mut self, relative: &str, contents: &str) {
        let parts: Vec<&str> = relative.split('/').collect();
        for end in 1..parts.len() {
            self.entries
                .entry(parts[..end].join("/"))
                .or_insert(Node::Folder);
        }
        self.entries
            .insert(relative.to_string(), Node::File(contents.to_string()));
    }

    fn link(&mut self, relative: &str) {
        self.entries.insert(relative.to_string(), Node::Link);
    }

    fn key(&self, relative: &str) -> Option<String> {
        self.entries
            .keys()
            .find(|key| key.eq_ignore_ascii_case(relative))
            .cloned()
    }

    fn node(&self, relative: &str) -> Option<&Node> {
        self.key(relative).and_then(|key| self.entries.get(&key))
    }

    fn holds(&self, relative: &str) -> bool {
        self.node(relative).is_some()
    }

    fn text(&self, relative: &str) -> String {
        match self.node(relative) {
            Some(Node::File(text)) => text.clone(),
            other => panic!("no file at {relative}: {other:?}"),
        }
    }

    /// The path below the root, from a path of the disk.
    fn relative(path: &str) -> String {
        path.strip_prefix(r"C:\ws\")
            .unwrap_or_else(|| panic!("{path} is outside the workspace"))
            .replace('\\', "/")
    }

    fn stat(&self, relative: &str) -> EntryStat {
        match self.node(relative) {
            Some(Node::Folder) => EntryStat {
                is_dir: true,
                is_file: false,
                len: 0,
                modified_at: None,
            },
            Some(Node::File(text)) => EntryStat {
                is_dir: false,
                is_file: true,
                len: text.len() as u64,
                modified_at: Some(5),
            },
            other => panic!("no stat at {relative}: {other:?}"),
        }
    }

    fn walk(&self, requested: &str) -> Walked {
        let names: Vec<&str> = requested
            .split(['/', '\\'])
            .filter(|name| !name.is_empty() && *name != ".")
            .collect();
        for end in 1..=names.len() {
            match self.node(&names[..end].join("/")) {
                None => return Walked::Missing,
                Some(Node::Link) if end == names.len() => return Walked::LinkFinal,
                Some(Node::Link) => return Walked::LinkCrossed,
                Some(_) => {}
            }
        }
        Walked::Inside(self.stat(&names.join("/")))
    }

    fn take(&mut self, relative: &str) -> Vec<(String, Node)> {
        let key = self.key(relative).expect("something to take");
        let below = format!("{key}/");
        let keys: Vec<String> = self
            .entries
            .keys()
            .filter(|k| **k == key || k.starts_with(&below))
            .cloned()
            .collect();
        keys.into_iter()
            .map(|k| {
                let node = self.entries.remove(&k).expect("a node");
                (k[key.len()..].to_string(), node)
            })
            .collect()
    }

    fn put(&mut self, relative: &str, nodes: Vec<(String, Node)>) {
        for (tail, node) in nodes {
            self.entries.insert(format!("{relative}{tail}"), node);
        }
    }

    fn delete(&mut self, requested: &str) -> Result<(), String> {
        let mut facts = EntryDeleteFacts {
            walked: None,
            opened: None,
            root: None,
            resolved: None,
            removed: None,
        };
        let mut opened = String::new();
        loop {
            match deleted(Platform::Windows, ROOT, requested, &facts) {
                EntryDeleteStep::Walk => facts.walked = Some(self.walk(requested)),
                EntryDeleteStep::Open { target, .. } => {
                    opened = target;
                    facts.opened = Some(true);
                }
                EntryDeleteStep::Locate => {
                    facts.root = Some(Some(format!(r"\\?\{ROOT}")));
                    facts.resolved = Some(Some(format!(r"\\?\{opened}")));
                }
                EntryDeleteStep::Remove { target, folder } => {
                    let relative = Self::relative(&target);
                    assert_eq!(folder, self.stat(&relative).is_dir);
                    self.take(&relative);
                    facts.removed = Some(true);
                }
                EntryDeleteStep::Done(answer) => {
                    return answer.map_err(|refusal| refusal.sentence().to_string())
                }
            }
        }
    }

    fn claim(&mut self, source: &str, destination: &str) -> Result<(), Refusal> {
        let mut facts = claim_facts();
        loop {
            match claim_then_move(&facts) {
                ClaimStep::StatSource => {
                    facts.source_is_dir = Some(
                        self.node(source)
                            .map(|node| matches!(node, Node::Folder)),
                    );
                }
                ClaimStep::MakeDir => {
                    let free = !self.holds(destination);
                    if free {
                        self.entries.insert(destination.to_string(), Node::Folder);
                    }
                    facts.made_dir = Some(free);
                }
                ClaimStep::Rename | ClaimStep::RenameAgain => {
                    let nodes = self.take(source);
                    self.put(destination, nodes);
                    facts.renamed = Some(true);
                }
                ClaimStep::Release => panic!("the first rename succeeds here"),
                ClaimStep::HardLink => {
                    let free = !self.holds(destination);
                    if free {
                        let node = self.node(source).cloned().expect("source");
                        self.entries.insert(destination.to_string(), node);
                    }
                    facts.linked = Some(free);
                }
                ClaimStep::StatDestination => {
                    facts.destination_exists = Some(self.holds(destination));
                }
                ClaimStep::FallBack => panic!("links work here"),
                ClaimStep::RemoveSource => {
                    self.take(source);
                    facts.source_removed = Some(true);
                }
                ClaimStep::RollBack => panic!("the source goes"),
                ClaimStep::Done(answer) => return answer,
            }
        }
    }

    fn rename(&mut self, requested: &str, name: &str) -> Result<String, String> {
        let mut facts = RenameFacts {
            walked: None,
            destination_exists: None,
            same_entry: None,
            repository: None,
            in_index: None,
            moved_by_git: None,
            moved: None,
        };
        loop {
            match renamed(Platform::Windows, ROOT, requested, name, &facts) {
                RenameStep::Walk => facts.walked = Some(self.walk(requested)),
                RenameStep::StatDestination { destination } => {
                    facts.destination_exists = Some(self.holds(&Self::relative(&destination)));
                }
                RenameStep::CompareCanonical {
                    source,
                    destination,
                } => {
                    facts.same_entry = Some(
                        self.key(&Self::relative(&source))
                            == self.key(&Self::relative(&destination)),
                    );
                }
                RenameStep::ProbeRepository => facts.repository = Some(self.repository),
                RenameStep::ListTracked { path } => {
                    facts.in_index = Some(Ok(self.index.contains(&path)));
                }
                RenameStep::GitMove { old_path, new_path } => {
                    let nodes = self.take(&old_path);
                    self.put(&new_path, nodes);
                    self.git_moves += 1;
                    facts.moved_by_git = Some(Ok(()));
                }
                RenameStep::RenameCase {
                    source,
                    destination,
                } => {
                    let nodes = self.take(&Self::relative(&source));
                    self.put(&Self::relative(&destination), nodes);
                    facts.moved = Some(Ok(()));
                }
                RenameStep::ClaimThenMove {
                    source,
                    destination,
                } => {
                    facts.moved =
                        Some(self.claim(&Self::relative(&source), &Self::relative(&destination)));
                }
                RenameStep::Done(answer) => return answer.map_err(|error| error.sentence()),
            }
        }
    }

    fn copy(&mut self, source: &str, destination: &str) -> Result<(), Refusal> {
        let stat = self.node(source).map(|node| CopySource {
            is_link: *node == Node::Link,
            is_dir: *node == Node::Folder,
            is_file: matches!(node, Node::File(_)),
        });
        match copy_entry(stat) {
            CopyRoad::Refused(refusal) => Err(refusal),
            CopyRoad::File => {
                let node = self.node(source).cloned().expect("a file");
                self.entries.insert(destination.to_string(), node);
                file_copied(true, true, true).outcome
            }
            CopyRoad::Folder => {
                self.entries.insert(destination.to_string(), Node::Folder);
                let below = format!("{source}/");
                let children: Vec<String> = self
                    .entries
                    .keys()
                    .filter(|key| key.starts_with(&below) && !key[below.len()..].contains('/'))
                    .cloned()
                    .collect();
                let mut outcome = Ok(());
                for child in children {
                    let name = child[below.len()..].to_string();
                    outcome = self.copy(&child, &format!("{destination}/{name}"));
                    if outcome.is_err() {
                        break;
                    }
                }
                let end = folder_copied(true, outcome);
                if end.remove_copy {
                    self.take(destination);
                }
                end.outcome
            }
        }
    }

    fn duplicate(&mut self, requested: &str) -> Result<String, String> {
        let mut facts = DuplicateFacts {
            walked: None,
            attempt: 1,
            candidate_taken: None,
            copied: None,
        };
        loop {
            match duplicated(Platform::Windows, ROOT, requested, &facts) {
                DuplicateStep::Walk => facts.walked = Some(self.walk(requested)),
                DuplicateStep::StatCandidate { destination } => {
                    facts.candidate_taken = Some(self.holds(&Self::relative(&destination)));
                }
                DuplicateStep::NextAttempt { attempt } => {
                    facts.attempt = attempt;
                    facts.candidate_taken = None;
                }
                DuplicateStep::Copy {
                    source,
                    destination,
                } => {
                    facts.copied =
                        Some(self.copy(&Self::relative(&source), &Self::relative(&destination)));
                }
                DuplicateStep::Done(answer) => {
                    return answer.map_err(|refusal| refusal.sentence().to_string())
                }
            }
        }
    }

    fn stage(&mut self, requested: &str) -> WorkspaceFilePreview {
        let images = ["png".to_string(), "jpg".to_string()];
        let mut facts = preview_facts();
        loop {
            match copy_of(Platform::Windows, ROOT, requested, PREVIEWS, &images, &facts) {
                PreviewStep::Walk => facts.walked = Some(self.walk(requested)),
                PreviewStep::OpenSource { target } => {
                    let stat = self.stat(&Self::relative(&target));
                    facts.opened = Some(OpenedSource::Opened {
                        is_link: false,
                        is_file: stat.is_file,
                        len: stat.len,
                        modified_at: stat.modified_at,
                    });
                    facts.binding = Some(Binding::Location {
                        root: Some(format!(r"\\?\{ROOT}")),
                        resolved: Some(format!(r"\\?\{target}")),
                    });
                }
                PreviewStep::StatPath { .. } | PreviewStep::Bind => panic!("it opens here"),
                PreviewStep::ResetFolder => {
                    self.previews.clear();
                    facts.folder_reset = Some(reset_folder(FolderRemoval::Removed, true));
                }
                PreviewStep::Create { destination } => {
                    self.previews.insert(destination, String::new());
                    facts.created = Some(true);
                }
                PreviewStep::CopyBytes { destination } => {
                    self.previews.insert(destination, self.text(requested));
                    facts.copied = Some(true);
                }
                PreviewStep::RemoveHalf { .. } => panic!("the copy succeeds here"),
                PreviewStep::Staged {
                    destination,
                    size,
                    modified_at,
                } => return staged_copy(destination, size, modified_at),
                PreviewStep::Refused(refusal) => {
                    return preview_refused(refusal.sentence().to_string())
                }
            }
        }
    }
}

fn claim_facts() -> ClaimFacts {
    ClaimFacts {
        source_is_dir: None,
        made_dir: None,
        renamed: None,
        released: None,
        renamed_again: None,
        linked: None,
        destination_exists: None,
        fell_back: None,
        source_removed: None,
        rolled_back: false,
    }
}

fn preview_facts() -> PreviewFacts {
    PreviewFacts {
        walked: None,
        opened: None,
        path_stat: None,
        binding: None,
        folder_reset: None,
        created: None,
        copied: None,
        half_removed: false,
    }
}

fn assert_no_root(error: &str) {
    assert!(!error.contains(ROOT), "the root leaked: {error}");
    assert!(
        !error.contains('/') && !error.contains('\\') && !error.contains(':'),
        "a path leaked: {error}"
    );
}

#[test]
fn a_file_is_deleted_and_the_reply_names_nothing() {
    let mut repo = Repo::new();
    repo.write("old-notes.txt", "gone\n");

    repo.delete("old-notes.txt").expect("delete");

    assert!(!repo.holds("old-notes.txt"), "the file is gone");
    assert_eq!(deletion_reply(Ok(())), erased());
    assert_eq!(erased().new_path, None);
    assert_eq!(erased().error, None);
}

#[test]
fn a_folder_is_deleted_whole_with_its_children() {
    let mut repo = Repo::new();
    repo.write("src/lib.rs", "//\n");
    repo.write("src/deep/mod.rs", "\n");
    repo.write("src/notes.txt", "tracked or not\n");

    repo.delete("src").expect("delete folder");

    assert!(!repo.holds("src"), "the folder itself is gone");
    assert!(!repo.holds("src/lib.rs"));
    assert!(!repo.holds("src/deep/mod.rs"));
    assert!(!repo.holds("src/notes.txt"));
}

#[test]
fn the_workspaces_own_folder_is_never_deleted() {
    let mut repo = Repo::new();
    repo.write("a.txt", "a\n");

    for requested in ["", ".", "./"] {
        assert_eq!(
            repo.delete(requested).expect_err("refused"),
            THE_ROOT,
            "delete {requested:?}"
        );
    }
    assert!(repo.holds("a.txt"), "nothing inside was touched");
}

#[test]
fn the_repository_metadata_folder_is_never_deleted_in_any_spelling() {
    let mut repo = Repo::new();
    repo.write("a.txt", "a\n");

    for requested in [".git", ".GIT", ".git.", ".git ", ".git/config"] {
        let error = repo.delete(requested).expect_err("refused");
        assert_eq!(error, NOT_PART_OF_THE_TREE, "{requested:?}");
    }
    assert!(
        repo.holds(".git/config"),
        "the repository's metadata survived every spelling"
    );
    assert!(repo.holds("a.txt"), "nothing else was touched");
}

#[test]
fn a_link_is_refused_not_deleted_nor_followed() {
    let mut repo = Repo::new();
    repo.link("dirlink");
    repo.link("vanished.txt");
    for requested in ["dirlink", "dirlink/present.txt", "vanished.txt"] {
        let error = repo.delete(requested).expect_err("refused");
        let fragment = if requested == "dirlink" || requested == "vanished.txt" {
            "symbolic link"
        } else {
            "crosses a link"
        };
        assert!(error.contains(fragment), "{requested}: {error}");
        assert_no_root(&error);
    }
    assert!(repo.holds("dirlink") && repo.holds("vanished.txt"));
}

#[test]
fn a_missing_entry_is_refused_with_the_listings_own_sentence() {
    let mut repo = Repo::new();
    repo.write("once.txt", "x");
    let error = repo.delete("never-existed.txt").expect_err("refused");
    assert_eq!(error, DOES_NOT_EXIST);
    repo.delete("once.txt").expect("first");
    let error = repo.delete("once.txt").expect_err("second");
    assert_eq!(error, DOES_NOT_EXIST);
}

#[test]
fn workspace_file_delete_tests_no_refusal_sentence_carries_the_workspace_root() {
    let mut repo = Repo::new();

    let refusals = [
        repo.delete("").expect_err("root"),
        repo.delete(".").expect_err("root dotted"),
        repo.delete("../escape.txt").expect_err("outside"),
        repo.delete(".git/config").expect_err("git"),
        repo.delete("never-existed.txt").expect_err("missing"),
    ];
    for error in refusals {
        assert_no_root(&error);
    }
}

#[test]
fn a_delete_waits_for_the_handles_own_location() {
    let stat = EntryStat {
        is_dir: false,
        is_file: true,
        len: 1,
        modified_at: None,
    };
    let mut facts = EntryDeleteFacts {
        walked: Some(Walked::Inside(stat)),
        opened: None,
        root: None,
        resolved: None,
        removed: None,
    };
    match deleted(Platform::Windows, ROOT, "docs/a.txt", &facts) {
        EntryDeleteStep::Open { target, folder } => {
            assert_eq!(target, r"C:\ws\docs\a.txt");
            assert!(!folder);
        }
        other => panic!("{other:?}"),
    }
    facts.opened = Some(false);
    let done = |facts: &EntryDeleteFacts| match deleted(Platform::Windows, ROOT, "docs/a.txt", facts) {
        EntryDeleteStep::Done(Err(refusal)) => refusal,
        other => panic!("{other:?}"),
    };
    assert_eq!(done(&facts), Refusal::DeleteFailed);
    facts.opened = Some(true);
    assert!(matches!(
        deleted(Platform::Windows, ROOT, "docs/a.txt", &facts),
        EntryDeleteStep::Locate
    ));
    facts.root = Some(Some(r"\\?\C:\ws".to_string()));
    facts.resolved = Some(Some(r"\\?\C:\wsx\a.txt".to_string()));
    assert_eq!(done(&facts), Refusal::Outside);
    facts.resolved = Some(None);
    assert_eq!(done(&facts), Refusal::LocationUnconfirmed);
    facts.resolved = Some(Some(r"\\?\C:\ws\docs\a.txt".to_string()));
    facts.removed = Some(false);
    assert_eq!(done(&facts), Refusal::DeleteFailed);
    let here = |path: &str| Some(path.to_string());
    assert!(final_path_inside(&here(r"C:\a"), &here(r"c:\a\b")).is_ok());
    assert!(final_path_inside(&None, &here(r"C:\a")).is_err());
}

#[test]
fn off_windows_a_vouched_entry_is_removed_by_its_name() {
    let mut facts = EntryDeleteFacts {
        walked: None,
        opened: None,
        root: None,
        resolved: None,
        removed: None,
    };
    let step =
        |facts: &EntryDeleteFacts| deleted(Platform::Unix, "/home/me/ws", r"docs/a\b.txt", facts);
    assert!(matches!(step(&facts), EntryDeleteStep::Walk));
    facts.walked = Some(Walked::Inside(EntryStat {
        is_dir: false,
        is_file: true,
        len: 1,
        modified_at: None,
    }));
    match step(&facts) {
        EntryDeleteStep::Remove { target, folder } => {
            assert_eq!(target, r"/home/me/ws/docs/a\b.txt");
            assert!(!folder);
        }
        other => panic!("{other:?}"),
    }
    facts.removed = Some(true);
    assert!(matches!(step(&facts), EntryDeleteStep::Done(Ok(()))));
    facts.removed = Some(false);
    assert!(matches!(
        step(&facts),
        EntryDeleteStep::Done(Err(Refusal::DeleteFailed))
    ));
    facts.walked = Some(Walked::LinkFinal);
    assert!(matches!(
        step(&facts),
        EntryDeleteStep::Done(Err(Refusal::LinkFinal))
    ));
    assert!(matches!(
        deleted(Platform::Unix, "/home/me/ws", "/etc/passwd", &facts),
        EntryDeleteStep::Done(Err(Refusal::Outside))
    ));
    assert_eq!(previews_of(Platform::Unix, "/run"), "/run/previews");
    assert_eq!(usable_name(Platform::Unix, "x:y").expect("one name"), "x:y");
}

#[test]
fn a_copy_gets_the_least_free_number() {
    let mut facts = DuplicateFacts {
        walked: Some(Walked::Inside(EntryStat {
            is_dir: false,
            is_file: true,
            len: 1,
            modified_at: None,
        })),
        attempt: 1,
        candidate_taken: None,
        copied: None,
    };
    let mut seen = Vec::new();
    let taken = ["/ws/a copy.txt", "/ws/a copy 2.txt", "/ws/a copy 4.txt"];
    let copy = loop {
        match duplicated(Platform::Unix, "/ws", "a.txt", &facts) {
            DuplicateStep::StatCandidate { destination } => {
                facts.candidate_taken = Some(taken.contains(&destination.as_str()));
                seen.push(destination);
            }
            DuplicateStep::NextAttempt { attempt } => {
                facts.attempt = attempt;
                facts.candidate_taken = None;
            }
            DuplicateStep::Copy { destination, .. } => break destination,
            other => panic!("{other:?}"),
        }
    };
    assert_eq!(copy, "/ws/a copy 3.txt");
    assert_eq!(seen, ["/ws/a copy.txt", "/ws/a copy 2.txt", "/ws/a copy 3.txt"]);
}

#[test]
fn a_location_is_asked_for_with_a_larger_buffer_until_it_fits() {
    assert_eq!(read_location(0, 1024), LocationStep::Unconfirmed);
    assert_eq!(read_location(10, 1024), LocationStep::Located { units: 10 });
    assert_eq!(
        read_location(2000, 1024),
        LocationStep::Retry { units: 2000 }
    );
    assert_eq!(
        read_location(1024, 1024),
        LocationStep::Retry { units: 1025 }
    );
    assert_eq!(read_location(40_000, 1024), LocationStep::Unconfirmed);
}

#[test]
fn a_rename_moves_the_entry_and_the_reply_names_the_new_spelling() {
    let mut repo = Repo::new();
    repo.write("docs/guide.txt", "text\n");

    let new_path = repo.rename("docs/guide.txt", " guide.md ").expect("rename");

    assert_eq!(new_path, "docs/guide.md", "trimmed and /-joined");
    assert!(!repo.holds("docs/guide.txt"), "old spelling gone");
    assert_eq!(repo.text("docs/guide.md"), "text\n");
    assert_eq!(
        mutation_reply(Ok(new_path)),
        answered("docs/guide.md".to_string())
    );
    let refused = mutation_reply(Err("no".to_string()));
    assert_eq!(refused.new_path, None);
    assert_eq!(refused.error.as_deref(), Some("no"));
}

#[test]
fn a_new_name_with_a_path_separator_is_refused_with_the_separator_sentence() {
    let mut repo = Repo::new();
    repo.write("a.txt", "a\n");

    for name in ["sub/b.txt", "sub\\b.txt"] {
        let error = repo.rename("a.txt", name).expect_err("refused");
        assert_eq!(error, NAME_SEPARATOR, "{name}");
        assert!(repo.holds("a.txt"), "{name}: nothing moved");
        assert!(!repo.holds("sub"), "{name}: no folder was created");
    }
}

#[test]
fn an_empty_name_and_a_parent_spelling_are_refused() {
    let mut repo = Repo::new();
    repo.write("a.txt", "a\n");

    for (name, sentence) in [
        ("", NAME_EMPTY),
        ("   ", NAME_EMPTY),
        (".", NAME_DOT),
        ("..", NAME_DOT),
        ("trailing.", NAME_TRAILING),
    ] {
        let error = repo.rename("a.txt", name).expect_err("refused");
        assert_eq!(error, sentence, "{name:?}");
        assert!(repo.holds("a.txt"), "{name:?}: nothing moved");
    }
}

#[test]
fn a_name_that_parses_as_a_drive_path_is_refused_as_not_one_name() {
    let mut repo = Repo::new();
    repo.write("a.txt", "a\n");

    let error = repo.rename("a.txt", "C:x").expect_err("refused");

    assert_eq!(error, NAME_INVALID);
    assert!(repo.holds("a.txt"), "nothing moved");
    assert!(!repo.holds("x"), "nothing created");
    assert!(usable_name(Platform::Windows, " x:y ").is_err());
    assert_eq!(usable_name(Platform::Windows, "xy:z").expect("one name"), "xy:z");
}

#[test]
fn the_workspaces_own_folder_is_never_renamed_or_duplicated() {
    let mut repo = Repo::new();
    repo.write("a.txt", "a\n");

    for requested in ["", ".", "./"] {
        assert_eq!(
            repo.rename(requested, "elsewhere").expect_err("refused"),
            THE_ROOT,
            "rename {requested:?}"
        );
        assert_eq!(
            repo.duplicate(requested).expect_err("refused"),
            THE_ROOT,
            "duplicate {requested:?}"
        );
    }
}

#[test]
fn a_new_name_that_is_taken_is_refused_and_nothing_moves() {
    let mut repo = Repo::new();
    repo.write("a.txt", "a\n");
    repo.write("b.txt", "b\n");

    let error = repo.rename("a.txt", "b.txt").expect_err("refused");

    assert_eq!(error, NAME_TAKEN);
    assert_eq!(repo.text("a.txt"), "a\n");
    assert_eq!(repo.text("b.txt"), "b\n");
    assert_eq!(
        repo.rename("a.txt", "a.txt").expect_err("its own name"),
        NAME_TAKEN
    );
}

#[test]
fn a_rename_that_changes_only_the_case_is_allowed() {
    let mut repo = Repo::new();
    repo.write("cased.txt", "same\n");

    let new_path = repo.rename("cased.txt", "Cased.txt").expect("case-only rename");

    assert_eq!(new_path, "Cased.txt");
    assert!(repo.entries.contains_key("Cased.txt"));
    assert!(!repo.entries.contains_key("cased.txt"));
    assert_eq!(repo.text("Cased.txt"), "same\n");
}

#[test]
fn the_repository_metadata_folder_is_refused_in_every_spelling() {
    let mut repo = Repo::new();
    repo.write("a.txt", "a\n");

    for source in [".git", ".GIT", ".git/config"] {
        let error = repo.rename(source, "elsewhere").expect_err("refused");
        assert!(error.contains("not part of the tree"), "{source}: {error}");
        let duplicated_error = repo.duplicate(source).expect_err("refused");
        assert!(
            duplicated_error.contains("not part of the tree"),
            "{source}: {duplicated_error}"
        );
    }
    for destination in [".git", ".GIT.", ".git "] {
        let error = repo.rename("a.txt", destination).expect_err("refused");
        assert!(
            error.contains("not part of the tree"),
            "renaming TO {destination}: {error}"
        );
        assert!(repo.holds("a.txt"), "{destination}");
    }
    assert!(repo.holds(".git/config"), "nothing moved");
    assert!(names_git_metadata("docs\\.Git. .\\x"));
    assert!(!names_git_metadata(".gitignore"));
}

#[test]
fn a_tracked_file_is_renamed_through_git_so_the_act_lands_staged() {
    let mut repo = Repo::new();
    repo.write("tracked.txt", "one\n");
    repo.index.push("tracked.txt".to_string());

    let new_path = repo.rename("tracked.txt", "renamed.txt").expect("rename");

    assert_eq!(new_path, "renamed.txt");
    assert_eq!(repo.git_moves, 1, "the rename went through git");
    assert_eq!(repo.text("renamed.txt"), "one\n");
}

#[test]
fn an_untracked_entry_renames_without_touching_the_index() {
    let mut repo = Repo::new();
    repo.write("loose.txt", "loose\n");

    repo.rename("loose.txt", "moved.txt").expect("rename");

    assert!(!repo.holds("loose.txt"));
    assert!(repo.holds("moved.txt"));
    assert_eq!(repo.git_moves, 0, "an untracked rename stages nothing");
    repo.repository = false;
    repo.rename("moved.txt", "again.txt").expect("rename");
    assert!(repo.holds("again.txt"));
}

#[test]
fn a_second_duplicate_gets_the_numbered_name_and_never_overwrites() {
    let mut repo = Repo::new();
    repo.write("a.txt", "original\n");

    let first = repo.duplicate("a.txt").expect("first copy");
    assert_eq!(first, "a copy.txt");
    assert_eq!(repo.text("a copy.txt"), "original\n");
    repo.write("a copy.txt", "tampered\n");

    let second = repo.duplicate("a.txt").expect("second copy");
    assert_eq!(second, "a copy 2.txt");
    assert_eq!(repo.text("a copy 2.txt"), "original\n");
    assert_eq!(repo.text("a copy.txt"), "tampered\n");
    assert_eq!(repo.text("a.txt"), "original\n");
}

#[test]
fn copies_are_named_after_their_original() {
    let name = |original: &str, attempt| -> String {
        let chars: Vec<char> = original.chars().collect();
        copy_name_for(&chars, attempt).iter().collect()
    };
    assert_eq!(name("a.tar.gz", 1), "a.tar copy.gz");
    assert_eq!(name("a.tar.gz", 12), "a.tar copy 12.gz");
    assert_eq!(name(".env", 2), ".env copy 2");
    assert_eq!(name("plain", 1), "plain copy");
    assert_eq!(name("a.", 1), "a copy");
    assert_ne!(name("x", 1), name("x", 2));
}

#[test]
fn a_folder_duplicates_whole_and_renames_with_its_children() {
    let mut repo = Repo::new();
    repo.write("src/lib.rs", "//\n");
    repo.write("src/deep/mod.rs", "\n");

    let copied = repo.duplicate("src").expect("duplicate folder");
    assert_eq!(copied, "src copy");
    assert_eq!(repo.text("src copy/lib.rs"), "//\n");
    assert_eq!(repo.text("src copy/deep/mod.rs"), "\n");

    let moved = repo.rename("src", "crates-src").expect("rename folder");
    assert_eq!(moved, "crates-src");
    assert!(!repo.holds("src"));
    assert_eq!(repo.text("crates-src/deep/mod.rs"), "\n");
    assert!(!repo.holds("crates-src copy"));
}

#[test]
fn a_path_through_or_to_a_link_is_refused_with_the_walk_sentence() {
    let mut repo = Repo::new();
    repo.write("in.txt", "a\n");
    repo.link("dirlink");
    repo.link("vanished.txt");
    for requested in ["dirlink", "dirlink/present.txt", "vanished.txt"] {
        let fragment = if requested == "dirlink" || requested == "vanished.txt" {
            "symbolic link"
        } else {
            "crosses a link"
        };
        for error in [
            repo.rename(requested, "elsewhere").expect_err("refused"),
            repo.duplicate(requested).expect_err("refused"),
        ] {
            assert!(error.contains(fragment), "{requested}: {error}");
            assert_no_root(&error);
        }
    }
}

#[test]
fn a_folder_copy_that_meets_a_child_link_is_refused_and_leaves_nothing() {
    let mut repo = Repo::new();
    repo.write("tree/real.txt", "real\n");
    repo.link("tree/inner.txt");

    let error = repo.duplicate("tree").expect_err("refused");

    assert!(error.contains("nothing was copied"), "{error}");
    assert_no_root(&error);
    assert!(!repo.holds("tree copy"), "the partial copy was removed whole");
    assert_eq!(repo.text("tree/real.txt"), "real\n");
    assert!(file_copied(true, true, false).remove_copy);
    assert!(!file_copied(true, false, false).remove_copy);
    assert!(file_copied(false, false, false).outcome.is_err());
    assert!(folder_copied(false, Ok(())).outcome.is_err());
    assert!(matches!(
        copy_entry(None),
        CopyRoad::Refused(Refusal::CopyFailed)
    ));
}

#[test]
fn a_destination_created_after_the_stat_is_refused_not_replaced() {
    let mut repo = Repo::new();
    repo.write("src.txt", "source\n");
    repo.write("dst.txt", "concurrent\n");

    let error = repo
        .claim("src.txt", "dst.txt")
        .expect_err("the claim must lose honestly");

    assert_eq!(error.sentence(), NAME_TAKEN);
    assert_eq!(repo.text("dst.txt"), "concurrent\n");
    assert_eq!(repo.text("src.txt"), "source\n");

    repo.write("tree/inner.txt", "tree\n");
    repo.write("raced/inner.txt", "raced\n");
    let error = repo
        .claim("tree", "raced")
        .expect_err("the folder claim must lose honestly");
    assert_eq!(error.sentence(), NAME_TAKEN);
    assert_eq!(repo.text("tree/inner.txt"), "tree\n");
    assert_eq!(repo.text("raced/inner.txt"), "raced\n");
}

#[test]
fn a_claim_is_released_or_rolled_back() {
    let mut folder = claim_facts();
    folder.source_is_dir = Some(Some(true));
    assert_eq!(claim_then_move(&folder), ClaimStep::MakeDir);
    folder.made_dir = Some(true);
    folder.renamed = Some(false);
    assert_eq!(claim_then_move(&folder), ClaimStep::Release);
    folder.released = Some(true);
    assert_eq!(claim_then_move(&folder), ClaimStep::RenameAgain);
    folder.renamed_again = Some(true);
    assert_eq!(claim_then_move(&folder), ClaimStep::Done(Ok(())));
    folder.renamed_again = Some(false);
    folder.destination_exists = Some(false);
    assert_eq!(
        claim_then_move(&folder),
        ClaimStep::Done(Err(Refusal::RenameFailed))
    );
    let mut file = claim_facts();
    file.source_is_dir = Some(Some(false));
    file.linked = Some(false);
    file.destination_exists = Some(false);
    assert_eq!(claim_then_move(&file), ClaimStep::FallBack);
    file.linked = Some(true);
    file.source_removed = Some(false);
    assert_eq!(claim_then_move(&file), ClaimStep::RollBack);
    file.rolled_back = true;
    assert_eq!(
        claim_then_move(&file),
        ClaimStep::Done(Err(Refusal::RenameFailed))
    );
    let mut gone = claim_facts();
    gone.source_is_dir = Some(None);
    assert_eq!(
        claim_then_move(&gone),
        ClaimStep::Done(Err(Refusal::RenameFailed))
    );
}

#[test]
fn workspace_file_mutations_tests_no_refusal_sentence_carries_the_workspace_root() {
    let mut repo = Repo::new();
    repo.write("src/lib.rs", "//\n");
    repo.write("taken.txt", "t\n");

    let refusals = [
        repo.rename("", "other").expect_err("root"),
        repo.rename("../escape.txt", "other").expect_err("outside"),
        repo.rename(".git/config", "other").expect_err("git"),
        repo.rename("never-existed.txt", "other").expect_err("missing"),
        repo.rename("src/lib.rs", "sub/name").expect_err("separator"),
        repo.rename("taken.txt", "src").expect_err("collision"),
        repo.duplicate("never-existed.txt").expect_err("missing"),
        repo.duplicate("../escape.txt").expect_err("outside"),
    ];
    for error in refusals {
        assert_no_root(&error);
    }
}

#[test]
fn a_staged_copy_rests_in_the_folder_with_the_sources_bytes_and_stat() {
    let mut repo = Repo::new();
    repo.write("shot.png", "PNG bytes");

    let staged = repo.stage("shot.png");

    assert_eq!(staged.status, PreviewStatus::Staged);
    assert_eq!(staged.error, None, "a success carries no sentence");
    let destination = staged.path.clone().expect("a success names its copy");
    assert!(destination.starts_with(r"C:\run\previews\"), "{destination}");
    assert!(destination.ends_with(".png"), "{destination}");
    assert_eq!(repo.previews.get(&destination).map(String::as_str), Some("PNG bytes"));
    assert_eq!(staged.size, Some(9));
    assert_eq!(staged.modified_at, Some(5));

    let again = repo.stage("shot.png");
    assert_eq!(again.path, staged.path, "the same unchanged file keeps its path");
}

#[test]
fn every_refusal_the_read_makes_refuses_a_stage_and_copies_nothing() {
    let mut repo = Repo::new();
    repo.write("in.png", "x");

    let cases: [(&str, &str); 12] = [
        ("", "not a file"),
        (".", "not a file"),
        ("./", "not a file"),
        ("../escape.png", "outside the workspace folder"),
        ("/absolute/escape.png", "outside the workspace folder"),
        (".git", "not part of the tree"),
        (".GIT", "not part of the tree"),
        (".git.", "not part of the tree"),
        (".git ", "not part of the tree"),
        (".git/config", "not part of the tree"),
        (".GIT/config", "not part of the tree"),
        ("never-existed.png", "does not exist"),
    ];
    for (requested, fragment) in cases {
        let staged = repo.stage(requested);
        assert_eq!(staged.status, PreviewStatus::Refused, "{requested:?}");
        assert_eq!(staged.path, None, "{requested:?}");
        assert_eq!(staged.size, None, "a refusal claims nothing: {requested:?}");
        let error = staged.error.as_deref().expect("the refusal says why");
        assert!(error.contains(fragment), "{requested:?}: {error}");
        assert_no_root(error);
    }
    assert!(repo.previews.is_empty());
}

#[test]
fn a_folder_whose_name_ends_in_a_shown_extension_is_not_a_file() {
    let mut repo = Repo::new();
    repo.write("album.png/inner.png", "x");

    let staged = repo.stage("album.png");

    assert_eq!(staged.status, PreviewStatus::Refused);
    let error = staged.error.as_deref().expect("the refusal says why");
    assert!(error.contains("not a file"), "{error}");
    assert!(repo.previews.is_empty());
}

#[test]
fn a_file_the_panel_never_draws_is_not_staged() {
    let mut repo = Repo::new();
    repo.write("secrets.txt", "token=1\n");
    repo.write("logo.svg", "<svg/>");

    for requested in ["secrets.txt", "logo.svg"] {
        let staged = repo.stage(requested);
        assert_eq!(staged.status, PreviewStatus::Refused, "{requested}");
        let error = staged.error.as_deref().expect("the refusal says why");
        assert!(error.contains(NOT_SHOWABLE), "{requested}: {error}");
        assert_no_root(error);
    }
    assert!(repo.previews.is_empty());

    repo.write("PHOTO.JPG", "jpeg");
    let staged = repo.stage("PHOTO.JPG");
    assert_eq!(staged.status, PreviewStatus::Staged);
    assert!(
        staged
            .path
            .as_deref()
            .expect("a success names its copy")
            .ends_with(".jpg"),
        "{staged:?}"
    );
    let images = ["png".to_string()];
    assert_eq!(
        showable_extension(Platform::Windows, "a/b.WebM", &images).as_deref(),
        Some("webm")
    );
    assert_eq!(showable_extension(Platform::Windows, "a.pdf", &images).as_deref(), Some("pdf"));
    assert_eq!(showable_extension(Platform::Windows, "a.mov", &images), None);
    assert_eq!(showable_extension(Platform::Windows, ".png", &images), None);
    assert_eq!(showable_extension(Platform::Windows, "a.png/..", &images), None);
}

#[test]
fn a_path_through_or_to_a_link_is_refused_with_the_walk_sentences() {
    let mut repo = Repo::new();
    repo.link("dirlink");
    repo.link("vanished.png");
    for (requested, fragment) in [
        ("dirlink", "symbolic link"),
        ("dirlink/present.png", "crosses a link"),
        ("vanished.png", "symbolic link"),
    ] {
        let staged = repo.stage(requested);
        assert_eq!(staged.status, PreviewStatus::Refused, "{requested}");
        let error = staged.error.as_deref().expect("the refusal says why");
        assert!(error.contains(fragment), "{requested}: {error}");
        assert_no_root(error);
    }
    assert!(repo.previews.is_empty(), "a refused link is never staged");
}

#[test]
fn staging_a_second_file_replaces_the_first() {
    let mut repo = Repo::new();
    repo.write("one.png", "first");
    repo.write("two.png", "second");

    let first = repo.stage("one.png");
    let second = repo.stage("two.png");
    assert_eq!(first.status, PreviewStatus::Staged);
    assert_eq!(second.status, PreviewStatus::Staged);
    assert_ne!(first.path, second.path, "different files, different copies");
    assert_eq!(repo.previews.len(), 1);
    assert_eq!(
        repo.previews.values().next().map(String::as_str),
        Some("second")
    );
}

#[test]
fn unstage_deletes_the_copy_and_revoking_nothing_is_a_success() {
    assert!(clear(FolderRemoval::Removed));
    assert!(clear(FolderRemoval::Absent), "revoking twice is not a failure");
    assert!(!clear(FolderRemoval::Failed));
    assert!(reset_folder(FolderRemoval::Absent, true));
    assert!(!reset_folder(FolderRemoval::Absent, false));
    assert_eq!(previews_of(Platform::Windows, r"C:\run"), PREVIEWS);
}

#[test]
fn the_shared_escape_sentence_is_the_one_this_test_pins() {
    assert!(OUTSIDE_THE_WORKSPACE.contains("outside the workspace folder"));
    assert!(!NOT_SHOWABLE.contains('/') && !NOT_SHOWABLE.contains('\\'));
}

#[test]
fn a_copy_is_named_by_the_digest_of_its_source() {
    // SHA-256 of "C:\ws", NUL, "a.png", NUL, eight bytes of 1, eight of 2.
    let name = copy_name(r"C:\ws", "a.png", "png", 1, Some(2));
    assert_eq!(name, "a78f4997c7c1405d966ca3dc404f7257.png");
    assert_ne!(name, copy_name(r"C:\ws", "a.png", "png", 2, Some(2)));
    assert_eq!(
        copy_name(r"C:\ws", "a.png", "png", 1, Some(-2)),
        "a2138f58aeb4549502ade120368a7757.png"
    );
    let digest: Vec<u8> = (0..32).map(|n| n * 7).collect();
    assert_eq!(
        name_by_digest(&digest, "jpg"),
        "00070e151c232a31383f464d545b6269.jpg"
    );
}

#[test]
fn a_source_proves_itself_before_the_folder_is_touched() {
    let images = ["png".to_string()];
    let stat = EntryStat {
        is_dir: false,
        is_file: true,
        len: 1,
        modified_at: None,
    };
    let mut facts = preview_facts();
    facts.walked = Some(Walked::Inside(stat));
    let step = |facts: &PreviewFacts| copy_of(Platform::Windows, ROOT, "a.png", PREVIEWS, &images, facts);
    facts.opened = Some(OpenedSource::NoStat);
    assert!(matches!(step(&facts), PreviewStep::StatPath { .. }));
    for (stat, refusal) in [
        (PathStat::Link, PreviewRefusal::Entry(Refusal::LinkFinal)),
        (PathStat::Other, PreviewRefusal::OpenFailed),
        (
            PathStat::NotFound,
            PreviewRefusal::Entry(Refusal::DoesNotExist),
        ),
        (PathStat::Unreadable, PreviewRefusal::LocationUnconfirmed),
    ] {
        assert_eq!(open_failure_sentence(stat), refusal);
    }
    let opened = |is_link, is_file| {
        Some(OpenedSource::Opened {
            is_link,
            is_file,
            len: 1,
            modified_at: None,
        })
    };
    facts.opened = opened(true, true);
    assert!(matches!(
        step(&facts),
        PreviewStep::Refused(PreviewRefusal::Entry(Refusal::LinkFinal))
    ));
    facts.opened = opened(false, false);
    assert!(matches!(
        step(&facts),
        PreviewStep::Refused(PreviewRefusal::Entry(Refusal::NotAFile))
    ));
    facts.opened = opened(false, true);
    assert!(matches!(step(&facts), PreviewStep::Bind));
    facts.binding = Some(Binding::Identity {
        opened: Some((1, 2)),
        walked: (1, 3),
    });
    assert!(matches!(
        step(&facts),
        PreviewStep::Refused(PreviewRefusal::ReplacedWhileStaged)
    ));
    facts.binding = Some(Binding::Identity {
        opened: Some((1, 3)),
        walked: (1, 3),
    });
    assert!(matches!(step(&facts), PreviewStep::ResetFolder));
    facts.folder_reset = Some(false);
    assert!(matches!(
        step(&facts),
        PreviewStep::Refused(PreviewRefusal::CopyFailed)
    ));
    facts.folder_reset = Some(true);
    facts.created = Some(true);
    facts.copied = Some(false);
    assert!(matches!(step(&facts), PreviewStep::RemoveHalf { .. }));
    facts.half_removed = true;
    assert!(matches!(
        step(&facts),
        PreviewStep::Refused(PreviewRefusal::CopyFailed)
    ));
    assert_eq!(
        confirm_binding(&Binding::Location {
            root: Some(r"C:\ws".to_string()),
            resolved: Some(r"D:\x".to_string()),
        }),
        Err(PreviewRefusal::Entry(Refusal::Outside))
    );
    assert_eq!(
        confirm_binding(&Binding::Identity {
            opened: None,
            walked: (1, 2),
        }),
        Err(PreviewRefusal::LocationUnconfirmed)
    );
}
