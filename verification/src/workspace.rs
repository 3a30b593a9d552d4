//! Projects, workspaces and the spellings of their folders.
use crate::numbers::{hex, hex_text, lemma_numbered_apart};
use crate::paths::{
    absolute, file_name, file_name_of, has_drive, is_absolute, is_verbatim,
};
use crate::platform::Platform;
use crate::text::{
    ascii_lower, belongs, chars_of, has_prefix, int_ranges, is_white,
    law_words_are_the_maximal_runs, letter, lower_chars, ranges_inside, ranges_text, spells,
    split_words, starts_with, text_of, trim, trimmed, word_ranges, CharClass,
};
use crate::utf16::{encoded, utf16_len};
use crate::wire::{fixed_error, plain_error, string_view, text3, text7, text_view, ErrorCode, ErrorView, WireError};
use vstd::prelude::*;
use vstd::slice::slice_subrange;

verus! {

/// The number of UTF-16 code units, the terminating NUL counted in, that a
/// plain Windows path may take.
pub const MAX_PATH: usize = 260;

/// How a workspace stands to its project's folder.
#[derive(Clone, Copy, Debug, PartialEq, Eq, Structural)]
pub enum WorkspaceIsolation {
    /// The project's folder itself.
    Local,
    /// A git worktree beside the project's folder.
    Worktree,
}

/// A project row.
#[derive(Debug)]
pub struct ProjectRecord {
    pub id: String,
    pub name: String,
    pub git_state: String,
    pub path: String,
    pub created_at_ms: u64,
    pub updated_at_ms: u64,
}

/// A workspace row.
#[derive(Debug)]
pub struct WorkspaceRecord {
    pub id: String,
    pub project_id: String,
    pub title: String,
    pub isolation: WorkspaceIsolation,
    pub path: String,
    pub branch: Option<String>,
    pub created_at_ms: u64,
    pub updated_at_ms: u64,
}

/// `ProjectRecord` over the characters of its texts.
pub ghost struct ProjectView {
    pub id: Seq<char>,
    pub name: Seq<char>,
    pub git_state: Seq<char>,
    pub path: Seq<char>,
    pub created_at_ms: u64,
    pub updated_at_ms: u64,
}

/// `WorkspaceRecord` over the characters of its texts.
pub ghost struct WorkspaceView {
    pub id: Seq<char>,
    pub project_id: Seq<char>,
    pub title: Seq<char>,
    pub isolation: WorkspaceIsolation,
    pub path: Seq<char>,
    pub branch: Option<Seq<char>>,
    pub created_at_ms: u64,
    pub updated_at_ms: u64,
}

impl View for ProjectRecord {
    type V = ProjectView;

    open spec fn view(&self) -> ProjectView {
        ProjectView {
            id: self.id@,
            name: self.name@,
            git_state: self.git_state@,
            path: self.path@,
            created_at_ms: self.created_at_ms,
            updated_at_ms: self.updated_at_ms,
        }
    }
}

impl View for WorkspaceRecord {
    type V = WorkspaceView;

    open spec fn view(&self) -> WorkspaceView {
        WorkspaceView {
            id: self.id@,
            project_id: self.project_id@,
            title: self.title@,
            isolation: self.isolation,
            path: self.path@,
            branch: text_view(self.branch),
            created_at_ms: self.created_at_ms,
            updated_at_ms: self.updated_at_ms,
        }
    }
}

/// The names that Windows claims for devices, in lower case.
pub open spec fn is_device_name(name: Seq<char>) -> bool {
    ||| name == "con"@
    ||| name == "prn"@
    ||| name == "aux"@
    ||| name == "nul"@
    ||| (name.len() == 4 && (has_prefix(name, "com"@) || has_prefix(name, "lpt"@)) && '1' <= name[3]
        <= '9')
}

/// A component up to its first dot.
pub open spec fn before_dot(component: Seq<char>) -> Seq<char>
    decreases component.len(),
{
    if component.len() == 0 || component[0] == '.' {
        Seq::empty()
    } else {
        seq![component[0]] + before_dot(component.skip(1))
    }
}

/// A component that Windows takes literally behind `\\?\` only: it names a
/// device, or ends in a dot or a space.
pub open spec fn verbatim_only(component: Seq<char>) -> bool {
    ||| is_device_name(ascii_lower(before_dot(component)))
    ||| (component.len() > 0 && (component.last() == '.' || component.last() == ' '))
}

/// The components of a plain path.
pub open spec fn plain_components(path: Seq<char>) -> Seq<Seq<char>> {
    ranges_text(path, word_ranges(path, CharClass::Separator, 0))
}

/// The plain spelling of `path` names what its verbatim spelling names: it is
/// short enough, it has a component, and every component is read literally.
pub open spec fn plain_safe(path: Seq<char>) -> bool {
    &&& utf16_len(path) < MAX_PATH
    &&& plain_components(path).len() > 0
    &&& forall|i: int|
        0 <= i < plain_components(path).len() ==> !verbatim_only(
            #[trigger] plain_components(path)[i],
        )
}

/// A drive, a colon and a backslash.
pub open spec fn is_drive_path(path: Seq<char>) -> bool {
    has_drive(path) && path.len() >= 3 && path[2] == '\\'
}

/// The plain spelling of a stored path: without `\\?\` where what follows is a
/// drive path that a plain caller reaches the same way, else as it is.
pub open spec fn plain(path: Seq<char>) -> Seq<char> {
    if is_verbatim(path) && is_drive_path(path.skip(4)) && plain_safe(path.skip(4)) {
        path.skip(4)
    } else {
        path
    }
}

fn find_before_dot(component: &[char]) -> (r: &[char])
    ensures
        r@ == before_dot(component@),
{
    let mut i: usize = 0;
    assert(component@.take(0) + before_dot(component@.skip(0)) =~= before_dot(component@)) by {
        assert(component@.skip(0) =~= component@);
    }
    while i < component.len() && component[i] != '.'
        invariant
            i <= component@.len(),
            before_dot(component@) == component@.take(i as int) + before_dot(
                component@.skip(i as int),
            ),
        decreases component@.len() - i,
    {
        let ghost rest = component@.skip(i as int);
        assert(rest.skip(1) =~= component@.skip(i + 1));
        assert(component@.take(i + 1) =~= component@.take(i as int).push(component@[i as int]));
        assert(component@.take(i as int) + (seq![rest[0]] + before_dot(rest.skip(1)))
            =~= component@.take(i + 1) + before_dot(component@.skip(i + 1)));
        i = i + 1;
    }
    let r = slice_subrange(component, 0, i);
    assert(before_dot(component@.skip(i as int)) =~= Seq::<char>::empty());
    assert(r@ =~= before_dot(component@));
    r
}

fn names_device(name: &[char]) -> (r: bool)
    ensures
        r == is_device_name(name@),
{
    spells(name, "con") || spells(name, "prn") || spells(name, "aux") || spells(name, "nul") || (
    name.len() == 4 && (starts_with(name, "com") || starts_with(name, "lpt")) && '1' <= name[3]
        && name[3] <= '9')
}

fn is_verbatim_only(component: &[char]) -> (r: bool)
    ensures
        r == verbatim_only(component@),
{
    let stem = lower_chars(find_before_dot(component));
    let n: usize = component.len();
    names_device(stem.as_slice()) || (n > 0 && (component[n - 1] == '.' || component[n - 1] == ' '))
}

/// Whether a plain path would resolve otherwise than its verbatim spelling:
/// any component of it is taken literally behind `\\?\` only, or it has none.
fn has_verbatim_only_component(path: &[char]) -> (r: bool)
    ensures
        r == (plain_components(path@).len() == 0 || exists|i: int|
            0 <= i < plain_components(path@).len() && verbatim_only(
                #[trigger] plain_components(path@)[i],
            )),
{
    let ranges = split_words(path, CharClass::Separator, 0);
    let mut i: usize = 0;
    while i < ranges.len()
        invariant
            i <= ranges@.len(),
            ranges_inside(path@, ranges@),
            int_ranges(ranges@) == word_ranges(path@, CharClass::Separator, 0),
            forall|j: int| 0 <= j < i ==> !verbatim_only(#[trigger] plain_components(path@)[j]),
        decreases ranges@.len() - i,
    {
        let component = slice_subrange(path, ranges[i].0, ranges[i].1);
        assert(int_ranges(ranges@)[i as int] == (ranges@[i as int].0 as int, ranges@[i as int].1 as int));
        assert(component@ == plain_components(path@)[i as int]);
        if is_verbatim_only(component) {
            return true;
        }
        i = i + 1;
    }
    assert(int_ranges(ranges@).len() == ranges@.len());
    ranges.len() == 0
}

/// The one place where a stored path is turned back into its plain spelling:
/// for the wire, for a person, and for every child process's directory.
pub fn plain_path(path: &str) -> (r: String)
    ensures
        r@ == plain(path@),
{
    let chars = chars_of(path);
    let s = chars.as_slice();
    if starts_with(s, "\\\\?\\") {
        proof {
            reveal_strlit("\\\\?\\");
        }
        let rest = slice_subrange(s, 4, s.len());
        assert(rest@ =~= s@.skip(4));
        if rest.len() >= 3 && letter(rest[0]) && rest[1] == ':' && rest[2] == '\\' {
            let units: usize = encoded(rest).len();
            if units < MAX_PATH && !has_verbatim_only_component(rest) {
                return text_of(rest);
            }
        }
    }
    path.to_owned()
}

/// Plain spellings stay as they are: taking the plain spelling twice is taking
/// it once.
pub proof fn law_plain_path_is_idempotent(path: Seq<char>)
    ensures
        plain(plain(path)) == plain(path),
{
    reveal_strlit("\\\\?\\");
    let p = plain(path);
    if p != path && is_verbatim(p) {
        assert(p.take(4)[0] == p[0]);
    }
}

/// A plain spelling never changes a component: it is the path itself or the
/// path without its `\\?\`.
pub proof fn law_plain_path_drops_the_prefix_only(path: Seq<char>)
    ensures
        plain(path) == path || "\\\\?\\"@ + plain(path) == path,
{
    reveal_strlit("\\\\?\\");
    if plain(path) != path {
        assert("\\\\?\\"@ + plain(path) =~= path) by {
            assert(path.take(4) + path.skip(4) =~= path);
        }
    }
}

/// A `\\\\?\\UNC\\` path keeps its spelling.
pub proof fn law_verbatim_unc_paths_stay(path: Seq<char>)
    requires
        has_prefix(ascii_lower(path), "\\\\?\\unc\\"@),
    ensures
        plain(path) == path,
{
    reveal_strlit("\\\\?\\unc\\");
    assert(ascii_lower(path).take(8)[5] == ascii_lower(path)[5]);
    if plain(path) != path {
        assert(path.skip(4)[1] == path[5]);
    }
}

/// When, where and as which one in its process a row was made.
#[derive(Clone, Copy, Debug)]
pub struct Stamp {
    pub now_ms: u64,
    pub process_id: u32,
    pub counter: u64,
}

/// The id of a row: its kind, then the stamp in hexadecimal.
pub open spec fn entity_name(prefix: Seq<char>, stamp: Stamp) -> Seq<char> {
    prefix + "."@ + hex(stamp.now_ms as nat) + "."@ + hex(stamp.process_id as nat) + "."@ + hex(
        stamp.counter as nat,
    )
}

pub fn entity_id(prefix: &str, stamp: Stamp) -> (r: String)
    ensures
        r@ == entity_name(prefix@, stamp),
{
    text7(
        prefix,
        ".",
        hex_text(stamp.now_ms).as_str(),
        ".",
        hex_text(stamp.process_id as u64).as_str(),
        ".",
        hex_text(stamp.counter).as_str(),
    )
}

/// Rows that were counted apart have different ids.
pub proof fn law_entity_ids_differ_by_counter(
    first_prefix: Seq<char>,
    first: Stamp,
    second_prefix: Seq<char>,
    second: Stamp,
)
    requires
        first.counter != second.counter,
    ensures
        entity_name(first_prefix, first) != entity_name(second_prefix, second),
{
    reveal_strlit(".");
    let a = entity_name(first_prefix, first);
    let b = entity_name(second_prefix, second);
    let x = hex(first.counter as nat);
    let y = hex(second.counter as nat);
    assert(a =~= a.take(a.len() - x.len() - 1) + seq!['.'] + x);
    assert(b =~= b.take(b.len() - y.len() - 1) + seq!['.'] + y);
    lemma_numbered_apart(
        a.take(a.len() - x.len() - 1),
        first.counter as nat,
        b.take(b.len() - y.len() - 1),
        second.counter as nat,
        '.',
        16,
    );
}

/// What the disk says of a project path.
#[derive(Debug)]
pub struct ResolvedPath {
    /// The canonical spelling; what is not Unicode in it is replaced.
    pub path: String,
    /// Whether a folder stands there.
    pub is_dir: bool,
    /// Whether the last component of the canonical path is Unicode.
    pub name_is_text: bool,
}

/// The folder that a project path names; `resolved` is what the disk says, if
/// the path could be resolved at all.
pub open spec fn canonical(
    platform: Platform,
    path: Seq<char>,
    resolved: Option<ResolvedPath>,
) -> Result<
    Seq<char>,
    ErrorView,
> {
    if trim(path, CharClass::White).len() == 0 {
        Err(plain_error(ErrorCode::InvalidRequest, "Project path is required."@))
    } else if !absolute(platform, path) {
        Err(plain_error(ErrorCode::InvalidRequest, "Project path must be absolute."@))
    } else {
        match resolved {
            None => Err(
                plain_error(ErrorCode::InvalidRequest, "Project path is not an existing folder."@),
            ),
            Some(found) => if found.is_dir {
                Ok(found.path@)
            } else {
                Err(plain_error(ErrorCode::InvalidRequest, "Project path is not a folder."@))
            },
        }
    }
}

/// Whether the disk has to be asked about a project path at all: an empty or a
/// relative path is refused before.
pub fn is_canonical_candidate(platform: Platform, path: &str) -> (r: bool)
    ensures
        r == (trim(path@, CharClass::White).len() > 0 && absolute(platform, path@)),
{
    let chars = chars_of(path);
    trimmed(chars.as_slice(), CharClass::White).len() > 0 && is_absolute(platform, chars.as_slice())
}

/// The canonical folder of a project path.
pub fn canonical_directory(
    platform: Platform,
    path: &str,
    resolved: Option<ResolvedPath>,
) -> (r: Result<
    String,
    WireError,
>)
    ensures
        string_view(r) == canonical(platform, path@, resolved),
{
    let chars = chars_of(path);
    if trimmed(chars.as_slice(), CharClass::White).len() == 0 {
        return Err(fixed_error(ErrorCode::InvalidRequest, "Project path is required."));
    }
    if !is_absolute(platform, chars.as_slice()) {
        return Err(fixed_error(ErrorCode::InvalidRequest, "Project path must be absolute."));
    }
    match resolved {
        None => Err(
            fixed_error(ErrorCode::InvalidRequest, "Project path is not an existing folder."),
        ),
        Some(found) => if found.is_dir {
            Ok(found.path)
        } else {
            Err(fixed_error(ErrorCode::InvalidRequest, "Project path is not a folder."))
        },
    }
}

/// The name of a project: its folder's, where that has one and it is Unicode.
pub open spec fn project_title(
    platform: Platform,
    path: Seq<char>,
    name_is_text: bool,
) -> Seq<char> {
    match file_name_of(platform, path) {
        Some(name) if name_is_text => name,
        _ => "Project"@,
    }
}

fn project_name(platform: Platform, path: &str, name_is_text: bool) -> (r: String)
    ensures
        r@ == project_title(platform, path@, name_is_text),
{
    if !name_is_text {
        return "Project".to_owned();
    }
    let chars = chars_of(path);
    match file_name(platform, chars.as_slice()) {
        Some(name) => text_of(name),
        None => "Project".to_owned(),
    }
}

/// The outcome of making a project row.
pub open spec fn project_outcome(r: Result<ProjectRecord, WireError>) -> Result<
    ProjectView,
    ErrorView,
> {
    match r {
        Ok(record) => Ok(record@),
        Err(e) => Err(e@),
    }
}

/// The row for the project at a path.
pub open spec fn new_project(
    platform: Platform,
    path: Seq<char>,
    resolved: Option<ResolvedPath>,
    git_state: Seq<char>,
    stamp: Stamp,
) -> Result<ProjectView, ErrorView> {
    match canonical(platform, path, resolved) {
        Err(e) => Err(e),
        Ok(folder) => Ok(
            ProjectView {
                id: entity_name("p"@, stamp),
                name: project_title(platform, folder, resolved->0.name_is_text),
                git_state,
                path: folder,
                created_at_ms: stamp.now_ms,
                updated_at_ms: stamp.now_ms,
            },
        ),
    }
}

/// The row for the project at a path; `git_state` is what git says of the
/// resolved folder.
pub fn project_record(
    platform: Platform,
    path: &str,
    resolved: Option<ResolvedPath>,
    git_state: &str,
    stamp: Stamp,
) -> (r: Result<ProjectRecord, WireError>)
    ensures
        project_outcome(r) == new_project(platform, path@, resolved, git_state@, stamp),
{
    let name_is_text = match &resolved {
        Some(found) => found.name_is_text,
        None => false,
    };
    match canonical_directory(platform, path, resolved) {
        Err(e) => Err(e),
        Ok(folder) => Ok(
            ProjectRecord {
                id: entity_id("p", stamp),
                name: project_name(platform, folder.as_str(), name_is_text),
                git_state: git_state.to_owned(),
                path: folder,
                created_at_ms: stamp.now_ms,
                updated_at_ms: stamp.now_ms,
            },
        ),
    }
}

/// The row for the workspace that is its project's folder.
pub open spec fn local_workspace(project: ProjectView, stamp: Stamp) -> WorkspaceView {
    WorkspaceView {
        id: entity_name("w"@, stamp),
        project_id: project.id,
        title: project.name,
        isolation: WorkspaceIsolation::Local,
        path: project.path,
        branch: None,
        created_at_ms: stamp.now_ms,
        updated_at_ms: stamp.now_ms,
    }
}

pub fn local_workspace_record(project: &ProjectRecord, stamp: Stamp) -> (r: WorkspaceRecord)
    ensures
        r@ == local_workspace(project@, stamp),
{
    WorkspaceRecord {
        id: entity_id("w", stamp),
        project_id: project.id.clone(),
        title: project.name.clone(),
        isolation: WorkspaceIsolation::Local,
        path: project.path.clone(),
        branch: None,
        created_at_ms: stamp.now_ms,
        updated_at_ms: stamp.now_ms,
    }
}

/// The row for the workspace that is a worktree of its project.
pub open spec fn worktree_workspace(
    project: ProjectView,
    checkout: Seq<char>,
    branch: Seq<char>,
    stamp: Stamp,
) -> WorkspaceView {
    WorkspaceView {
        id: entity_name("w"@, stamp),
        project_id: project.id,
        title: project.name + " ("@ + branch + ")"@,
        isolation: WorkspaceIsolation::Worktree,
        path: checkout,
        branch: Some(branch),
        created_at_ms: stamp.now_ms,
        updated_at_ms: stamp.now_ms,
    }
}

pub fn worktree_workspace_record(
    project: &ProjectRecord,
    checkout: &str,
    branch: &str,
    stamp: Stamp,
) -> (r: WorkspaceRecord)
    ensures
        r@ == worktree_workspace(project@, checkout@, branch@, stamp),
{
    let mut title = text3(project.name.as_str(), " (", branch);
    title.append(")");
    WorkspaceRecord {
        id: entity_id("w", stamp),
        project_id: project.id.clone(),
        title,
        isolation: WorkspaceIsolation::Worktree,
        path: checkout.to_owned(),
        branch: Some(branch.to_owned()),
        created_at_ms: stamp.now_ms,
        updated_at_ms: stamp.now_ms,
    }
}

/// From `a` to `b` stands a component: a maximal run without separators.
pub open spec fn is_component(path: Seq<char>, a: int, b: int) -> bool {
    &&& 0 <= a < b <= path.len()
    &&& forall|i: int| a <= i < b ==> #[trigger] path[i] != '/' && path[i] != '\\'
    &&& a > 0 ==> path[a - 1] == '/' || path[a - 1] == '\\'
    &&& b < path.len() ==> path[b] == '/' || path[b] == '\\'
}

/// A name that Windows claims for a device, in any case.
pub open spec fn claims_device(name: Seq<char>) -> bool {
    let l = ascii_lower(name);
    &&& name.len() == 3 || name.len() == 4
    &&& name.len() == 3 ==> l == seq!['c', 'o', 'n'] || l == seq!['p', 'r', 'n'] || l == seq![
        'a',
        'u',
        'x',
    ] || l == seq!['n', 'u', 'l']
    &&& name.len() == 4 ==> '1' <= name[3] <= '9' && (l.take(3) == seq!['c', 'o', 'm'] || l.take(3)
        == seq!['l', 'p', 't'])
}

/// A component that means something else without `\\\\?\\`: it ends in a dot or a
/// space, or its name up to the first dot is a device's.
pub open spec fn changes_meaning(component: Seq<char>) -> bool {
    ||| component.last() == '.'
    ||| component.last() == ' '
    ||| exists|e: int|
        {
            &&& 0 <= e <= component.len()
            &&& e < component.len() ==> component[e] == '.'
            &&& forall|i: int| 0 <= i < e ==> component[i] != '.'
            &&& claims_device(#[trigger] component.take(e))
        }
}

proof fn lemma_before_dot(component: Seq<char>) -> (e: int)
    ensures
        0 <= e <= component.len(),
        before_dot(component) == component.take(e),
        e < component.len() ==> component[e] == '.',
        forall|i: int| 0 <= i < e ==> component[i] != '.',
    decreases component.len(),
{
    if component.len() == 0 || component[0] == '.' {
        assert(before_dot(component) =~= component.take(0));
        0
    } else {
        let rest = component.skip(1);
        let e = lemma_before_dot(rest);
        assert(before_dot(component) =~= component.take(e + 1));
        if e < rest.len() {
            assert(component[e + 1] == rest[e]);
        }
        assert forall|i: int| 0 <= i < e + 1 implies component[i] != '.' by {
            if i > 0 {
                assert(rest[i - 1] == component[i]);
            }
        }
        e + 1
    }
}

proof fn lemma_device(name: Seq<char>)
    ensures
        is_device_name(ascii_lower(name)) == claims_device(name),
{
    reveal_strlit("con");
    reveal_strlit("prn");
    reveal_strlit("aux");
    reveal_strlit("nul");
    reveal_strlit("com");
    reveal_strlit("lpt");
    assert("con"@ =~= seq!['c', 'o', 'n']);
    assert("prn"@ =~= seq!['p', 'r', 'n']);
    assert("aux"@ =~= seq!['a', 'u', 'x']);
    assert("nul"@ =~= seq!['n', 'u', 'l']);
    assert("com"@ =~= seq!['c', 'o', 'm']);
    assert("lpt"@ =~= seq!['l', 'p', 't']);
    let l = ascii_lower(name);
    assert(l.len() == name.len());
    if name.len() == 4 {
        assert(l[3] == crate::text::lower_char(name[3]));
    }
}

proof fn lemma_changes_meaning(component: Seq<char>)
    requires
        component.len() > 0,
    ensures
        verbatim_only(component) == changes_meaning(component),
{
    let e = lemma_before_dot(component);
    lemma_device(component.take(e));
    if exists|k: int|
        {
            &&& 0 <= k <= component.len()
            &&& k < component.len() ==> component[k] == '.'
            &&& forall|i: int| 0 <= i < k ==> component[i] != '.'
            &&& claims_device(#[trigger] component.take(k))
        } {
        let k = choose|k: int|
            {
                &&& 0 <= k <= component.len()
                &&& k < component.len() ==> component[k] == '.'
                &&& forall|i: int| 0 <= i < k ==> component[i] != '.'
                &&& claims_device(#[trigger] component.take(k))
            };
        assert(k == e);
    }
}

/// The prefix of a stored drive path is dropped exactly where the plain spelling
/// is shorter than the system's limit and every component of it means the same.
pub proof fn law_prefix_is_dropped_where_nothing_changes(rest: Seq<char>)
    ensures
        ({
            let stored = seq!['\\', '\\', '?', '\\'] + rest;
            let usable = {
                &&& rest.len() >= 3
                &&& ('a' <= rest[0] <= 'z' || 'A' <= rest[0] <= 'Z')
                &&& rest[1] == ':'
                &&& rest[2] == '\\'
                &&& utf16_len(rest) < 260
                &&& forall|a: int, b: int| #[trigger]
                    is_component(rest, a, b) ==> !changes_meaning(rest.subrange(a, b))
            };
            &&& usable ==> plain(stored) == rest
            &&& !usable ==> plain(stored) == stored
        }),
{
    reveal_strlit("\\\\?\\");
    let stored = seq!['\\', '\\', '?', '\\'] + rest;
    assert("\\\\?\\"@ =~= seq!['\\', '\\', '?', '\\']);
    assert(stored.take(4) =~= "\\\\?\\"@);
    assert(stored.skip(4) =~= rest);
    let class = CharClass::Separator;
    law_words_are_the_maximal_runs(rest, class, 0);
    let ranges = word_ranges(rest, class, 0);
    let parts = plain_components(rest);
    assert forall|a: int, b: int| #[trigger] is_component(rest, a, b) implies exists|k: int|
        0 <= k < ranges.len() && #[trigger] ranges[k] == (a, b) by {
        assert(!belongs(class, rest[a]));
        let k = choose|k: int| 0 <= k < ranges.len() && (#[trigger] ranges[k]).0 <= a < ranges[k].1;
        if ranges[k].0 < a {
            assert(!belongs(class, rest[a - 1]));
        }
        if ranges[k].1 < b {
            assert(belongs(class, rest[ranges[k].1]));
            assert(rest[ranges[k].1] != '/');
        } else if b < ranges[k].1 {
            assert(!belongs(class, rest[b]));
        }
        assert(ranges[k] == (a, b));
    }
    assert forall|k: int| 0 <= k < ranges.len() implies {
        &&& is_component(rest, ranges[k].0, ranges[k].1)
        &&& #[trigger] parts[k] == rest.subrange(ranges[k].0, ranges[k].1)
    } by {
        let r = ranges[k];
        assert forall|i: int| r.0 <= i < r.1 implies #[trigger] rest[i] != '/' && rest[i]
            != '\\' by {
            assert(!belongs(class, rest[i]));
        }
    }
    assert forall|k: int| 0 <= k < parts.len() implies verbatim_only(#[trigger] parts[k])
        == changes_meaning(parts[k]) by {
        assert(parts[k] == rest.subrange(ranges[k].0, ranges[k].1));
        lemma_changes_meaning(parts[k]);
    }
    if rest.len() >= 1 && ('a' <= rest[0] <= 'z' || 'A' <= rest[0] <= 'Z') {
        assert(!belongs(class, rest[0]));
    }
    if forall|a: int, b: int| #[trigger]
        is_component(rest, a, b) ==> !changes_meaning(rest.subrange(a, b)) {
        assert forall|k: int| 0 <= k < parts.len() implies !verbatim_only(#[trigger] parts[k]) by {
            assert(is_component(rest, ranges[k].0, ranges[k].1));
        }
    }
    if plain_safe(rest) {
        assert forall|a: int, b: int| #[trigger] is_component(
            rest,
            a,
            b,
        ) implies !changes_meaning(rest.subrange(a, b)) by {
            let k = choose|k: int| 0 <= k < ranges.len() && #[trigger] ranges[k] == (a, b);
            assert(parts[k] == rest.subrange(a, b));
        }
    }
}

/// A path that does not begin with `\\\\?\\` is plain already.
pub proof fn law_plain_paths_stay(path: Seq<char>)
    requires
        path.len() < 4 || path.take(4) != seq!['\\', '\\', '?', '\\'],
    ensures
        plain(path) == path,
{
    reveal_strlit("\\\\?\\");
    assert("\\\\?\\"@ =~= seq!['\\', '\\', '?', '\\']);
}

/// A project's path is refused for what it is before the disk counts: blank,
/// relative, not there, no folder; else the row is made of the resolved folder.
pub proof fn law_projects_are_rows_of_their_folders(
    platform: Platform,
    path: Seq<char>,
    resolved: Option<ResolvedPath>,
    git_state: Seq<char>,
    stamp: Stamp,
)
    ensures
        ({
            let made = new_project(platform, path, resolved, git_state, stamp);
            let blank = forall|i: int| 0 <= i < path.len() ==> is_white(#[trigger] path[i]);
            let refused = |message: Seq<char>|
                Err::<ProjectView, ErrorView>(
                    ErrorView { code: ErrorCode::InvalidRequest, message, details: None },
                );
            &&& blank ==> made == refused("Project path is required."@)
            &&& !blank && !absolute(platform, path) ==> made == refused(
                "Project path must be absolute."@,
            )
            &&& !blank && absolute(platform, path) ==> match resolved {
                None => made == refused("Project path is not an existing folder."@),
                Some(found) => {
                    &&& !found.is_dir ==> made == refused("Project path is not a folder."@)
                    &&& found.is_dir ==> (made matches Ok(row) && row.path == found.path@
                        && row.git_state == git_state && row.created_at_ms == stamp.now_ms
                        && row.updated_at_ms == stamp.now_ms && row.id.len() > 2 && row.id[0] == 'p'
                        && row.id[1] == '.' && (!found.name_is_text || file_name_of(
                        platform,
                        found.path@,
                    ) is None ==> row.name == "Project"@) && (found.name_is_text ==> (
                    file_name_of(platform, found.path@) matches Some(name) ==> row.name == name)))
                },
            }
        }),
{
    reveal_strlit("p");
    reveal_strlit(".");
    crate::numbers::lemma_only_digits(stamp.now_ms as nat, 16);
    crate::text::lemma_blank(path, CharClass::White);
    assert forall|i: int| 0 <= i < path.len() implies is_white(#[trigger] path[i]) == belongs(
        CharClass::White,
        path[i],
    ) by {}
}

/// The row of a local workspace is its project's folder under its project's name;
/// the row of a worktree is the checkout, with its branch on record and in the
/// title. Both belong to the project and are stamped when they are made.
pub proof fn law_workspace_rows_belong_to_their_project(
    project: ProjectView,
    checkout: Seq<char>,
    branch: Seq<char>,
    stamp: Stamp,
)
    ensures
        ({
            let local = local_workspace(project, stamp);
            let tree = worktree_workspace(project, checkout, branch, stamp);
            &&& local.project_id == project.id && tree.project_id == project.id
            &&& local.isolation == WorkspaceIsolation::Local && tree.isolation
                == WorkspaceIsolation::Worktree
            &&& local.path == project.path && tree.path == checkout
            &&& local.branch is None && tree.branch == Some(branch)
            &&& local.title == project.name && tree.title == project.name + " ("@ + branch + ")"@
            &&& local.created_at_ms == stamp.now_ms && local.updated_at_ms == stamp.now_ms
            &&& tree.created_at_ms == stamp.now_ms && tree.updated_at_ms == stamp.now_ms
            &&& local.id == tree.id
        }),
{
}

/// A row's id is its kind, the time, the process and the counter, the three
/// numbers in hexadecimal; projects and workspaces have kinds of their own.
pub proof fn law_ids_are_made_of_their_kind_and_stamp(
    project: ProjectView,
    checkout: Seq<char>,
    branch: Seq<char>,
    stamp: Stamp,
)
    ensures
        ({
            let behind = hex(stamp.now_ms as nat) + "."@ + hex(stamp.process_id as nat) + "."@ + hex(
                stamp.counter as nat,
            );
            &&& local_workspace(project, stamp).id == "w."@ + behind
            &&& worktree_workspace(project, checkout, branch, stamp).id == "w."@ + behind
            &&& entity_name("p"@, stamp) == "p."@ + behind
        }),
{
    reveal_strlit("w");
    reveal_strlit("p");
    reveal_strlit(".");
    reveal_strlit("w.");
    reveal_strlit("p.");
    let behind = hex(stamp.now_ms as nat) + "."@ + hex(stamp.process_id as nat) + "."@ + hex(
        stamp.counter as nat,
    );
    assert(entity_name("w"@, stamp) =~= "w."@ + behind);
    assert(entity_name("p"@, stamp) =~= "p."@ + behind);
}

} // verus!
