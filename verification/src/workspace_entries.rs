//! The entries of a workspace folder: which spellings name one, which names one
//! may have, and the sentences of a refusal.
//!
//! A request names an entry by a relative path. It is vouched for in a fixed
//! order: the workspace's own folder is refused first, then a path that leads
//! out, then the repository's metadata in any spelling that Windows resolves to
//! it, and only then what the walk over the disk found. No sentence carries a
//! path.
use crate::paths::{
    begins_with_dot, body_pieces, components, has_drive, has_physical_root, head_len, head_pieces,
    is_run, is_verbatim, join_name, law_names_are_what_separators_leave, name_kind, names_from,
    path_join, piece_text, pieces, pieces_inside, pieces_view, prefix_len, reads_verbatim,
    separates, separator_class, Piece, PieceKind,
};
use crate::platform::Platform;
use crate::text::{
    ascii_lower, belongs, chars_of, int_ranges, is_separator, is_white, join, joined,
    law_joining_keeps_every_part, lemma_one_word, lemma_run_start, lemma_run_start_is,
    lemma_trimmed_stays, lemma_word_at_the_end, lemma_word_of, lemma_word_ranges_append,
    lower_char, lower_chars, owned, part_offset, ranges_inside, ranges_text, run_start, spells,
    split_words, text_of, trim, trim_end, trimmed, trimmed_end, word_ranges, words_of, CharClass,
};
use vstd::prelude::*;
use vstd::slice::slice_subrange;

verus! {

pub const THE_ROOT: &'static str =
    "the workspace's own folder cannot be renamed, duplicated or deleted";

pub const OUTSIDE_THE_WORKSPACE: &'static str = "that path is outside the workspace folder";

pub const NOT_PART_OF_THE_TREE: &'static str = "that entry is not part of the tree";

pub const DOES_NOT_EXIST: &'static str = "that entry does not exist";

pub const LINK_FINAL: &'static str = "that entry is a symbolic link";

pub const LINK_CROSSED: &'static str = "that path crosses a link";

pub const NOT_A_FILE: &'static str = "that entry is not a file";

pub const NAME_EMPTY: &'static str = "the new name is empty";

pub const NAME_SEPARATOR: &'static str = "the new name must not contain a path separator";

pub const NAME_DOT: &'static str = "the new name must not be `.` or `..`";

pub const NAME_INVALID: &'static str = "the new name must be a single name below the folder";

pub const NAME_TRAILING: &'static str = "the new name must not end in a dot or a space";

pub const NAME_TAKEN: &'static str = "an entry with that new name already exists";

pub const RENAME_FAILED: &'static str = "the entry could not be renamed";

pub const COPY_FAILED: &'static str = "the entry could not be duplicated";

pub const COPY_MEETS_A_LINK: &'static str =
    "a folder being duplicated contains a link; nothing was copied";

pub const DELETE_FAILED: &'static str = "the entry could not be deleted";

pub const LOCATION_UNCONFIRMED: &'static str =
    "the entry's location could not be confirmed inside the workspace";

/// Why an act on an entry is refused.
#[derive(Clone, Copy, Debug, PartialEq, Eq, Structural)]
pub enum Refusal {
    TheRoot,
    Outside,
    NotPartOfTheTree,
    DoesNotExist,
    LinkFinal,
    LinkCrossed,
    NotAFile,
    NameEmpty,
    NameSeparator,
    NameDot,
    NameInvalid,
    NameTrailing,
    NameTaken,
    RenameFailed,
    CopyFailed,
    CopyMeetsALink,
    DeleteFailed,
    LocationUnconfirmed,
}

/// The sentence of a refusal.
pub open spec fn sentence_of(refusal: Refusal) -> Seq<char> {
    match refusal {
        Refusal::TheRoot => THE_ROOT@,
        Refusal::Outside => OUTSIDE_THE_WORKSPACE@,
        Refusal::NotPartOfTheTree => NOT_PART_OF_THE_TREE@,
        Refusal::DoesNotExist => DOES_NOT_EXIST@,
        Refusal::LinkFinal => LINK_FINAL@,
        Refusal::LinkCrossed => LINK_CROSSED@,
        Refusal::NotAFile => NOT_A_FILE@,
        Refusal::NameEmpty => NAME_EMPTY@,
        Refusal::NameSeparator => NAME_SEPARATOR@,
        Refusal::NameDot => NAME_DOT@,
        Refusal::NameInvalid => NAME_INVALID@,
        Refusal::NameTrailing => NAME_TRAILING@,
        Refusal::NameTaken => NAME_TAKEN@,
        Refusal::RenameFailed => RENAME_FAILED@,
        Refusal::CopyFailed => COPY_FAILED@,
        Refusal::CopyMeetsALink => COPY_MEETS_A_LINK@,
        Refusal::DeleteFailed => DELETE_FAILED@,
        Refusal::LocationUnconfirmed => LOCATION_UNCONFIRMED@,
    }
}

impl Refusal {
    /// The sentence that a client is shown.
    pub fn sentence(&self) -> (r: &'static str)
        ensures
            r@ == sentence_of(*self),
    {
        match self {
            Refusal::TheRoot => THE_ROOT,
            Refusal::Outside => OUTSIDE_THE_WORKSPACE,
            Refusal::NotPartOfTheTree => NOT_PART_OF_THE_TREE,
            Refusal::DoesNotExist => DOES_NOT_EXIST,
            Refusal::LinkFinal => LINK_FINAL,
            Refusal::LinkCrossed => LINK_CROSSED,
            Refusal::NotAFile => NOT_A_FILE,
            Refusal::NameEmpty => NAME_EMPTY,
            Refusal::NameSeparator => NAME_SEPARATOR,
            Refusal::NameDot => NAME_DOT,
            Refusal::NameInvalid => NAME_INVALID,
            Refusal::NameTrailing => NAME_TRAILING,
            Refusal::NameTaken => NAME_TAKEN,
            Refusal::RenameFailed => RENAME_FAILED,
            Refusal::CopyFailed => COPY_FAILED,
            Refusal::CopyMeetsALink => COPY_MEETS_A_LINK,
            Refusal::DeleteFailed => DELETE_FAILED,
            Refusal::LocationUnconfirmed => LOCATION_UNCONFIRMED,
        }
    }
}

/// A character that a path would bring with it.
pub open spec fn path_shaped(c: char) -> bool {
    c == '/' || c == '\\' || c == ':'
}

/// No sentence of a refusal has a character of a path in it.
pub proof fn law_sentences_carry_no_path(refusal: Refusal)
    ensures
        forall|i: int|
            0 <= i < sentence_of(refusal).len() ==> !path_shaped(
                #[trigger] sentence_of(refusal)[i],
            ),
{
    reveal_strlit("the workspace's own folder cannot be renamed, duplicated or deleted");
    reveal_strlit("that path is outside the workspace folder");
    reveal_strlit("that entry is not part of the tree");
    reveal_strlit("that entry does not exist");
    reveal_strlit("that entry is a symbolic link");
    reveal_strlit("that path crosses a link");
    reveal_strlit("that entry is not a file");
    reveal_strlit("the new name is empty");
    reveal_strlit("the new name must not contain a path separator");
    reveal_strlit("the new name must not be `.` or `..`");
    reveal_strlit("the new name must be a single name below the folder");
    reveal_strlit("the new name must not end in a dot or a space");
    reveal_strlit("an entry with that new name already exists");
    reveal_strlit("the entry could not be renamed");
    reveal_strlit("the entry could not be duplicated");
    reveal_strlit("a folder being duplicated contains a link; nothing was copied");
    reveal_strlit("the entry could not be deleted");
    reveal_strlit("the entry's location could not be confirmed inside the workspace");
}

/// The spelling names the folder that it is relative to.
pub open spec fn names_the_root(platform: Platform, requested: Seq<char>) -> bool {
    forall|i: int|
        0 <= i < pieces(platform, requested).len() ==> (#[trigger] pieces(platform, requested)[i]).kind
            == PieceKind::CurDir
}

/// The spelling leads nowhere but down: it has no prefix, no root and no `..`.
pub open spec fn leads_down(platform: Platform, requested: Seq<char>) -> bool {
    forall|i: int|
        0 <= i < pieces(platform, requested).len() ==> (#[trigger] pieces(platform, requested)[i]).kind
            == PieceKind::CurDir || pieces(platform, requested)[i].kind == PieceKind::Normal
}

/// The names in a spelling, in their order.
pub open spec fn names_in(s: Seq<char>, v: Seq<Piece>) -> Seq<Seq<char>>
    decreases v.len(),
{
    if v.len() == 0 {
        Seq::empty()
    } else if v.last().kind == PieceKind::Normal {
        names_in(s, v.drop_last()).push(piece_text(s, v.last()))
    } else {
        names_in(s, v.drop_last())
    }
}

/// A path with names put behind it.
pub open spec fn below(platform: Platform, root: Seq<char>, names: Seq<Seq<char>>) -> Seq<char>
    decreases names.len(),
{
    if names.len() == 0 {
        root
    } else {
        path_join(platform, below(platform, root, names.drop_last()), names.last())
    }
}

/// Where a spelling leads from a folder.
pub open spec fn target_of(platform: Platform, root: Seq<char>, requested: Seq<char>) -> Seq<char> {
    below(platform, root, names_in(requested, pieces(platform, requested)))
}

/// A component that Windows resolves to the repository's metadata.
pub open spec fn is_git_name(component: Seq<char>) -> bool {
    ascii_lower(trim_end(component, CharClass::DotOrSpace)) == ".git"@
}

/// Some component of the path is the repository's metadata.
pub open spec fn names_git(path: Seq<char>) -> bool {
    let parts = ranges_text(path, word_ranges(path, CharClass::Separator, 0));
    exists|i: int| 0 <= i < parts.len() && is_git_name(#[trigger] parts[i])
}

/// The wire spelling of a path: its names with `/` between them.
pub open spec fn wire_path(names: Seq<Seq<char>>) -> Seq<char> {
    join(names, "/"@)
}

/// Collects the names in a spelling.
pub fn collect_names(platform: Platform, s: &[char]) -> (r: Vec<Vec<char>>)
    ensures
        words_of(r@) == names_in(s@, pieces(platform, s@)),
{
    let v = components(platform, s);
    let ghost all = pieces_view(v@);
    let mut r: Vec<Vec<char>> = Vec::new();
    let mut i: usize = 0;
    assert(words_of(r@) =~= names_in(s@, all.take(0)));
    while i < v.len()
        invariant
            i <= v@.len(),
            all == pieces_view(v@),
            pieces_inside(s@, all),
            words_of(r@) == names_in(s@, all.take(i as int)),
        decreases v@.len() - i,
    {
        assert(all[i as int] == v@[i as int]@);
        assert(all.take(i + 1).drop_last() =~= all.take(i as int));
        if v[i].kind == PieceKind::Normal {
            let ghost before = r@;
            let name = slice_subrange(s, v[i].start, v[i].end);
            r.push(owned(name));
            assert(words_of(r@) =~= words_of(before).push(name@));
        }
        i = i + 1;
    }
    assert(all.take(i as int) =~= all);
    r
}

/// The wire spelling of the names.
pub fn wire_join(names: &[Vec<char>]) -> (r: String)
    ensures
        r@ == wire_path(words_of(names@)),
{
    text_of(joined(names, "/").as_slice())
}

fn all_cur_dir(platform: Platform, s: &[char]) -> (r: bool)
    ensures
        r == names_the_root(platform, s@),
{
    let v = components(platform, s);
    let ghost all = pieces_view(v@);
    let mut i: usize = 0;
    while i < v.len()
        invariant
            i <= v@.len(),
            all == pieces_view(v@),
            all == pieces(platform, s@),
            forall|k: int| 0 <= k < i ==> (#[trigger] all[k]).kind == PieceKind::CurDir,
        decreases v@.len() - i,
    {
        assert(all[i as int] == v@[i as int]@);
        if v[i].kind != PieceKind::CurDir {
            return false;
        }
        i = i + 1;
    }
    true
}

fn only_down(platform: Platform, s: &[char]) -> (r: bool)
    ensures
        r == leads_down(platform, s@),
{
    let v = components(platform, s);
    let ghost all = pieces_view(v@);
    let mut i: usize = 0;
    while i < v.len()
        invariant
            i <= v@.len(),
            all == pieces_view(v@),
            all == pieces(platform, s@),
            forall|k: int|
                0 <= k < i ==> (#[trigger] all[k]).kind == PieceKind::CurDir || all[k].kind
                    == PieceKind::Normal,
        decreases v@.len() - i,
    {
        assert(all[i as int] == v@[i as int]@);
        if v[i].kind != PieceKind::CurDir && v[i].kind != PieceKind::Normal {
            return false;
        }
        i = i + 1;
    }
    true
}

/// The path that names lead to from a folder.
pub fn join_names(platform: Platform, root: &[char], names: &[Vec<char>]) -> (r: Vec<char>)
    ensures
        r@ == below(platform, root@, words_of(names@)),
{
    let mut r = owned(root);
    let ghost all = words_of(names@);
    let mut i: usize = 0;
    assert(all.take(0) =~= Seq::<Seq<char>>::empty());
    while i < names.len()
        invariant
            i <= names@.len(),
            all == words_of(names@),
            r@ == below(platform, root@, all.take(i as int)),
        decreases names@.len() - i,
    {
        assert(all.take(i + 1).drop_last() =~= all.take(i as int));
        assert(all[i as int] == names@[i as int]@);
        r = join_name(platform, r.as_slice(), names[i].as_slice());
        i = i + 1;
    }
    assert(all.take(i as int) =~= all);
    r
}

/// Whether a path names the repository's metadata, in any spelling that Windows
/// resolves to it.
pub fn names_git_metadata(path: &str) -> (r: bool)
    ensures
        r == names_git(path@),
{
    let chars = chars_of(path);
    let s = chars.as_slice();
    let ranges = split_words(s, CharClass::Separator, 0);
    let ghost parts = ranges_text(path@, word_ranges(path@, CharClass::Separator, 0));
    let mut i: usize = 0;
    while i < ranges.len()
        invariant
            i <= ranges@.len(),
            s@ == path@,
            ranges_inside(s@, ranges@),
            int_ranges(ranges@) == word_ranges(path@, CharClass::Separator, 0),
            parts == ranges_text(path@, word_ranges(path@, CharClass::Separator, 0)),
            forall|k: int| 0 <= k < i ==> !is_git_name(#[trigger] parts[k]),
        decreases ranges@.len() - i,
    {
        let part = slice_subrange(s, ranges[i].0, ranges[i].1);
        assert(int_ranges(ranges@)[i as int] == (
            ranges@[i as int].0 as int,
            ranges@[i as int].1 as int,
        ));
        assert(part@ == parts[i as int]);
        let name = lower_chars(trimmed_end(part, CharClass::DotOrSpace));
        if spells(name.as_slice(), ".git") {
            return true;
        }
        i = i + 1;
    }
    assert(int_ranges(ranges@).len() == ranges@.len());
    false
}

/// What stands at an entry.
#[derive(Clone, Copy, Debug, PartialEq, Eq, Structural)]
pub struct EntryStat {
    pub is_dir: bool,
    pub is_file: bool,
    pub len: u64,
    /// The time of the last change, in milliseconds, where there is one.
    pub modified_at: Option<i64>,
}

/// What the walk over the disk found, link by link never followed.
#[derive(Clone, Copy, Debug, PartialEq, Eq, Structural)]
pub enum Walked {
    /// The entry itself is a link.
    LinkFinal,
    /// A folder on the way is a link.
    LinkCrossed,
    Missing,
    Inside(EntryStat),
}

/// What the spelling of a request says before the disk is asked: where it
/// leads, or why it is refused.
pub open spec fn spelled(
    platform: Platform,
    root: Seq<char>,
    requested: Seq<char>,
) -> Result<Seq<char>, Refusal> {
    if names_the_root(platform, requested) {
        Err(Refusal::TheRoot)
    } else if !leads_down(platform, requested) {
        Err(Refusal::Outside)
    } else if names_git(requested) {
        Err(Refusal::NotPartOfTheTree)
    } else {
        Ok(target_of(platform, root, requested))
    }
}

/// What the walk says of an entry.
pub open spec fn walk_verdict(walked: Walked) -> Result<EntryStat, Refusal> {
    match walked {
        Walked::LinkFinal => Err(Refusal::LinkFinal),
        Walked::LinkCrossed => Err(Refusal::LinkCrossed),
        Walked::Missing => Err(Refusal::DoesNotExist),
        Walked::Inside(stat) => Ok(stat),
    }
}

/// The entry that a request names, vouched for.
pub open spec fn vouched(
    platform: Platform,
    root: Seq<char>,
    requested: Seq<char>,
    walked: Walked,
) -> Result<
    (Seq<char>, EntryStat),
    Refusal,
> {
    match spelled(platform, root, requested) {
        Err(refusal) => Err(refusal),
        Ok(target) => match walk_verdict(walked) {
            Err(refusal) => Err(refusal),
            Ok(stat) => Ok((target, stat)),
        },
    }
}

/// A path or a refusal.
pub open spec fn path_view(r: Result<String, Refusal>) -> Result<Seq<char>, Refusal> {
    match r {
        Ok(path) => Ok(path@),
        Err(refusal) => Err(refusal),
    }
}

/// A vouched entry or a refusal.
pub open spec fn entry_outcome(r: Result<(String, EntryStat), Refusal>) -> Result<
    (Seq<char>, EntryStat),
    Refusal,
> {
    match r {
        Ok(e) => Ok((e.0@, e.1)),
        Err(refusal) => Err(refusal),
    }
}

/// Vouches for the spelling of a request.
pub fn entry_at(platform: Platform, root: &str, requested: &str) -> (r: Result<String, Refusal>)
    ensures
        path_view(r) == spelled(platform, root@, requested@),
{
    let s = chars_of(requested);
    if all_cur_dir(platform, s.as_slice()) {
        return Err(Refusal::TheRoot);
    }
    if !only_down(platform, s.as_slice()) {
        return Err(Refusal::Outside);
    }
    if names_git_metadata(requested) {
        return Err(Refusal::NotPartOfTheTree);
    }
    let base = chars_of(root);
    let names = collect_names(platform, s.as_slice());
    Ok(text_of(join_names(platform, base.as_slice(), names.as_slice()).as_slice()))
}

/// Vouches for the entry that a request names; `walked` is what the walk over
/// the disk found, and counts only where the spelling is in order.
pub fn vouched_entry(platform: Platform, root: &str, requested: &str, walked: Walked) -> (r: Result<
    (String, EntryStat),
    Refusal,
>)
    ensures
        entry_outcome(r) == vouched(platform, root@, requested@, walked),
{
    match entry_at(platform, root, requested) {
        Err(refusal) => Err(refusal),
        Ok(target) => match walked {
            Walked::LinkFinal => Err(Refusal::LinkFinal),
            Walked::LinkCrossed => Err(Refusal::LinkCrossed),
            Walked::Missing => Err(Refusal::DoesNotExist),
            Walked::Inside(stat) => Ok((target, stat)),
        },
    }
}

/// The name that an entry may be given: the trimmed spelling, judged in a fixed
/// order.
pub open spec fn judged_name(platform: Platform, name: Seq<char>) -> Result<Seq<char>, Refusal> {
    let t = trim(name, CharClass::White);
    if t.len() == 0 {
        Err(Refusal::NameEmpty)
    } else if t == "."@ || t == ".."@ {
        Err(Refusal::NameDot)
    } else if exists|i: int| 0 <= i < t.len() && is_separator(#[trigger] t[i]) {
        Err(Refusal::NameSeparator)
    } else if names_git(t) {
        Err(Refusal::NotPartOfTheTree)
    } else if t.last() == '.' || t.last() == ' ' {
        Err(Refusal::NameTrailing)
    } else if pieces(platform, t).len() != 1 || pieces(platform, t)[0].kind != PieceKind::Normal {
        Err(Refusal::NameInvalid)
    } else {
        Ok(t)
    }
}

fn has_separator(s: &[char]) -> (r: bool)
    ensures
        r == exists|i: int| 0 <= i < s@.len() && is_separator(#[trigger] s@[i]),
{
    let mut i: usize = 0;
    while i < s.len()
        invariant
            i <= s@.len(),
            forall|k: int| 0 <= k < i ==> !is_separator(#[trigger] s@[k]),
        decreases s@.len() - i,
    {
        if s[i] == '/' || s[i] == '\\' {
            return true;
        }
        i = i + 1;
    }
    false
}

/// Judges a new name: not empty, not `.` or `..`, without separators, not the
/// repository's metadata, not one that Windows would rewrite, and one name.
pub fn usable_name(platform: Platform, name: &str) -> (r: Result<String, Refusal>)
    ensures
        path_view(r) == judged_name(platform, name@),
{
    let chars = chars_of(name);
    let t = trimmed(chars.as_slice(), CharClass::White);
    if t.len() == 0 {
        return Err(Refusal::NameEmpty);
    }
    if spells(t, ".") || spells(t, "..") {
        return Err(Refusal::NameDot);
    }
    if has_separator(t) {
        return Err(Refusal::NameSeparator);
    }
    let text = text_of(t);
    if names_git_metadata(text.as_str()) {
        return Err(Refusal::NotPartOfTheTree);
    }
    if t[t.len() - 1] == '.' || t[t.len() - 1] == ' ' {
        return Err(Refusal::NameTrailing);
    }
    let v = components(platform, t);
    assert(pieces_view(v@).len() == v@.len());
    if v.len() != 1 {
        return Err(Refusal::NameInvalid);
    }
    assert(pieces_view(v@)[0] == v@[0]@);
    if v[0].kind != PieceKind::Normal {
        return Err(Refusal::NameInvalid);
    }
    Ok(text)
}

/// What a write answers: the entry's new spelling, or why it was refused.
#[derive(Debug, PartialEq, Eq)]
pub struct WorkspaceFileMutation {
    pub new_path: Option<String>,
    pub error: Option<String>,
}

/// One write succeeded, and the entry has a new spelling.
pub fn answered(new_path: String) -> (r: WorkspaceFileMutation)
    ensures
        r.new_path == Some(new_path),
        r.error is None,
{
    WorkspaceFileMutation { new_path: Some(new_path), error: None }
}

/// One write was refused: the sentence says why, and no path is claimed.
pub fn refused(sentence: String) -> (r: WorkspaceFileMutation)
    ensures
        r.new_path is None,
        r.error == Some(sentence),
{
    WorkspaceFileMutation { new_path: None, error: Some(sentence) }
}

/// A delete succeeded: there is nothing left to name.
pub fn erased() -> (r: WorkspaceFileMutation)
    ensures
        r.new_path is None,
        r.error is None,
{
    WorkspaceFileMutation { new_path: None, error: None }
}

/// The reply to a write that gives an entry a new spelling; `act` is its
/// outcome, or the sentence of a workspace that could not be resolved.
pub fn mutation_reply(act: Result<String, String>) -> (r: WorkspaceFileMutation)
    ensures
        match act {
            Ok(new_path) => r.new_path == Some(new_path) && r.error is None,
            Err(sentence) => r.new_path is None && r.error == Some(sentence),
        },
{
    match act {
        Ok(new_path) => answered(new_path),
        Err(sentence) => refused(sentence),
    }
}

/// The reply to a delete.
pub fn deletion_reply(act: Result<(), String>) -> (r: WorkspaceFileMutation)
    ensures
        match act {
            Ok(()) => r.new_path is None && r.error is None,
            Err(sentence) => r.new_path is None && r.error == Some(sentence),
        },
{
    match act {
        Ok(()) => erased(),
        Err(sentence) => refused(sentence),
    }
}

/// An act on the workspace's own folder, outside it, or on the repository's
/// metadata is refused whatever the disk holds.
pub proof fn law_spelling_is_judged_before_the_disk(
    platform: Platform,
    root: Seq<char>,
    requested: Seq<char>,
    walked: Walked,
)
    requires
        names_the_root(platform, requested) || !leads_down(platform, requested) || names_git(requested),
    ensures
        vouched(platform, root, requested, walked) is Err,
        vouched(platform, root, requested, walked)->Err_0 == spelled(platform, root, requested)->Err_0,
{
}

/// Neither a link nor what lies behind one is ever vouched for.
pub proof fn law_links_are_never_vouched_for(
    platform: Platform,
    root: Seq<char>,
    requested: Seq<char>,
    walked: Walked,
)
    requires
        vouched(platform, root, requested, walked) is Ok,
    ensures
        walked is Inside,
{
}

/// A name that a path spells as it is: no separator, no drive mark, and neither
/// `.` nor `..`.
pub open spec fn is_simple_name(name: Seq<char>) -> bool {
    &&& name.len() > 0
    &&& name != "."@
    &&& name != ".."@
    &&& forall|i: int|
        0 <= i < name.len() ==> #[trigger] name[i] != '/' && name[i] != '\\' && name[i] != ':'
}

proof fn lemma_joined_words(names: Seq<Seq<char>>, class: CharClass)
    requires
        names.len() > 0,
        class == CharClass::Slash || class == CharClass::Separator,
        forall|k: int| 0 <= k < names.len() ==> is_simple_name(#[trigger] names[k]),
    ensures
        ranges_text(join(names, "/"@), word_ranges(join(names, "/"@), class, 0)) == names,
        join(names, "/"@).len() > 0,
        !is_separator(join(names, "/"@)[0]),
        !is_separator(join(names, "/"@).last()),
    decreases names.len(),
{
    reveal_strlit("/");
    let whole = join(names, "/"@);
    let last = names.last();
    assert(is_simple_name(names[names.len() - 1]));
    assert forall|i: int| 0 <= i < last.len() implies !belongs(class, #[trigger] last[i]) by {
        assert(last[i] != '/');
    }
    if names.len() == 1 {
        lemma_word_at_the_end(whole, class, 0);
        assert(whole.subrange(0, whole.len() as int) =~= whole);
        assert(ranges_text(whole, word_ranges(whole, class, 0)) =~= names);
        assert(whole[0] != '/');
        assert(whole[whole.len() - 1] != '/');
    } else {
        let rest = names.drop_last();
        assert forall|k: int| 0 <= k < rest.len() implies is_simple_name(#[trigger] rest[k]) by {
            assert(rest[k] == names[k]);
        }
        lemma_joined_words(rest, class);
        let head = join(rest, "/"@);
        assert(whole =~= head.push('/') + last);
        lemma_word_ranges_append(head, class, '/', last, 0);
        let before = word_ranges(head, class, 0);
        let all = word_ranges(whole, class, 0);
        let at = (head.len() + 1) as int;
        assert(whole.subrange(at, at + last.len()) =~= last);
        assert forall|k: int| 0 <= k < all.len() implies #[trigger] ranges_text(whole, all)[k]
            == names[k] by {
            if k < before.len() {
                assert(all[k] == before[k]);
                lemma_one_word(head, class, 0, k);
                assert(whole.subrange(all[k].0, all[k].1) =~= head.subrange(all[k].0, all[k].1));
                assert(ranges_text(head, before)[k] == rest[k]);
            }
        }
        assert(ranges_text(head, before).len() == rest.len());
        assert(ranges_text(whole, all) =~= names);
        assert(whole[0] == head[0]);
        assert(last[last.len() - 1] != '/');
        assert(whole.last() == last.last());
    }
}

proof fn lemma_body_names(s: Seq<char>, ranges: Seq<(int, int)>)
    requires
        forall|k: int|
            0 <= k < ranges.len() ==> name_kind(
                s.subrange((#[trigger] ranges[k]).0, ranges[k].1),
            ) == PieceKind::Normal,
    ensures
        names_in(s, body_pieces(s, ranges, false)) == ranges_text(s, ranges),
        body_pieces(s, ranges, false).len() == ranges.len(),
        forall|i: int|
            0 <= i < body_pieces(s, ranges, false).len() ==> (#[trigger] body_pieces(
                s,
                ranges,
                false,
            )[i]).kind == PieceKind::Normal,
    decreases ranges.len(),
{
    if ranges.len() > 0 {
        let rest = ranges.drop_last();
        assert forall|k: int| 0 <= k < rest.len() implies name_kind(
            s.subrange((#[trigger] rest[k]).0, rest[k].1),
        ) == PieceKind::Normal by {
            assert(rest[k] == ranges[k]);
        }
        lemma_body_names(s, rest);
        assert(ranges[ranges.len() - 1] == ranges.last());
        let all = body_pieces(s, ranges, false);
        assert(all.drop_last() =~= body_pieces(s, rest, false));
        assert(names_in(s, all) =~= ranges_text(s, ranges));
    } else {
        assert(names_in(s, body_pieces(s, ranges, false)) =~= ranges_text(s, ranges));
    }
}

proof fn lemma_plain_request(platform: Platform, names: Seq<Seq<char>>)
    requires
        names.len() > 0,
        forall|k: int| 0 <= k < names.len() ==> is_simple_name(#[trigger] names[k]),
    ensures
        ({
            let requested = join(names, "/"@);
            &&& names_in(requested, pieces(platform, requested)) == names
            &&& pieces(platform, requested).len() == names.len()
            &&& forall|i: int|
                0 <= i < names.len() ==> (#[trigger] pieces(platform, requested)[i]).kind
                    == PieceKind::Normal
        }),
{
    reveal_strlit("/");
    reveal_strlit("\\\\?\\");
    let s = join(names, "/"@);
    let class = match platform {
        Platform::Windows => CharClass::Separator,
        Platform::Unix => CharClass::Slash,
    };
    lemma_joined_words(names, class);
    let ranges = word_ranges(s, class, 0);
    assert(is_verbatim(s) ==> s.take(4)[0] == s[0]);
    law_joining_keeps_every_part(names, "/"@, 0);
    assert(is_simple_name(names[0]));
    let first = names[0];
    assert forall|i: int| 0 <= i < first.len() implies s[i] == #[trigger] first[i] by {
        assert(s.subrange(0, first.len() as int)[i] == s[i]);
    }
    assert(s.len() > first.len() ==> s[first.len() as int] == '/') by {
        if names.len() > 1 {
            law_joining_keeps_every_part(names, "/"@, 1);
            let o = part_offset(names, 1, 1);
            assert(part_offset(names, 1, 0) == 0);
            assert(s.subrange(o - 1, o)[0] == s[o - 1]);
        }
    }
    assert(s.len() >= 2 ==> s[1] != ':') by {
        if first.len() > 1 {
            assert(first[1] != ':');
        }
    }
    assert(prefix_len(platform, s) == 0);
    assert(first[0] != '/');
    assert(!has_physical_root(platform, s));
    assert(!begins_with_dot(platform, s)) by {
        if s[0] == '.' && (s.len() == 1 || separates(platform, s[1])) {
            reveal_strlit(".");
            if first.len() > 1 {
                assert(first[1] != '/');
            }
            assert(first =~= "."@);
        }
    }
    assert(head_pieces(platform, s) =~= Seq::empty());
    assert(separator_class(platform, s) == class);
    assert(pieces(platform, s) =~= body_pieces(s, ranges, false));
    assert forall|k: int| 0 <= k < ranges.len() implies name_kind(
        s.subrange((#[trigger] ranges[k]).0, ranges[k].1),
    ) == PieceKind::Normal by {
        assert(ranges_text(s, ranges)[k] == names[k]);
    }
    lemma_body_names(s, ranges);
    assert(ranges_text(s, ranges).len() == ranges.len());
}

/// Where names lead from a folder: the folder and the names, joined.
pub proof fn lemma_below(platform: Platform, root: Seq<char>, names: Seq<Seq<char>>)
    requires
        root.len() > 0,
        !separates(platform, root.last()),
        platform == Platform::Windows ==> !(root.len() == 2 && has_drive(root)),
        forall|k: int| 0 <= k < names.len() ==> is_simple_name(#[trigger] names[k]),
    ensures
        below(platform, root, names) == join(
            seq![root] + names,
            match platform {
                Platform::Windows => "\\"@,
                Platform::Unix => "/"@,
            },
        ),
        below(platform, root, names).len() >= root.len(),
        below(platform, root, names).len() > 0,
        !separates(platform, below(platform, root, names).last()),
        names.len() > 0 ==> below(platform, root, names).len() > 2,
    decreases names.len(),
{
    reveal_strlit("/");
    reveal_strlit("\\");
    let sep = match platform {
        Platform::Windows => "\\"@,
        Platform::Unix => "/"@,
    };
    if names.len() == 0 {
        assert(seq![root] + names =~= seq![root]);
    } else {
        let rest = names.drop_last();
        assert forall|k: int| 0 <= k < rest.len() implies is_simple_name(#[trigger] rest[k]) by {
            assert(rest[k] == names[k]);
        }
        lemma_below(platform, root, rest);
        let last = names.last();
        assert(is_simple_name(names[names.len() - 1]));
        assert(last[last.len() - 1] != '/');
        assert((seq![root] + names).drop_last() =~= seq![root] + rest);
        let base = below(platform, root, rest);
        assert(below(platform, root, names) =~= base + sep + last);
    }
}

/// What separates components on a platform, as text.
pub open spec fn mark_of(platform: Platform) -> Seq<char> {
    match platform {
        Platform::Windows => "\\"@,
        Platform::Unix => "/"@,
    }
}

/// A workspace's folder that a name can be put behind: it is not empty, does not
/// end in a separator and is no bare drive.
pub open spec fn is_plain_root(platform: Platform, root: Seq<char>) -> bool {
    &&& root.len() > 0
    &&& !separates(platform, root.last())
    &&& platform == Platform::Windows ==> !(root.len() == 2 && has_drive(root))
}

/// A list of names that a request can be made of: simple ones, and none of them
/// the repository's metadata.
pub open spec fn are_plain_names(names: Seq<Seq<char>>) -> bool {
    &&& names.len() > 0
    &&& forall|k: int|
        0 <= k < names.len() ==> is_simple_name(#[trigger] names[k]) && !is_git_name(names[k])
}

/// A request made of simple names leads to the entry of those names below the
/// workspace's folder: the folder and the names, each once and in their order,
/// with the platform's separator between each two of them.
pub proof fn law_requests_lead_to_what_they_name(
    platform: Platform,
    root: Seq<char>,
    names: Seq<Seq<char>>,
)
    requires
        root.len() > 0,
        !separates(platform, root.last()),
        platform == Platform::Windows ==> !(root.len() == 2 && has_drive(root)),
        names.len() > 0,
        forall|k: int|
            0 <= k < names.len() ==> is_simple_name(#[trigger] names[k]) && !is_git_name(names[k]),
    ensures
        spelled(platform, root, join(names, "/"@)) == Ok::<Seq<char>, Refusal>(
            join(
                seq![root] + names,
                match platform {
                    Platform::Windows => "\\"@,
                    Platform::Unix => "/"@,
                },
            ),
        ),
        names_in(join(names, "/"@), pieces(platform, join(names, "/"@))) == names,
{
    let requested = join(names, "/"@);
    lemma_plain_request(platform, names);
    lemma_below(platform, root, names);
    lemma_joined_words(names, CharClass::Separator);
    let v = pieces(platform, requested);
    assert(v[0].kind == PieceKind::Normal);
    assert(!names_the_root(platform, requested));
    assert(!names_git(requested)) by {
        let parts = ranges_text(requested, word_ranges(requested, CharClass::Separator, 0));
        assert(parts == names);
    }
}

/// A request that leads up, or that names a place by itself, is refused as
/// outside, whatever else it spells.
pub proof fn law_requests_never_leave_the_folder(
    platform: Platform,
    root: Seq<char>,
    requested: Seq<char>,
    a: int,
    b: int,
)
    requires
        !reads_verbatim(platform, requested),
        0 <= names_from(platform, requested) <= requested.len(),
        has_physical_root(platform, requested) || prefix_len(platform, requested) > 0 || (is_run(
            platform,
            requested,
            names_from(platform, requested),
            a,
            b,
        ) && requested.subrange(a, b) == seq!['.', '.']),
    ensures
        spelled(platform, root, requested) == Err::<Seq<char>, Refusal>(Refusal::Outside),
{
    reveal_strlit(".");
    reveal_strlit("..");
    assert(".."@ =~= seq!['.', '.']);
    let v = pieces(platform, requested);
    let head = head_pieces(platform, requested);
    if has_physical_root(platform, requested) || prefix_len(platform, requested) > 0 {
        assert(head.len() > 0);
        assert(v[0] == head[0]);
        assert(v[0].kind == PieceKind::Prefix || v[0].kind == PieceKind::RootDir);
    } else {
        law_names_are_what_separators_leave(platform, requested);
        assert(requested.subrange(a, b) != "."@);
        let i = choose|i: int|
            head_len(platform, requested) <= i < v.len() && (#[trigger] v[i]).start == a && v[i].end
                == b;
        assert(v[i].kind == PieceKind::ParentDir);
    }
}

/// Nothing, `.` and more of `.` name the folder itself and are refused as that.
pub proof fn law_the_folder_itself_is_refused(platform: Platform, root: Seq<char>)
    ensures
        spelled(platform, root, Seq::empty()) == Err::<Seq<char>, Refusal>(Refusal::TheRoot),
        spelled(platform, root, seq!['.']) == Err::<Seq<char>, Refusal>(Refusal::TheRoot),
{
    reveal_strlit("\\\\?\\");
    reveal_strlit(".");
    let none = Seq::<char>::empty();
    let dot = seq!['.'];
    let class = separator_class(platform, dot);
    assert(word_ranges(none, separator_class(platform, none), 0) =~= Seq::empty());
    assert(pieces(platform, none) =~= Seq::empty());
    lemma_word_at_the_end(dot, class, 0);
    let ranges = word_ranges(dot, class, 0);
    assert(dot.subrange(0, 1) =~= "."@);
    reveal_with_fuel(body_pieces, 2);
    assert(ranges.drop_last() =~= Seq::empty());
    assert(body_pieces(dot, ranges, false) =~= Seq::empty());
    assert(begins_with_dot(platform, dot));
    assert(pieces(platform, dot) =~= head_pieces(platform, dot));
}

/// The repository's metadata is known in every spelling that Windows resolves to
/// it: `.git` in any case, with any dots and spaces behind it, and nothing else.
pub proof fn law_metadata_is_known_in_any_spelling(component: Seq<char>)
    ensures
        is_git_name(component) <==> component.len() >= 4 && component[0] == '.' && (component[1]
            == 'g' || component[1] == 'G') && (component[2] == 'i' || component[2] == 'I') && (
        component[3] == 't' || component[3] == 'T') && (forall|i: int|
            4 <= i < component.len() ==> #[trigger] component[i] == '.' || component[i] == ' '),
{
    reveal_strlit(".git");
    let class = CharClass::DotOrSpace;
    lemma_run_start(component, class, component.len() as int);
    let b = run_start(component, class, component.len() as int);
    let t = trim_end(component, class);
    assert(t =~= component.take(b));
    let l = ascii_lower(t);
    if is_git_name(component) {
        assert(l.len() == 4);
        assert(b == 4);
        assert(l[0] == '.' && l[1] == 'g' && l[2] == 'i' && l[3] == 't');
        lemma_lower_is(component[1], 'g');
        lemma_lower_is(component[2], 'i');
        lemma_lower_is(component[3], 't');
        lemma_lower_is(component[0], '.');
        assert forall|i: int| 4 <= i < component.len() implies #[trigger] component[i] == '.'
            || component[i] == ' ' by {
            assert(belongs(class, component[i]));
        }
    }
    if component.len() >= 4 && component[0] == '.' && (component[1] == 'g' || component[1] == 'G')
        && (component[2] == 'i' || component[2] == 'I') && (component[3] == 't' || component[3]
        == 'T') && (forall|i: int|
        4 <= i < component.len() ==> #[trigger] component[i] == '.' || component[i] == ' ') {
        assert forall|i: int| 4 <= i < component.len() implies belongs(
            class,
            #[trigger] component[i],
        ) by {}
        lemma_run_start_is(component, class, component.len() as int, 4);
        assert(b == 4);
        lemma_lower_is(component[1], 'g');
        lemma_lower_is(component[2], 'i');
        lemma_lower_is(component[3], 't');
        lemma_lower_is(component[0], '.');
        assert(l =~= ".git"@);
    }
}

proof fn lemma_lower_is(c: char, low: char)
    requires
        low == '.' || 'a' <= low <= 'z',
    ensures
        lower_char(c) == low <==> c == low || (low != '.' && c as u32 + 32 == low as u32),
{
}

/// A request that names the metadata anywhere is refused, however it leads there.
pub proof fn law_metadata_is_refused(
    platform: Platform,
    root: Seq<char>,
    requested: Seq<char>,
    a: int,
    b: int,
)
    requires
        crate::workspace::is_component(requested, a, b),
        is_git_name(requested.subrange(a, b)),
    ensures
        spelled(platform, root, requested) is Err,
{
    let class = CharClass::Separator;
    assert(requested[a] != '/');
    let k = lemma_word_of(requested, class, 0, a);
    lemma_one_word(requested, class, 0, k);
    let r = word_ranges(requested, class, 0)[k];
    if r.0 < a {
        assert(!belongs(class, requested[a - 1]));
    }
    if r.1 < b {
        assert(belongs(class, requested[r.1]));
        assert(requested[r.1] != '/');
    } else if b < r.1 {
        assert(!belongs(class, requested[b]));
    }
    assert(r == (a, b));
    let parts = ranges_text(requested, word_ranges(requested, class, 0));
    assert(parts[k] == requested.subrange(a, b));
    assert(names_git(requested));
}

/// What the walk found decides over a vouched spelling: links are refused as the
/// entry's own or as crossed, a missing entry as missing, and an entry inside is
/// vouched for with its stat.
pub proof fn law_the_walk_decides_over_the_entry(
    platform: Platform,
    root: Seq<char>,
    requested: Seq<char>,
    target: Seq<char>,
    stat: EntryStat,
)
    requires
        spelled(platform, root, requested) == Ok::<Seq<char>, Refusal>(target),
    ensures
        vouched(platform, root, requested, Walked::LinkFinal) == Err::<(Seq<char>, EntryStat), Refusal>(
            Refusal::LinkFinal,
        ),
        vouched(platform, root, requested, Walked::LinkCrossed) == Err::<
            (Seq<char>, EntryStat),
            Refusal,
        >(Refusal::LinkCrossed),
        vouched(platform, root, requested, Walked::Missing) == Err::<(Seq<char>, EntryStat), Refusal>(
            Refusal::DoesNotExist,
        ),
        vouched(platform, root, requested, Walked::Inside(stat)) == Ok::<
            (Seq<char>, EntryStat),
            Refusal,
        >((target, stat)),
{
}

/// A new name is judged without its outer whitespace: it is refused for being
/// empty, a dot name, more than a name, the metadata, or one that Windows would
/// rewrite, and a simple name is taken as it is.
pub proof fn law_new_names_are_judged_one_rule_after_the_other(
    platform: Platform,
    name: Seq<char>,
)
    requires
        name.len() > 0 ==> !is_white(name[0]) && !is_white(name.last()),
    ensures
        ({
            let refused = |why: Refusal| Err::<Seq<char>, Refusal>(why);
            let judged = judged_name(platform, name);
            let separated = exists|i: int|
                0 <= i < name.len() && (#[trigger] name[i] == '/' || name[i] == '\\');
            let dots = name == seq!['.'] || name == seq!['.', '.'];
            &&& name.len() == 0 ==> judged == refused(Refusal::NameEmpty)
            &&& dots ==> judged == refused(Refusal::NameDot)
            &&& name.len() > 0 && !dots && separated ==> judged == refused(Refusal::NameSeparator)
            &&& name.len() > 0 && !dots && !separated ==> {
                &&& is_git_name(name) ==> judged == refused(Refusal::NotPartOfTheTree)
                &&& !is_git_name(name) && name.last() == '.' ==> judged == refused(
                    Refusal::NameTrailing,
                )
                &&& !is_git_name(name) && name.last() != '.' && is_simple_name(name) ==> judged == Ok::<
                    Seq<char>,
                    Refusal,
                >(name)
                &&& (judged matches Ok(taken) ==> taken == name)
            }
        }),
{
    reveal_strlit(".");
    reveal_strlit("..");
    assert("."@ =~= seq!['.']);
    assert(".."@ =~= seq!['.', '.']);
    lemma_trimmed_stays(name, CharClass::White);
    let separated = exists|i: int|
        0 <= i < name.len() && (#[trigger] name[i] == '/' || name[i] == '\\');
    if separated {
        let i = choose|i: int|
            0 <= i < name.len() && (#[trigger] name[i] == '/' || name[i] == '\\');
        assert(is_separator(name[i]));
    }
    if name.len() > 0 && !separated {
        assert forall|i: int| 0 <= i < name.len() implies !belongs(
            CharClass::Separator,
            #[trigger] name[i],
        ) by {
            assert(name[i] != '/');
        }
        lemma_word_at_the_end(name, CharClass::Separator, 0);
        assert(name.subrange(0, name.len() as int) =~= name);
        let parts = ranges_text(name, word_ranges(name, CharClass::Separator, 0));
        assert(parts =~= seq![name]);
        assert(parts[0] == name);
        if is_simple_name(name) {
            let one = seq![name];
            assert(is_simple_name(one[0]));
            reveal_strlit("/");
            assert(join(one, "/"@) =~= name);
            lemma_plain_request(platform, one);
            assert(pieces(platform, name)[0].kind == PieceKind::Normal);
        }
        assert(name.last() != ' ');
    }
}

} // verus!
