//! Path spellings, read lexically by the rules of a platform.
//!
//! A Windows path is an optional prefix (`C:`, `\\server\share`, `\\?\C:`, …),
//! an optional root, and components. `/` and `\` both separate components, except
//! behind a verbatim prefix (`\\?\`), where only `\` does. Elsewhere there is no
//! prefix, and only `/` separates. Repeated separators count once, and `.` stands
//! for nothing unless a path begins with it or is verbatim. Nothing here looks at
//! the disk.
use crate::platform::Platform;
use crate::text::{
    belongs, find_in, has_prefix, int_ranges, is_letter, is_separator, lemma_one_word,
    lemma_word_of, lemma_word_ranges, lemma_word_ranges_append, letter, next_in, push_all,
    ranges_inside, spells, split_words, starts_with, word_ranges, CharClass,
};
use vstd::prelude::*;
use vstd::slice::slice_subrange;

verus! {

/// What a component of a path is.
#[derive(Clone, Copy, Debug, PartialEq, Eq, Structural)]
pub enum PieceKind {
    Prefix,
    RootDir,
    CurDir,
    ParentDir,
    Normal,
}

/// A component and where it stands in the text.
#[derive(Clone, Copy, Debug)]
pub struct PathPiece {
    pub kind: PieceKind,
    pub start: usize,
    pub end: usize,
}

/// A component and where it stands in the text, as integers.
pub struct Piece {
    pub kind: PieceKind,
    pub start: int,
    pub end: int,
}

impl View for PathPiece {
    type V = Piece;

    open spec fn view(&self) -> Piece {
        Piece { kind: self.kind, start: self.start as int, end: self.end as int }
    }
}

pub open spec fn pieces_view(v: Seq<PathPiece>) -> Seq<Piece> {
    v.map_values(|p: PathPiece| p@)
}

/// `C:` and what follows.
pub open spec fn has_drive(s: Seq<char>) -> bool {
    s.len() >= 2 && is_letter(s[0]) && s[1] == ':'
}

/// `\\?\` and what follows, with backslashes only.
pub open spec fn is_verbatim(s: Seq<char>) -> bool {
    has_prefix(s, "\\\\?\\"@)
}

/// `\\?\UNC\` and what follows.
pub open spec fn is_verbatim_unc(s: Seq<char>) -> bool {
    is_verbatim(s) && has_prefix(s.skip(4), "UNC"@) && s.len() > 7 && is_separator(s[7])
}

/// `\\?\C:` with nothing behind it but a separator.
pub open spec fn is_verbatim_drive(s: Seq<char>) -> bool {
    is_verbatim(s) && !is_verbatim_unc(s) && has_drive(s.skip(4)) && (s.len() == 6 || is_separator(
        s[6],
    ))
}

/// Two separators and what follows.
pub open spec fn has_double_separator(s: Seq<char>) -> bool {
    s.len() >= 2 && is_separator(s[0]) && is_separator(s[1])
}

/// `\\.\` and what follows.
pub open spec fn is_device(s: Seq<char>) -> bool {
    has_double_separator(s) && s.len() >= 4 && s[2] == '.' && is_separator(s[3])
}

/// The end of a server and a share that start at `from`; a missing share adds
/// nothing.
pub open spec fn share_end(s: Seq<char>, class: CharClass, from: int) -> int {
    let server = next_in(s, class, from);
    if server < s.len() && next_in(s, class, server + 1) > server + 1 {
        next_in(s, class, server + 1)
    } else {
        server
    }
}

/// What separates components on a platform.
pub open spec fn separates(platform: Platform, c: char) -> bool {
    match platform {
        Platform::Windows => is_separator(c),
        Platform::Unix => c == '/',
    }
}

/// A verbatim spelling, on the platform that has them.
pub open spec fn reads_verbatim(platform: Platform, s: Seq<char>) -> bool {
    platform == Platform::Windows && is_verbatim(s)
}

/// The length of the prefix; 0 where there is none. Only Windows has them.
pub open spec fn prefix_len(platform: Platform, s: Seq<char>) -> int {
    if platform == Platform::Unix {
        0
    } else if is_verbatim_unc(s) {
        share_end(s, CharClass::Backslash, 8)
    } else if is_verbatim_drive(s) {
        6
    } else if is_verbatim(s) {
        next_in(s, CharClass::Backslash, 4)
    } else if is_device(s) {
        next_in(s, CharClass::Separator, 4)
    } else if has_double_separator(s) {
        let server = next_in(s, CharClass::Separator, 2);
        let end = share_end(s, CharClass::Separator, 2);
        if server > 2 && end > server {
            end
        } else {
            0
        }
    } else if has_drive(s) {
        2
    } else {
        0
    }
}

/// A separator follows the prefix.
pub open spec fn has_physical_root(platform: Platform, s: Seq<char>) -> bool {
    prefix_len(platform, s) < s.len() && separates(platform, s[prefix_len(platform, s)])
}

/// The prefix alone stands for a root: every prefix but a plain drive does.
pub open spec fn has_implicit_root(platform: Platform, s: Seq<char>) -> bool {
    prefix_len(platform, s) > 0 && (is_verbatim(s) || has_double_separator(s))
}

/// The path names a place by itself: on Windows it has a prefix and a root,
/// elsewhere a root.
pub open spec fn absolute(platform: Platform, s: Seq<char>) -> bool {
    match platform {
        Platform::Windows => prefix_len(platform, s) > 0 && (has_physical_root(platform, s)
            || has_implicit_root(platform, s)),
        Platform::Unix => has_physical_root(platform, s),
    }
}

/// A path without a root begins with the component `.`.
pub open spec fn begins_with_dot(platform: Platform, s: Seq<char>) -> bool {
    let p = prefix_len(platform, s);
    &&& !has_physical_root(platform, s)
    &&& !has_implicit_root(platform, s)
    &&& p < s.len()
    &&& s[p] == '.'
    &&& (p + 1 == s.len() || separates(platform, s[p + 1]))
}

/// The components before the first name: prefix, root, leading `.`.
pub open spec fn head_pieces(platform: Platform, s: Seq<char>) -> Seq<Piece> {
    let p = prefix_len(platform, s);
    let prefix = if p > 0 {
        seq![Piece { kind: PieceKind::Prefix, start: 0, end: p }]
    } else {
        Seq::empty()
    };
    if has_physical_root(platform, s) {
        prefix.push(Piece { kind: PieceKind::RootDir, start: p, end: p + 1 })
    } else if has_implicit_root(platform, s) && !reads_verbatim(platform, s) {
        prefix.push(Piece { kind: PieceKind::RootDir, start: p, end: p })
    } else if begins_with_dot(platform, s) {
        prefix.push(Piece { kind: PieceKind::CurDir, start: p, end: p + 1 })
    } else {
        prefix
    }
}

/// The kind of a component by its name.
pub open spec fn name_kind(name: Seq<char>) -> PieceKind {
    if name == "."@ {
        PieceKind::CurDir
    } else if name == ".."@ {
        PieceKind::ParentDir
    } else {
        PieceKind::Normal
    }
}

/// The components that the ranges spell.
pub open spec fn body_pieces(s: Seq<char>, ranges: Seq<(int, int)>, verbatim: bool) -> Seq<Piece>
    decreases ranges.len(),
{
    if ranges.len() == 0 {
        Seq::empty()
    } else {
        let r = ranges.last();
        let kind = name_kind(s.subrange(r.0, r.1));
        let before = body_pieces(s, ranges.drop_last(), verbatim);
        if kind == PieceKind::CurDir && !verbatim {
            before
        } else {
            before.push(Piece { kind, start: r.0, end: r.1 })
        }
    }
}

/// What separates the components of a path.
pub open spec fn separator_class(platform: Platform, s: Seq<char>) -> CharClass {
    match platform {
        Platform::Windows => if is_verbatim(s) {
            CharClass::Backslash
        } else {
            CharClass::Separator
        },
        Platform::Unix => CharClass::Slash,
    }
}

/// The components of a path.
pub open spec fn pieces(platform: Platform, s: Seq<char>) -> Seq<Piece> {
    let p = prefix_len(platform, s);
    let from = if has_physical_root(platform, s) {
        p + 1
    } else {
        p
    };
    head_pieces(platform, s) + body_pieces(
        s,
        word_ranges(s, separator_class(platform, s), from),
        reads_verbatim(platform, s),
    )
}

/// The characters of a component.
pub open spec fn piece_text(s: Seq<char>, p: Piece) -> Seq<char> {
    s.subrange(p.start, p.end)
}

/// Every component lies inside the text.
pub open spec fn pieces_inside(s: Seq<char>, v: Seq<Piece>) -> bool {
    forall|i: int| 0 <= i < v.len() ==> 0 <= (#[trigger] v[i]).start <= v[i].end <= s.len()
}

fn separator(c: char) -> (r: bool)
    ensures
        r == is_separator(c),
{
    c == '/' || c == '\\'
}

fn separator_on(platform: Platform, c: char) -> (r: bool)
    ensures
        r == separates(platform, c),
{
    c == '/' || (platform == Platform::Windows && c == '\\')
}

fn drive(s: &[char]) -> (r: bool)
    ensures
        r == has_drive(s@),
{
    s.len() >= 2 && letter(s[0]) && s[1] == ':'
}

fn verbatim(s: &[char]) -> (r: bool)
    ensures
        r == is_verbatim(s@),
        r ==> s@.len() >= 4 && has_double_separator(s@),
{
    proof {
        reveal_strlit("\\\\?\\");
    }
    let r = starts_with(s, "\\\\?\\");
    assert(r ==> s@.take(4)[0] == s@[0] && s@.take(4)[1] == s@[1]);
    r
}

fn find_share_end(s: &[char], class: CharClass, from: usize) -> (r: usize)
    requires
        from <= s@.len(),
    ensures
        r == share_end(s@, class, from as int),
        next_in(s@, class, from as int) <= r <= s@.len(),
        from <= r,
{
    let server: usize = find_in(s, class, from);
    if server < s.len() {
        let share: usize = find_in(s, class, server + 1);
        if share > server + 1 {
            return share;
        }
    }
    server
}

/// The length of the prefix of a path.
pub fn find_prefix(platform: Platform, s: &[char]) -> (r: usize)
    ensures
        r == prefix_len(platform, s@),
        r <= s@.len(),
{
    if platform == Platform::Unix {
        return 0;
    }
    if verbatim(s) {
        let rest = slice_subrange(s, 4, s.len());
        assert(rest@ =~= s@.skip(4));
        if starts_with(rest, "UNC") && s.len() > 7 && separator(s[7]) {
            return find_share_end(s, CharClass::Backslash, 8);
        }
        if drive(rest) && (s.len() == 6 || separator(s[6])) {
            return 6;
        }
        return find_in(s, CharClass::Backslash, 4);
    }
    if s.len() >= 2 && separator(s[0]) && separator(s[1]) {
        if s.len() >= 4 && s[2] == '.' && separator(s[3]) {
            return find_in(s, CharClass::Separator, 4);
        }
        let server: usize = find_in(s, CharClass::Separator, 2);
        let end: usize = find_share_end(s, CharClass::Separator, 2);
        if server > 2 && end > server {
            return end;
        }
        return 0;
    }
    if drive(s) {
        2
    } else {
        0
    }
}

/// Whether a path names a place by itself.
pub fn is_absolute(platform: Platform, s: &[char]) -> (r: bool)
    ensures
        r == absolute(platform, s@),
{
    if platform == Platform::Unix {
        return s.len() > 0 && s[0] == '/';
    }
    let p: usize = find_prefix(platform, s);
    if p == 0 {
        return false;
    }
    let double = s.len() >= 2 && separator(s[0]) && separator(s[1]);
    let v = verbatim(s);
    (p < s.len() && separator(s[p])) || v || double
}

/// The components of a path, in their order.
pub fn components(platform: Platform, s: &[char]) -> (r: Vec<PathPiece>)
    ensures
        pieces_view(r@) == pieces(platform, s@),
        pieces_inside(s@, pieces_view(r@)),
{
    let p: usize = find_prefix(platform, s);
    let v = platform == Platform::Windows && verbatim(s);
    let implicit = p > 0 && (v || (s.len() >= 2 && separator(s[0]) && separator(s[1])));
    let physical = p < s.len() && separator_on(platform, s[p]);
    let mut r: Vec<PathPiece> = Vec::new();
    if p > 0 {
        r.push(PathPiece { kind: PieceKind::Prefix, start: 0, end: p });
    }
    if physical {
        r.push(PathPiece { kind: PieceKind::RootDir, start: p, end: p + 1 });
    } else if implicit && !v {
        r.push(PathPiece { kind: PieceKind::RootDir, start: p, end: p });
    } else if !implicit && p < s.len() && s[p] == '.' && (p + 1 == s.len()
        || separator_on(platform, s[p + 1])) {
        r.push(PathPiece { kind: PieceKind::CurDir, start: p, end: p + 1 });
    }
    assert(pieces_view(r@) =~= head_pieces(platform, s@));
    let from: usize = if physical {
        p + 1
    } else {
        p
    };
    let class = match platform {
        Platform::Windows => if v {
            CharClass::Backslash
        } else {
            CharClass::Separator
        },
        Platform::Unix => CharClass::Slash,
    };
    let ranges = split_words(s, class, from);
    let ghost wanted = int_ranges(ranges@);
    let mut i: usize = 0;
    assert(wanted.take(0) =~= Seq::<(int, int)>::empty());
    assert(head_pieces(platform, s@) + body_pieces(s@, wanted.take(0), v) =~= head_pieces(platform, s@));
    while i < ranges.len()
        invariant
            i <= ranges@.len(),
            wanted == int_ranges(ranges@),
            ranges_inside(s@, ranges@),
            v == reads_verbatim(platform, s@),
            pieces_view(r@) == head_pieces(platform, s@) + body_pieces(s@, wanted.take(i as int), v),
            pieces_inside(s@, pieces_view(r@)),
        decreases ranges@.len() - i,
    {
        let a: usize = ranges[i].0;
        let b: usize = ranges[i].1;
        let name = slice_subrange(s, a, b);
        let kind = if spells(name, ".") {
            PieceKind::CurDir
        } else if spells(name, "..") {
            PieceKind::ParentDir
        } else {
            PieceKind::Normal
        };
        let ghost before = r@;
        assert(wanted.take(i + 1).drop_last() =~= wanted.take(i as int));
        assert(wanted.take(i + 1).last() == (a as int, b as int));
        assert(kind == name_kind(name@));
        if kind == PieceKind::CurDir && !v {
        } else {
            r.push(PathPiece { kind, start: a, end: b });
            assert(pieces_view(r@) =~= pieces_view(before).push(
                Piece { kind, start: a as int, end: b as int },
            ));
        }
        i = i + 1;
        assert(pieces_view(r@) =~= head_pieces(platform, s@) + body_pieces(s@, wanted.take(i as int), v));
    }
    assert(wanted.take(i as int) =~= wanted);
    r
}

/// The last component of a path, where it is a name.
pub open spec fn file_name_of(platform: Platform, s: Seq<char>) -> Option<Seq<char>> {
    if pieces(platform, s).len() > 0 && pieces(platform, s).last().kind == PieceKind::Normal {
        Some(piece_text(s, pieces(platform, s).last()))
    } else {
        None
    }
}

/// The path up to its last component; nothing where that is a prefix or a root.
pub open spec fn parent_of(platform: Platform, s: Seq<char>) -> Option<Seq<char>> {
    let v = pieces(platform, s);
    if v.len() == 0 || v.last().kind == PieceKind::Prefix || v.last().kind == PieceKind::RootDir {
        None
    } else if v.len() == 1 {
        Some(Seq::empty())
    } else {
        Some(s.take(v[v.len() - 2].end))
    }
}

/// A name put behind a path: a separator goes between them, unless the path is
/// empty, ends in a separator or is a bare drive.
pub open spec fn path_join(platform: Platform, base: Seq<char>, name: Seq<char>) -> Seq<char> {
    match platform {
        Platform::Windows => if base.len() == 0 || is_separator(base.last()) || (base.len() == 2
            && has_drive(base)) {
            base + name
        } else {
            base.push('\\') + name
        },
        Platform::Unix => if base.len() == 0 || base.last() == '/' {
            base + name
        } else {
            base.push('/') + name
        },
    }
}

pub fn file_name(platform: Platform, s: &[char]) -> (r: Option<&[char]>)
    ensures
        r is Some == file_name_of(platform, s@) is Some,
        r matches Some(n) ==> file_name_of(platform, s@) == Some(n@),
{
    let v = components(platform, s);
    if v.len() == 0 {
        return None;
    }
    let last = v[v.len() - 1];
    assert(pieces(platform, s@).last() == last@);
    if last.kind == PieceKind::Normal {
        assert(pieces_view(v@).last().start <= s@.len());
        Some(slice_subrange(s, last.start, last.end))
    } else {
        None
    }
}

pub fn parent(platform: Platform, s: &[char]) -> (r: Option<&[char]>)
    ensures
        r is Some == parent_of(platform, s@) is Some,
        r matches Some(n) ==> parent_of(platform, s@) == Some(n@),
{
    let v = components(platform, s);
    if v.len() == 0 {
        return None;
    }
    let last = v[v.len() - 1];
    assert(pieces(platform, s@).last() == last@);
    if last.kind == PieceKind::Prefix || last.kind == PieceKind::RootDir {
        return None;
    }
    if v.len() == 1 {
        let r = slice_subrange(s, 0, 0);
        assert(r@ =~= Seq::<char>::empty());
        return Some(r);
    }
    let before = v[v.len() - 2];
    assert(pieces_view(v@)[v@.len() - 2] == before@);
    let r = slice_subrange(s, 0, before.end);
    assert(r@ =~= s@.take(before.end as int));
    Some(r)
}

pub fn join_name(platform: Platform, base: &[char], name: &[char]) -> (r: Vec<char>)
    ensures
        r@ == path_join(platform, base@, name@),
{
    let mut r: Vec<char> = Vec::new();
    push_all(&mut r, base);
    assert(r@ =~= base@);
    let glued = base.len() == 0 || separator_on(platform, base[base.len() - 1]) || (platform
        == Platform::Windows && base.len() == 2 && drive(base));
    if !glued {
        match platform {
            Platform::Windows => r.push('\\'),
            Platform::Unix => r.push('/'),
        }
    }
    push_all(&mut r, name);
    r
}

/// From `a` to `b` stands a maximal run without separators behind `from`.
pub open spec fn is_run(platform: Platform, s: Seq<char>, from: int, a: int, b: int) -> bool {
    &&& from <= a < b <= s.len()
    &&& forall|i: int| a <= i < b ==> !separates(platform, #[trigger] s[i])
    &&& a > from ==> separates(platform, s[a - 1])
    &&& b < s.len() ==> separates(platform, s[b])
}

proof fn lemma_body_pieces(s: Seq<char>, ranges: Seq<(int, int)>)
    requires
        forall|k: int|
            0 <= k < ranges.len() ==> (#[trigger] ranges[k]).0 < ranges[k].1 && (k + 1 < ranges.len()
                ==> ranges[k].1 < ranges[k + 1].0),
    ensures
        forall|i: int|
            #![trigger body_pieces(s, ranges, false)[i]]
            0 <= i < body_pieces(s, ranges, false).len() ==> {
                let p = body_pieces(s, ranges, false)[i];
                &&& ranges.contains((p.start, p.end))
                &&& p.start < p.end <= ranges.last().1
                &&& p.kind == name_kind(s.subrange(p.start, p.end))
                &&& p.kind != PieceKind::CurDir
            },
        forall|k: int|
            #![trigger ranges[k]]
            0 <= k < ranges.len() && s.subrange(ranges[k].0, ranges[k].1) != "."@ ==> exists|i: int|
                0 <= i < body_pieces(s, ranges, false).len() && (#[trigger] body_pieces(
                    s,
                    ranges,
                    false,
                )[i]).start == ranges[k].0 && body_pieces(s, ranges, false)[i].end == ranges[k].1,
        forall|i: int, j: int|
            0 <= i < j < body_pieces(s, ranges, false).len() ==> (#[trigger] body_pieces(
                s,
                ranges,
                false,
            )[i]).end < (#[trigger] body_pieces(s, ranges, false)[j]).start,
    decreases ranges.len(),
{
    if ranges.len() > 0 {
        let rest = ranges.drop_last();
        assert forall|k: int| 0 <= k < rest.len() implies (#[trigger] rest[k]).0 < rest[k].1 && (k + 1
            < rest.len() ==> rest[k].1 < rest[k + 1].0) by {
            assert(rest[k] == ranges[k]);
            if k + 1 < rest.len() {
                assert(rest[k + 1] == ranges[k + 1]);
            }
        }
        lemma_body_pieces(s, rest);
        let before = body_pieces(s, rest, false);
        let all = body_pieces(s, ranges, false);
        let r = ranges.last();
        let kind = name_kind(s.subrange(r.0, r.1));
        if rest.len() > 0 {
            assert(ranges[ranges.len() - 2] == rest.last());
            assert(rest.last().1 < r.0);
        }
        assert(ranges[ranges.len() - 1] == r);
        assert forall|i: int| #![trigger all[i]] 0 <= i < all.len() implies {
            let p = all[i];
            &&& ranges.contains((p.start, p.end))
            &&& p.start < p.end <= r.1
            &&& p.kind == name_kind(s.subrange(p.start, p.end))
            &&& p.kind != PieceKind::CurDir
        } by {
            if i < before.len() {
                let k = choose|k: int|
                    0 <= k < rest.len() && rest[k] == (before[i].start, before[i].end);
                assert(ranges[k] == rest[k]);
            } else {
                assert(ranges[ranges.len() - 1] == (all[i].start, all[i].end));
            }
        }
        assert forall|k: int|
            #![trigger ranges[k]]
            0 <= k < ranges.len() && s.subrange(ranges[k].0, ranges[k].1) != "."@ implies exists|
            i: int,
        |
            0 <= i < all.len() && (#[trigger] all[i]).start == ranges[k].0 && all[i].end
                == ranges[k].1 by {
            if k < rest.len() {
                assert(rest[k] == ranges[k]);
                let i = choose|i: int|
                    0 <= i < before.len() && (#[trigger] before[i]).start == rest[k].0
                        && before[i].end == rest[k].1;
                assert(all[i] == before[i]);
            } else {
                assert(all[before.len() as int].start == r.0);
            }
        }
    }
}

/// Where the names of a path begin: behind its prefix and its root.
pub open spec fn names_from(platform: Platform, s: Seq<char>) -> int {
    if has_physical_root(platform, s) {
        prefix_len(platform, s) + 1
    } else {
        prefix_len(platform, s)
    }
}

/// What stands before the names of a path is its prefix, its root or a leading
/// `.`, each once.
pub open spec fn head_len(platform: Platform, s: Seq<char>) -> int {
    head_pieces(platform, s).len() as int
}

proof fn lemma_body_of_path(platform: Platform, s: Seq<char>) -> (body: Seq<Piece>)
    requires
        !reads_verbatim(platform, s),
        0 <= names_from(platform, s) <= s.len(),
    ensures
        pieces(platform, s) == head_pieces(platform, s) + body,
        forall|i: int|
            #![trigger body[i]]
            0 <= i < body.len() ==> is_run(
                platform,
                s,
                names_from(platform, s),
                body[i].start,
                body[i].end,
            ) && body[i].kind == name_kind(s.subrange(body[i].start, body[i].end)) && body[i].kind
                != PieceKind::CurDir,
        forall|a: int, b: int| #[trigger]
            is_run(platform, s, names_from(platform, s), a, b) && s.subrange(a, b) != "."@
                ==> exists|i: int|
                0 <= i < body.len() && (#[trigger] body[i]).start == a && body[i].end == b,
        forall|i: int, j: int|
            0 <= i < j < body.len() ==> (#[trigger] body[i]).end < (#[trigger] body[j]).start,
{
    let class = separator_class(platform, s);
    let from = names_from(platform, s);
    let ranges = word_ranges(s, class, from);
    let body = body_pieces(s, ranges, false);
    lemma_ranges_are_runs(platform, s);
    lemma_body_pieces(s, ranges);
    assert(pieces(platform, s) =~= head_pieces(platform, s) + body);
    assert forall|i: int| #![trigger body[i]] 0 <= i < body.len() implies is_run(
        platform,
        s,
        from,
        body[i].start,
        body[i].end,
    ) && body[i].kind == name_kind(s.subrange(body[i].start, body[i].end)) && body[i].kind
        != PieceKind::CurDir by {
        let k = choose|k: int| 0 <= k < ranges.len() && ranges[k] == (body[i].start, body[i].end);
        assert(ranges[k].0 == body[i].start);
    }
    assert forall|a: int, b: int| #[trigger] is_run(platform, s, from, a, b) && s.subrange(a, b)
        != "."@ implies exists|i: int|
        0 <= i < body.len() && (#[trigger] body[i]).start == a && body[i].end == b by {
        let k = choose|k: int| 0 <= k < ranges.len() && #[trigger] ranges[k] == (a, b);
        assert(ranges[k].0 == a);
    }
    body
}

proof fn lemma_ranges_are_runs(platform: Platform, s: Seq<char>)
    requires
        !reads_verbatim(platform, s),
        0 <= names_from(platform, s) <= s.len(),
    ensures
        ({
            let from = names_from(platform, s);
            let ranges = word_ranges(s, separator_class(platform, s), from);
            &&& forall|k: int|
                0 <= k < ranges.len() ==> is_run(
                    platform,
                    s,
                    from,
                    (#[trigger] ranges[k]).0,
                    ranges[k].1,
                ) && (k + 1 < ranges.len() ==> ranges[k].1 < ranges[k + 1].0)
            &&& forall|a: int, b: int| #[trigger]
                is_run(platform, s, from, a, b) ==> exists|k: int|
                    0 <= k < ranges.len() && #[trigger] ranges[k] == (a, b)
        }),
{
    let class = separator_class(platform, s);
    let from = names_from(platform, s);
    let ranges = word_ranges(s, class, from);
    assert forall|k: int| 0 <= k < ranges.len() implies is_run(
        platform,
        s,
        from,
        (#[trigger] ranges[k]).0,
        ranges[k].1,
    ) && (k + 1 < ranges.len() ==> ranges[k].1 < ranges[k + 1].0) by {
        lemma_range_is_run(platform, s, k);
        if k + 1 < ranges.len() {
            lemma_one_word(s, class, from, k + 1);
        }
    }
    assert forall|a: int, b: int| #[trigger] is_run(platform, s, from, a, b) implies exists|k: int|
        0 <= k < ranges.len() && #[trigger] ranges[k] == (a, b) by {
        let k = lemma_run_is_range(platform, s, a, b);
        assert(ranges[k] == (a, b));
    }
}

proof fn lemma_range_is_run(platform: Platform, s: Seq<char>, k: int)
    requires
        !reads_verbatim(platform, s),
        0 <= names_from(platform, s) <= s.len(),
        0 <= k < word_ranges(s, separator_class(platform, s), names_from(platform, s)).len(),
    ensures
        ({
            let r = word_ranges(s, separator_class(platform, s), names_from(platform, s))[k];
            is_run(platform, s, names_from(platform, s), r.0, r.1)
        }),
{
    let class = separator_class(platform, s);
    let from = names_from(platform, s);
    lemma_one_word(s, class, from, k);
    let r = word_ranges(s, class, from)[k];
    assert forall|j: int| r.0 <= j < r.1 implies !separates(platform, #[trigger] s[j]) by {
        assert(!belongs(class, s[j]));
    }
}

proof fn lemma_run_is_range(platform: Platform, s: Seq<char>, a: int, b: int) -> (k: int)
    requires
        !reads_verbatim(platform, s),
        0 <= names_from(platform, s) <= s.len(),
        is_run(platform, s, names_from(platform, s), a, b),
    ensures
        0 <= k < word_ranges(s, separator_class(platform, s), names_from(platform, s)).len(),
        word_ranges(s, separator_class(platform, s), names_from(platform, s))[k] == (a, b),
{
    let class = separator_class(platform, s);
    let from = names_from(platform, s);
    assert(!separates(platform, s[a]));
    let k = lemma_word_of(s, class, from, a);
    lemma_range_is_run(platform, s, k);
    let r = word_ranges(s, class, from)[k];
    if r.0 < a {
        assert(!separates(platform, s[a - 1]));
    }
    if r.1 < b {
        assert(!separates(platform, s[r.1]));
    } else if b < r.1 {
        assert(!separates(platform, s[b]));
    }
    k
}

/// The names of a path that is not verbatim are its maximal runs without
/// separators, each once and in their order; `..` leads up, and `.` is no name.
pub proof fn law_names_are_what_separators_leave(platform: Platform, s: Seq<char>)
    requires
        !reads_verbatim(platform, s),
        0 <= names_from(platform, s) <= s.len(),
    ensures
        forall|i: int|
            #![trigger pieces(platform, s)[i]]
            head_len(platform, s) <= i < pieces(platform, s).len() ==> {
                let p = pieces(platform, s)[i];
                let text = s.subrange(p.start, p.end);
                &&& is_run(platform, s, names_from(platform, s), p.start, p.end)
                &&& text != "."@
                &&& text == ".."@ ==> p.kind == PieceKind::ParentDir
                &&& text != ".."@ ==> p.kind == PieceKind::Normal
            },
        forall|a: int, b: int| #[trigger]
            is_run(platform, s, names_from(platform, s), a, b) && s.subrange(a, b) != "."@
                ==> exists|i: int|
                head_len(platform, s) <= i < pieces(platform, s).len() && (#[trigger] pieces(
                    platform,
                    s,
                )[i]).start == a && pieces(platform, s)[i].end == b,
        forall|i: int, j: int|
            head_len(platform, s) <= i < j < pieces(platform, s).len() ==> (#[trigger] pieces(
                platform,
                s,
            )[i]).end < (#[trigger] pieces(platform, s)[j]).start,
{
    let head = head_pieces(platform, s);
    let body = lemma_body_of_path(platform, s);
    let all = pieces(platform, s);
    assert forall|i: int| #![trigger all[i]] head.len() <= i < all.len() implies {
        let p = all[i];
        let text = s.subrange(p.start, p.end);
        &&& is_run(platform, s, names_from(platform, s), p.start, p.end)
        &&& text != "."@
        &&& text == ".."@ ==> p.kind == PieceKind::ParentDir
        &&& text != ".."@ ==> p.kind == PieceKind::Normal
    } by {
        assert(all[i] == body[i - head.len()]);
    }
    assert forall|a: int, b: int| #[trigger]
    is_run(platform, s, names_from(platform, s), a, b) && s.subrange(a, b) != "."@ implies exists|
        i: int,
    |
        head.len() <= i < all.len() && (#[trigger] all[i]).start == a && all[i].end == b by {
        let i = choose|i: int|
            0 <= i < body.len() && (#[trigger] body[i]).start == a && body[i].end == b;
        assert(all[i + head.len()] == body[i]);
    }
    assert forall|i: int, j: int| head.len() <= i < j < all.len() implies (#[trigger] all[i]).end < (
    #[trigger] all[j]).start by {
        assert(all[i] == body[i - head.len()]);
        assert(all[j] == body[j - head.len()]);
    }
}

/// Off Windows there is no prefix: a path is absolute exactly where it begins
/// with `/`, and only `/` separates.
pub proof fn law_paths_off_windows_have_no_drives(s: Seq<char>, c: char)
    ensures
        prefix_len(Platform::Unix, s) == 0,
        absolute(Platform::Unix, s) <==> s.len() > 0 && s[0] == '/',
        separates(Platform::Unix, c) <==> c == '/',
        separates(Platform::Windows, c) <==> c == '/' || c == '\\',
        names_from(Platform::Unix, s) == if s.len() > 0 && s[0] == '/' {
            1int
        } else {
            0int
        },
{
}

/// On Windows a path is absolute where a drive is followed by a separator, where
/// it names a share of a server, and where it is verbatim; a path that begins
/// with a name, with one separator or with a bare drive is not.
pub proof fn law_windows_paths_are_absolute_by_their_prefix(s: Seq<char>)
    ensures
        ({
            let letter = s.len() >= 1 && ('a' <= s[0] <= 'z' || 'A' <= s[0] <= 'Z');
            let separated = |i: int| i < s.len() && (s[i] == '/' || s[i] == '\\');
            &&& s.len() == 0 ==> !absolute(Platform::Windows, s)
            &&& letter && s.len() >= 2 && s[1] == ':' ==> prefix_len(Platform::Windows, s) == 2 && (
            absolute(Platform::Windows, s) <==> separated(2))
            &&& letter && !(s.len() >= 2 && s[1] == ':') ==> prefix_len(Platform::Windows, s) == 0
                && !absolute(Platform::Windows, s)
            &&& separated(0) && !separated(1) ==> prefix_len(Platform::Windows, s) == 0 && !absolute(
                Platform::Windows,
                s,
            )
            &&& s.len() > 0 && !separated(0) && !letter ==> prefix_len(Platform::Windows, s) == 0
                && !absolute(Platform::Windows, s)
        }),
{
    reveal_strlit("\\\\?\\");
    assert(is_verbatim(s) ==> s.take(4)[0] == s[0] && s.take(4)[1] == s[1]);
}

/// `\\\\server\\share` is a prefix: it ends behind the share's name, and a path that
/// begins with it is absolute.
pub proof fn law_shares_are_prefixes(s: Seq<char>, server: int, share: int)
    requires
        s.len() >= 2,
        (s[0] == '/' || s[0] == '\\') && (s[1] == '/' || s[1] == '\\'),
        2 < server < share <= s.len(),
        s[2] != '?' && s[2] != '.',
        forall|i: int| 2 <= i < server ==> #[trigger] s[i] != '/' && s[i] != '\\',
        s[server] == '/' || s[server] == '\\',
        server + 1 < share,
        forall|i: int| server < i < share ==> #[trigger] s[i] != '/' && s[i] != '\\',
        share < s.len() ==> s[share] == '/' || s[share] == '\\',
    ensures
        prefix_len(Platform::Windows, s) == share,
        absolute(Platform::Windows, s),
{
    reveal_strlit("\\\\?\\");
    let class = CharClass::Separator;
    assert(is_verbatim(s) ==> s.take(4)[2] == s[2]);
    lemma_next_is(s, class, 2, server);
    lemma_next_is(s, class, server + 1, share);
}

proof fn lemma_next_is(s: Seq<char>, class: CharClass, i: int, e: int)
    requires
        class == CharClass::Separator,
        0 <= i <= e <= s.len(),
        forall|j: int| i <= j < e ==> #[trigger] s[j] != '/' && s[j] != '\\',
        e < s.len() ==> s[e] == '/' || s[e] == '\\',
    ensures
        next_in(s, class, i) == e,
    decreases e - i,
{
    if i < e {
        assert(s[i] != '/');
        lemma_next_is(s, class, i + 1, e);
    }
}

/// A name is put behind a path with one separator between them, unless the path
/// is empty, ends in one, or is a bare drive.
pub proof fn law_names_are_joined_by_one_separator(
    platform: Platform,
    base: Seq<char>,
    name: Seq<char>,
)
    ensures
        ({
            let glued = base.len() == 0 || separates(platform, base.last()) || (platform
                == Platform::Windows && base.len() == 2 && base[1] == ':' && ('a' <= base[0] <= 'z'
                || 'A' <= base[0] <= 'Z'));
            let mark = match platform {
                Platform::Windows => '\\',
                Platform::Unix => '/',
            };
            path_join(platform, base, name) == if glued {
                base + name
            } else {
                base + seq![mark] + name
            }
        }),
{
    assert(base.push('\\') =~= base + seq!['\\']);
    assert(base.push('/') =~= base + seq!['/']);
}

/// The file name of a path is its last component, where that is a name; the
/// parent is the path up to the component before, and a root has none.
pub proof fn law_parents_end_before_the_last_component(platform: Platform, s: Seq<char>)
    ensures
        ({
            let v = pieces(platform, s);
            &&& file_name_of(platform, s) is Some <==> v.len() > 0 && v.last().kind
                == PieceKind::Normal
            &&& (file_name_of(platform, s) matches Some(name) ==> name == s.subrange(
                v.last().start,
                v.last().end,
            ))
            &&& parent_of(platform, s) is None <==> v.len() == 0 || v.last().kind
                == PieceKind::Prefix || v.last().kind == PieceKind::RootDir
            &&& (parent_of(platform, s) matches Some(parent) ==> {
                &&& v.len() == 1 ==> parent.len() == 0
                &&& v.len() > 1 ==> parent == s.take(v[v.len() - 2].end)
            })
        }),
{
}

/// A path with a root of its own: a slash in front, on Windows behind a drive.
pub open spec fn is_rooted(platform: Platform, s: Seq<char>) -> bool {
    match platform {
        Platform::Windows => s.len() >= 3 && ('a' <= s[0] <= 'z' || 'A' <= s[0] <= 'Z') && s[1] == ':'
            && (s[2] == '/' || s[2] == '\\'),
        Platform::Unix => s.len() >= 1 && s[0] == '/',
    }
}

pub proof fn lemma_rooted(platform: Platform, s: Seq<char>)
    requires
        is_rooted(platform, s),
    ensures
        absolute(platform, s),
        !reads_verbatim(platform, s),
        has_physical_root(platform, s),
        prefix_len(platform, s) == match platform {
            Platform::Windows => 2int,
            Platform::Unix => 0int,
        },
        separator_class(platform, s) == match platform {
            Platform::Windows => CharClass::Separator,
            Platform::Unix => CharClass::Slash,
        },
{
    reveal_strlit("\\\\?\\");
    if platform == Platform::Windows {
        if is_verbatim(s) {
            assert(s.take(4)[0] == s[0]);
        }
    }
}

proof fn lemma_body_pieces_of_prefix(s: Seq<char>, t: Seq<char>, ranges: Seq<(int, int)>)
    requires
        s.len() <= t.len(),
        t.take(s.len() as int) == s,
        forall|k: int|
            0 <= k < ranges.len() ==> 0 <= (#[trigger] ranges[k]).0 <= ranges[k].1 <= s.len(),
    ensures
        body_pieces(t, ranges, false) == body_pieces(s, ranges, false),
    decreases ranges.len(),
{
    if ranges.len() > 0 {
        let rest = ranges.drop_last();
        assert forall|k: int| 0 <= k < rest.len() implies 0 <= (#[trigger] rest[k]).0 <= rest[k].1
            <= s.len() by {
            assert(rest[k] == ranges[k]);
        }
        lemma_body_pieces_of_prefix(s, t, rest);
        let r = ranges[ranges.len() - 1];
        assert(t.subrange(r.0, r.1) =~= s.subrange(r.0, r.1));
    }
}

/// A name behind a rooted path is one component more, and the others stay.
pub proof fn law_a_name_is_one_component_more(platform: Platform, s: Seq<char>, c: char, name: Seq<char>)
    requires
        is_rooted(platform, s),
        separates(platform, c),
        name.len() > 0,
        name != "."@,
        name != ".."@,
        forall|i: int| 0 <= i < name.len() ==> !separates(platform, #[trigger] name[i]),
    ensures
        pieces(platform, s + seq![c] + name) == pieces(platform, s).push(
            Piece {
                kind: PieceKind::Normal,
                start: s.len() as int + 1,
                end: s.len() as int + 1 + name.len(),
            },
        ),
        is_rooted(platform, s + seq![c] + name),
{
    let t = s + seq![c] + name;
    assert(t =~= s.push(c) + name);
    assert(t[0] == s[0]);
    if platform == Platform::Windows {
        assert(t[1] == s[1] && t[2] == s[2]);
    }
    lemma_rooted(platform, s);
    lemma_rooted(platform, t);
    let class = separator_class(platform, s);
    let from = prefix_len(platform, s) + 1;
    lemma_word_ranges_append(s, class, c, name, from);
    let ranges = word_ranges(s, class, from);
    lemma_word_ranges(s, class, from);
    assert forall|k: int| 0 <= k < ranges.len() implies 0 <= (#[trigger] ranges[k]).0 <= ranges[k].1
        <= s.len() by {}
    assert(t.take(s.len() as int) =~= s);
    lemma_body_pieces_of_prefix(s, t, ranges);
    let longer = word_ranges(t, class, from);
    assert(longer.drop_last() =~= ranges);
    assert(t.subrange(s.len() as int + 1, s.len() as int + 1 + name.len()) =~= name);
    assert(head_pieces(platform, t) =~= head_pieces(platform, s));
    assert(pieces(platform, t) =~= pieces(platform, s).push(
        Piece {
            kind: PieceKind::Normal,
            start: s.len() as int + 1,
            end: s.len() as int + 1 + name.len(),
        },
    ));
}

/// The components of a path are told from the path alone up to their end: they
/// lie inside it.
pub proof fn lemma_pieces_inside(platform: Platform, s: Seq<char>)
    requires
        is_rooted(platform, s),
    ensures
        pieces_inside(s, pieces(platform, s)),
        pieces(platform, s).len() > 0,
{
    lemma_rooted(platform, s);
    let class = separator_class(platform, s);
    let from = prefix_len(platform, s) + 1;
    lemma_word_ranges(s, class, from);
    lemma_body_inside(s, word_ranges(s, class, from));
    let body = body_pieces(s, word_ranges(s, class, from), false);
    let head = head_pieces(platform, s);
    assert forall|i: int| 0 <= i < pieces(platform, s).len() implies 0 <= (#[trigger] pieces(
        platform,
        s,
    )[i]).start <= pieces(platform, s)[i].end <= s.len() by {
        if i >= head.len() {
            assert(pieces(platform, s)[i] == body[i - head.len()]);
        } else {
            assert(pieces(platform, s)[i] == head[i]);
        }
    }
}

proof fn lemma_body_inside(s: Seq<char>, ranges: Seq<(int, int)>)
    requires
        forall|k: int|
            0 <= k < ranges.len() ==> 0 <= (#[trigger] ranges[k]).0 <= ranges[k].1 <= s.len(),
    ensures
        pieces_inside(s, body_pieces(s, ranges, false)),
    decreases ranges.len(),
{
    if ranges.len() > 0 {
        let rest = ranges.drop_last();
        assert forall|k: int| 0 <= k < rest.len() implies 0 <= (#[trigger] rest[k]).0 <= rest[k].1
            <= s.len() by {
            assert(rest[k] == ranges[k]);
        }
        lemma_body_inside(s, rest);
        let r = ranges[ranges.len() - 1];
    }
}

/// A verbatim prefix is a drive, a share behind `UNC`, or one name; a device
/// prefix is the device's name.
pub proof fn law_verbatim_prefixes_end_behind_what_they_name(s: Seq<char>, name: int, share: int)
    ensures
        s.len() >= 4 && s.take(4) == seq!['\\', '\\', '?', '\\'] ==> {
            let drive = s.len() >= 6 && ('a' <= s[4] <= 'z' || 'A' <= s[4] <= 'Z') && s[5] == ':' && (
            s.len() == 6 || s[6] == '/' || s[6] == '\\');
            let unc = s.len() >= 8 && s[4] == 'U' && s[5] == 'N' && s[6] == 'C' && (s[7] == '\\'
                || s[7] == '/');
            let first = |from: int|
                from <= name <= s.len() && (name < s.len() ==> s[name] == '\\') && (forall|i: int|
                    from <= i < name ==> #[trigger] s[i] != '\\');
            &&& drive ==> prefix_len(Platform::Windows, s) == 6 && absolute(Platform::Windows, s)
            &&& unc && first(8) && name + 1 < share <= s.len() && (share < s.len() ==> s[share]
                == '\\') && (forall|i: int| name < i < share ==> #[trigger] s[i] != '\\')
                ==> prefix_len(Platform::Windows, s) == share && absolute(Platform::Windows, s)
            &&& unc && first(8) && (name == s.len() || name + 1 == s.len() || s[name + 1] == '\\')
                ==> prefix_len(Platform::Windows, s) == name
            &&& !drive && !unc && first(4) ==> prefix_len(Platform::Windows, s) == name && absolute(
                Platform::Windows,
                s,
            )
        },
        s.len() >= 4 && (s[0] == '/' || s[0] == '\\') && (s[1] == '/' || s[1] == '\\') && s[2]
            == '.' && (s[3] == '/' || s[3] == '\\') && 4 <= name <= s.len() && (name < s.len()
            ==> s[name] == '/' || s[name] == '\\') && (forall|i: int|
            4 <= i < name ==> #[trigger] s[i] != '/' && s[i] != '\\') ==> prefix_len(
            Platform::Windows,
            s,
        ) == name && absolute(Platform::Windows, s),
{
    reveal_strlit("\\\\?\\");
    reveal_strlit("UNC");
    let mark = seq!['\\', '\\', '?', '\\'];
    assert("\\\\?\\"@ =~= mark);
    let tail = s.skip(4);
    if s.len() >= 4 && s.take(4) == mark {
        assert(is_verbatim(s));
        assert(s.take(4)[0] == s[0] && s.take(4)[1] == s[1]);
        if s.len() >= 6 {
            assert(tail[0] == s[4] && tail[1] == s[5]);
        }
        if s.len() >= 7 {
            assert(tail.take(3)[0] == s[4] && tail.take(3)[1] == s[5] && tail.take(3)[2] == s[6]);
            if s[4] == 'U' && s[5] == 'N' && s[6] == 'C' {
                assert(tail.take(3) =~= "UNC"@);
            }
        }
        if 4 <= name <= s.len() && (name < s.len() ==> s[name] == '\\') && (forall|i: int|
            4 <= i < name ==> #[trigger] s[i] != '\\') {
            lemma_next_backslash(s, 4, name);
        }
        if 8 <= name <= s.len() && (name < s.len() ==> s[name] == '\\') && (forall|i: int|
            8 <= i < name ==> #[trigger] s[i] != '\\') {
            lemma_next_backslash(s, 8, name);
            if name + 1 < share <= s.len() && (share < s.len() ==> s[share] == '\\') && (forall|
                i: int,
            |
                name < i < share ==> #[trigger] s[i] != '\\') {
                lemma_next_backslash(s, name + 1, share);
            }
            if name + 1 < s.len() && s[name + 1] == '\\' {
                lemma_next_backslash(s, name + 1, name + 1);
            }
            if name + 1 == s.len() {
                lemma_next_backslash(s, name + 1, name + 1);
            }
        }
    }
    if s.len() >= 4 && (s[0] == '/' || s[0] == '\\') && (s[1] == '/' || s[1] == '\\') && s[2] == '.'
        && (s[3] == '/' || s[3] == '\\') && 4 <= name <= s.len() && (name < s.len() ==> s[name] == '/'
        || s[name] == '\\') && (forall|i: int|
        4 <= i < name ==> #[trigger] s[i] != '/' && s[i] != '\\') {
        lemma_next_is(s, CharClass::Separator, 4, name);
        assert(is_verbatim(s) ==> s.take(4)[2] == s[2]);
    }
}

proof fn lemma_next_backslash(s: Seq<char>, i: int, e: int)
    requires
        0 <= i <= e <= s.len(),
        forall|j: int| i <= j < e ==> #[trigger] s[j] != '\\',
        e < s.len() ==> s[e] == '\\',
    ensures
        next_in(s, CharClass::Backslash, i) == e,
    decreases e - i,
{
    if i < e {
        assert(s[i] != '\\');
        lemma_next_backslash(s, i + 1, e);
    }
}

} // verus!
