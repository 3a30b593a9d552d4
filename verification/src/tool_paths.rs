//! Tool paths relative to the working directory, for the transcript views.
//!
//! A path equal to the directory stays whole (never ""), and on Windows a path
//! that differs from the directory only in the case of a drive letter or of a
//! name is still made relative.
use crate::paths::{
    absolute, components, has_double_separator, has_drive, is_absolute, is_rooted, is_verbatim,
    is_verbatim_drive, is_verbatim_unc, join_name, law_a_name_is_one_component_more,
    law_names_are_joined_by_one_separator, lemma_pieces_inside, lemma_rooted, path_join,
    piece_text, pieces, pieces_inside, pieces_view, separates, PathPiece, Piece, PieceKind,
};
use crate::platform::Platform;
use crate::text::{
    ascii_lower, chars_of, join, lemma_join_first, letter, lower_char, lower_chars, lower_of,
    owned, same_chars, starts_with, text_of,
};
use crate::workspace_create::str_view;
use crate::workspace_entries::{is_simple_name, mark_of};
use vstd::prelude::*;
use vstd::slice::slice_subrange;

verus! {

/// A prefix in the form in which two of them are compared: drive letters without
/// their case, and `\` for `/` where both separate.
pub open spec fn prefix_key(t: Seq<char>) -> Seq<char> {
    if is_verbatim_unc(t) {
        t.update(7, '\\')
    } else if is_verbatim_drive(t) {
        t.update(4, lower_char(t[4]))
    } else if is_verbatim(t) {
        t
    } else if t.len() == 2 && has_drive(t) {
        t.update(0, lower_char(t[0]))
    } else {
        t.map_values(
            |c: char|
                if c == '/' {
                    '\\'
                } else {
                    c
                },
        )
    }
}

/// Two components are the same.
pub open spec fn same_piece(a: Seq<char>, p: Piece, b: Seq<char>, q: Piece) -> bool {
    p.kind == q.kind && match p.kind {
        PieceKind::Prefix => prefix_key(piece_text(a, p)) == prefix_key(piece_text(b, q)),
        PieceKind::Normal => piece_text(a, p) == piece_text(b, q),
        _ => true,
    }
}

/// Two components are the same, ASCII case aside.
pub open spec fn same_piece_ignoring_case(a: Seq<char>, p: Piece, b: Seq<char>, q: Piece) -> bool {
    p.kind == q.kind && match p.kind {
        PieceKind::Prefix => ascii_lower(piece_text(a, p)) == ascii_lower(piece_text(b, q)),
        PieceKind::Normal => ascii_lower(piece_text(a, p)) == ascii_lower(piece_text(b, q)),
        _ => true,
    }
}

/// The components of `base` begin the components of `path`.
pub open spec fn is_below(platform: Platform, path: Seq<char>, base: Seq<char>) -> bool {
    &&& pieces(platform, base).len() <= pieces(platform, path).len()
    &&& forall|i: int|
        0 <= i < pieces(platform, base).len() ==> same_piece(
            path,
            #[trigger] pieces(platform, path)[i],
            base,
            pieces(platform, base)[i],
        )
}

/// The same of Windows paths, ASCII case aside, with something left of the path.
pub open spec fn is_below_ignoring_case(path: Seq<char>, base: Seq<char>) -> bool {
    &&& pieces(Platform::Windows, base).len() < pieces(Platform::Windows, path).len()
    &&& forall|i: int|
        0 <= i < pieces(Platform::Windows, base).len() ==> same_piece_ignoring_case(
            path,
            #[trigger] pieces(Platform::Windows, path)[i],
            base,
            pieces(Platform::Windows, base)[i],
        )
}

/// A component as it is put into a new path.
pub open spec fn piece_spelling(s: Seq<char>, p: Piece) -> Seq<char> {
    if p.kind == PieceKind::RootDir {
        "\\"@
    } else {
        piece_text(s, p)
    }
}

/// The components put together again, with `\` between them. One that begins
/// with a drive starts the path anew.
pub open spec fn rejoined(s: Seq<char>, v: Seq<Piece>) -> Seq<char>
    decreases v.len(),
{
    if v.len() == 0 {
        Seq::empty()
    } else {
        let name = piece_spelling(s, v.last());
        if has_drive(name) {
            name
        } else {
            path_join(Platform::Windows, rejoined(s, v.drop_last()), name)
        }
    }
}

/// What follows the first `n` components, as it is spelled.
pub open spec fn after_pieces(platform: Platform, s: Seq<char>, n: int) -> Seq<char> {
    let v = pieces(platform, s);
    if n >= v.len() || v[n].start >= v.last().end {
        Seq::empty()
    } else {
        s.subrange(v[n].start, v.last().end)
    }
}

/// A path relative to a directory, where it lies below it and names more than
/// it; else as it is.
pub open spec fn relativized(
    platform: Platform,
    path: Seq<char>,
    cwd: Option<Seq<char>>,
) -> Seq<char> {
    match cwd {
        None => path,
        Some(base) => if !absolute(platform, path) {
            path
        } else if is_below(platform, path, base) {
            let rest = after_pieces(platform, path, pieces(platform, base).len() as int);
            if rest.len() == 0 {
                path
            } else {
                rest
            }
        } else if platform == Platform::Windows && is_below_ignoring_case(path, base) {
            let rest = rejoined(
                path,
                pieces(platform, path).skip(pieces(platform, base).len() as int),
            );
            if rest.len() == 0 {
                path
            } else {
                rest
            }
        } else {
            path
        },
    }
}

fn key_of(t: &[char]) -> (r: Vec<char>)
    ensures
        r@ == prefix_key(t@),
{
    proof {
        reveal_strlit("\\\\?\\");
    }
    let verbatim = starts_with(t, "\\\\?\\");
    if verbatim {
        let mut r = owned(t);
        let rest = slice_subrange(t, 4, t.len());
        assert(rest@ =~= t@.skip(4));
        if starts_with(rest, "UNC") && t.len() > 7 && (t[7] == '/' || t[7] == '\\') {
            r.set(7, '\\');
            return r;
        }
        if rest.len() >= 2 && letter(rest[0]) && rest[1] == ':' && (t.len() == 6 || t[6] == '/'
            || t[6] == '\\') {
            assert(rest@[0] == t@[4]);
            r.set(4, lower_of(t[4]));
        }
        return r;
    }
    if t.len() == 2 && letter(t[0]) && t[1] == ':' {
        let mut r = owned(t);
        r.set(0, lower_of(t[0]));
        return r;
    }
    let mut r: Vec<char> = Vec::new();
    let ghost wanted = prefix_key(t@);
    let mut i: usize = 0;
    while i < t.len()
        invariant
            i <= t@.len(),
            wanted == t@.map_values(
                |c: char|
                    if c == '/' {
                        '\\'
                    } else {
                        c
                    },
            ),
            r@ == wanted.take(i as int),
        decreases t@.len() - i,
    {
        let c = if t[i] == '/' {
            '\\'
        } else {
            t[i]
        };
        r.push(c);
        i = i + 1;
        assert(r@ =~= wanted.take(i as int));
    }
    assert(wanted.take(i as int) =~= wanted);
    r
}

fn pieces_match(a: &[char], p: PathPiece, b: &[char], q: PathPiece) -> (r: bool)
    requires
        p.start <= p.end <= a@.len(),
        q.start <= q.end <= b@.len(),
    ensures
        r == same_piece(a@, p@, b@, q@),
{
    if p.kind != q.kind {
        return false;
    }
    let x = slice_subrange(a, p.start, p.end);
    let y = slice_subrange(b, q.start, q.end);
    match p.kind {
        PieceKind::Prefix => same_chars(key_of(x).as_slice(), key_of(y).as_slice()),
        PieceKind::Normal => same_chars(x, y),
        _ => true,
    }
}

fn pieces_match_ignoring_case(a: &[char], p: PathPiece, b: &[char], q: PathPiece) -> (r: bool)
    requires
        p.start <= p.end <= a@.len(),
        q.start <= q.end <= b@.len(),
    ensures
        r == same_piece_ignoring_case(a@, p@, b@, q@),
{
    if p.kind != q.kind {
        return false;
    }
    let x = lower_chars(slice_subrange(a, p.start, p.end));
    let y = lower_chars(slice_subrange(b, q.start, q.end));
    match p.kind {
        PieceKind::Prefix => same_chars(x.as_slice(), y.as_slice()),
        PieceKind::Normal => same_chars(x.as_slice(), y.as_slice()),
        _ => true,
    }
}

fn rejoin(s: &[char], v: &[PathPiece]) -> (r: Vec<char>)
    requires
        pieces_inside(s@, pieces_view(v@)),
    ensures
        r@ == rejoined(s@, pieces_view(v@)),
{
    let mut r: Vec<char> = Vec::new();
    let ghost all = pieces_view(v@);
    let mut i: usize = 0;
    assert(r@ =~= rejoined(s@, all.take(0)));
    while i < v.len()
        invariant
            i <= v@.len(),
            all == pieces_view(v@),
            pieces_inside(s@, all),
            r@ == rejoined(s@, all.take(i as int)),
        decreases v@.len() - i,
    {
        assert(all[i as int] == v@[i as int]@);
        let name = if v[i].kind == PieceKind::RootDir {
            chars_of("\\")
        } else {
            owned(slice_subrange(s, v[i].start, v[i].end))
        };
        assert(name@ == piece_spelling(s@, all[i as int]));
        assert(all.take(i + 1).drop_last() =~= all.take(i as int));
        if name.len() >= 2 && letter(name[0]) && name[1] == ':' {
            r = name;
        } else {
            r = join_name(Platform::Windows, r.as_slice(), name.as_slice());
        }
        i = i + 1;
    }
    assert(all.take(i as int) =~= all);
    r
}

fn relativize_windows_case_insensitive(
    path: &[char],
    v: &[PathPiece],
    base: &[char],
    w: &[PathPiece],
) -> (r: Option<Vec<char>>)
    requires
        pieces_view(v@) == pieces(Platform::Windows, path@),
        pieces_view(w@) == pieces(Platform::Windows, base@),
        pieces_inside(path@, pieces_view(v@)),
        pieces_inside(base@, pieces_view(w@)),
    ensures
        r is Some == (is_below_ignoring_case(path@, base@) && rejoined(
            path@,
            pieces(Platform::Windows, path@).skip(pieces(Platform::Windows, base@).len() as int),
        ).len() > 0),
        r matches Some(t) ==> t@ == rejoined(
            path@,
            pieces(Platform::Windows, path@).skip(pieces(Platform::Windows, base@).len() as int),
        ),
{
    if v.len() <= w.len() {
        return None;
    }
    let mut i: usize = 0;
    while i < w.len()
        invariant
            i <= w@.len() < v@.len(),
            pieces_view(v@) == pieces(Platform::Windows, path@),
            pieces_view(w@) == pieces(Platform::Windows, base@),
            pieces_inside(path@, pieces_view(v@)),
            pieces_inside(base@, pieces_view(w@)),
            forall|k: int|
                0 <= k < i ==> same_piece_ignoring_case(
                    path@,
                    #[trigger] pieces(Platform::Windows, path@)[k],
                    base@,
                    pieces(Platform::Windows, base@)[k],
                ),
        decreases w@.len() - i,
    {
        assert(pieces_view(v@)[i as int] == v@[i as int]@);
        assert(pieces_view(w@)[i as int] == w@[i as int]@);
        if !pieces_match_ignoring_case(path, v[i], base, w[i]) {
            return None;
        }
        i = i + 1;
    }
    let rest = slice_subrange(v, w.len(), v.len());
    assert(pieces_view(rest@) =~= pieces(Platform::Windows, path@).skip(w@.len() as int));
    let remainder = rejoin(path, rest);
    if remainder.len() == 0 {
        None
    } else {
        Some(remainder)
    }
}

/// Whether the components of `base` begin those of `given`.
fn begins_with(
    platform: Platform,
    given: &[char],
    v: &[PathPiece],
    base: &[char],
    w: &[PathPiece],
) -> (below: bool)
    requires
        pieces_view(v@) == pieces(platform, given@),
        pieces_view(w@) == pieces(platform, base@),
        pieces_inside(given@, pieces_view(v@)),
        pieces_inside(base@, pieces_view(w@)),
    ensures
        below == is_below(platform, given@, base@),
{
    if w.len() > v.len() {
        return false;
    }
    let mut i: usize = 0;
    while i < w.len()
        invariant
            i <= w@.len() <= v@.len(),
            pieces_view(v@) == pieces(platform, given@),
            pieces_view(w@) == pieces(platform, base@),
            pieces_inside(given@, pieces_view(v@)),
            pieces_inside(base@, pieces_view(w@)),
            forall|k: int|
                0 <= k < i ==> same_piece(
                    given@,
                    #[trigger] pieces(platform, given@)[k],
                    base@,
                    pieces(platform, base@)[k],
                ),
        decreases w@.len() - i,
    {
        assert(pieces_view(v@)[i as int] == v@[i as int]@);
        assert(pieces_view(w@)[i as int] == w@[i as int]@);
        if !pieces_match(given, v[i], base, w[i]) {
            return false;
        }
        i = i + 1;
    }
    true
}

/// Whether a path lies at or below another, component by component.
pub fn path_is_below(platform: Platform, path: &[char], base: &[char]) -> (r: bool)
    ensures
        r == is_below(platform, path@, base@),
{
    let v = components(platform, path);
    let w = components(platform, base);
    begins_with(platform, path, v.as_slice(), base, w.as_slice())
}

/// A tool's path relative to the working directory.
pub fn relativize_tool_path(platform: Platform, path: &str, cwd: Option<&str>) -> (r: String)
    ensures
        r@ == relativized(platform, path@, str_view(cwd)),
{
    let base = match cwd {
        None => {
            return path.to_owned();
        },
        Some(base) => chars_of(base),
    };
    let base = base.as_slice();
    let given = chars_of(path);
    let given = given.as_slice();
    if !is_absolute(platform, given) {
        return path.to_owned();
    }
    let v = components(platform, given);
    let w = components(platform, base);
    let below = begins_with(platform, given, v.as_slice(), base, w.as_slice());
    if below {
        if w.len() < v.len() {
            let first = v[w.len()];
            let last = v[v.len() - 1];
            assert(pieces_view(v@)[w@.len() as int] == first@);
            assert(pieces_view(v@).last() == last@);
            if first.start < last.end {
                return text_of(slice_subrange(given, first.start, last.end));
            }
        }
        return path.to_owned();
    }
    if platform == Platform::Windows {
        if let Some(rest) = relativize_windows_case_insensitive(
            given,
            v.as_slice(),
            base,
            w.as_slice(),
        ) {
            return text_of(rest.as_slice());
        }
    }
    path.to_owned()
}

/// A tool's path is never shown as nothing.
pub proof fn law_relative_paths_are_never_empty(
    platform: Platform,
    path: Seq<char>,
    cwd: Option<Seq<char>>,
)
    requires
        path.len() > 0,
    ensures
        relativized(platform, path, cwd).len() > 0,
{
}

/// The working directory itself is shown whole.
pub proof fn law_the_directory_itself_stays_whole(platform: Platform, cwd: Seq<char>)
    ensures
        relativized(platform, cwd, Some(cwd)) == cwd,
{
}

/// A relative path is shown as it is.
pub proof fn law_relative_paths_stay(platform: Platform, path: Seq<char>, cwd: Option<Seq<char>>)
    requires
        !absolute(platform, path),
    ensures
        relativized(platform, path, cwd) == path,
{
}

/// The path of names below a folder.
pub open spec fn path_below(platform: Platform, folder: Seq<char>, names: Seq<Seq<char>>) -> Seq<char> {
    join(seq![folder] + names, mark_of(platform))
}

/// Names that a folder can hold, one below the other.
pub open spec fn are_names(names: Seq<Seq<char>>) -> bool {
    &&& names.len() > 0
    &&& forall|k: int| 0 <= k < names.len() ==> is_simple_name(#[trigger] names[k])
}

proof fn lemma_pieces_below(platform: Platform, folder: Seq<char>, names: Seq<Seq<char>>)
    requires
        is_rooted(platform, folder),
        forall|k: int| 0 <= k < names.len() ==> is_simple_name(#[trigger] names[k]),
    ensures
        ({
            let path = path_below(platform, folder, names);
            let v = pieces(platform, path);
            let n = pieces(platform, folder).len() as int;
            &&& is_rooted(platform, path)
            &&& path.len() >= folder.len()
            &&& path.take(folder.len() as int) == folder
            &&& v.len() == n + names.len()
            &&& v.take(n) == pieces(platform, folder)
            &&& names.len() > 0 ==> v[n].start == folder.len() + 1 && v.last().end == path.len()
            &&& forall|k: int|
                0 <= k < names.len() ==> #[trigger] piece_text(path, v[n + k]) == names[k] && v[n
                    + k].kind == PieceKind::Normal
        }),
    decreases names.len(),
{
    reveal_strlit("\\");
    reveal_strlit("/");
    let mark = mark_of(platform);
    let c = match platform {
        Platform::Windows => '\\',
        Platform::Unix => '/',
    };
    assert(mark =~= seq![c]);
    let path = path_below(platform, folder, names);
    let n = pieces(platform, folder).len() as int;
    if names.len() == 0 {
        assert(seq![folder] + names =~= seq![folder]);
        assert(path == folder);
        assert(path.take(folder.len() as int) =~= folder);
        assert(pieces(platform, path).take(n) =~= pieces(platform, folder));
    } else {
        let rest = names.drop_last();
        let name = names[names.len() - 1];
        assert forall|k: int| 0 <= k < rest.len() implies is_simple_name(#[trigger] rest[k]) by {
            assert(rest[k] == names[k]);
        }
        lemma_pieces_below(platform, folder, rest);
        let before = path_below(platform, folder, rest);
        assert((seq![folder] + names).drop_last() =~= seq![folder] + rest);
        assert((seq![folder] + names).last() == name);
        assert(path == before + mark + name);
        assert forall|i: int| 0 <= i < name.len() implies !separates(platform, #[trigger] name[i]) by {
            assert(name[i] != '/' && name[i] != '\\');
        }
        law_a_name_is_one_component_more(platform, before, c, name);
        assert(path.take(folder.len() as int) =~= before.take(folder.len() as int));
        let v = pieces(platform, path);
        let w = pieces(platform, before);
        lemma_pieces_inside(platform, before);
        assert(v.take(n) =~= w.take(n));
        assert forall|k: int| 0 <= k < names.len() implies #[trigger] piece_text(path, v[n + k])
            == names[k] && v[n + k].kind == PieceKind::Normal by {
            if k < rest.len() {
                assert(v[n + k] == w[n + k]);
                assert(piece_text(before, w[n + k]) == rest[k]);
                assert(piece_text(path, v[n + k]) =~= piece_text(before, w[n + k]));
            } else {
                assert(piece_text(path, v[n + k]) =~= name);
            }
        }
    }
}

/// What lies below the working directory is shown from there: by its names alone,
/// joined as they were.
pub proof fn law_paths_below_the_directory_are_shown_from_there(
    platform: Platform,
    cwd: Seq<char>,
    names: Seq<Seq<char>>,
)
    requires
        is_rooted(platform, cwd),
        are_names(names),
    ensures
        relativized(platform, path_below(platform, cwd, names), Some(cwd)) == join(
            names,
            mark_of(platform),
        ),
{
    let path = path_below(platform, cwd, names);
    lemma_pieces_below(platform, cwd, names);
    lemma_pieces_inside(platform, cwd);
    let v = pieces(platform, path);
    let w = pieces(platform, cwd);
    assert forall|i: int| 0 <= i < w.len() implies same_piece(path, #[trigger] v[i], cwd, w[i]) by {
        assert(v.take(w.len() as int)[i] == v[i]);
        assert(piece_text(path, v[i]) =~= piece_text(cwd, w[i]));
    }
    lemma_rooted(platform, path);
    lemma_join_names(platform, cwd, names);
}

proof fn lemma_join_names(platform: Platform, folder: Seq<char>, names: Seq<Seq<char>>)
    requires
        are_names(names),
    ensures
        ({
            let path = path_below(platform, folder, names);
            &&& path.subrange(folder.len() as int + 1, path.len() as int) == join(
                names,
                mark_of(platform),
            )
            &&& join(names, mark_of(platform)).len() > 0
            &&& path.len() > folder.len() + 1
        }),
{
    reveal_strlit("\\");
    reveal_strlit("/");
    let mark = mark_of(platform);
    let path = path_below(platform, folder, names);
    lemma_join_first(folder, names, mark);
    assert(is_simple_name(names[0]));
    if names.len() > 1 {
        assert(join(names, mark) == join(names.drop_last(), mark) + mark + names.last());
    }
    assert(path.subrange(folder.len() as int + 1, path.len() as int) =~= join(names, mark));
}

proof fn lemma_rejoined(path: Seq<char>, v: Seq<Piece>, names: Seq<Seq<char>>)
    requires
        are_names(names),
        v.len() == names.len(),
        forall|k: int|
            0 <= k < names.len() ==> piece_text(path, #[trigger] v[k]) == names[k] && v[k].kind
                == PieceKind::Normal,
    ensures
        rejoined(path, v) == join(names, "\\"@),
    decreases names.len(),
{
    let name = names[names.len() - 1];
    assert(is_simple_name(name));
    assert(piece_text(path, v[v.len() - 1]) == name);
    assert(!has_drive(name)) by {
        if name.len() >= 2 {
            assert(name[1] != ':');
        }
    }
    if names.len() == 1 {
        assert(rejoined(path, v.drop_last()) =~= Seq::empty());
        law_names_are_joined_by_one_separator(Platform::Windows, Seq::empty(), name);
        assert(Seq::<char>::empty() + name =~= name);
    } else {
        let rest = names.drop_last();
        assert forall|k: int| 0 <= k < rest.len() implies is_simple_name(#[trigger] rest[k]) by {
            assert(rest[k] == names[k]);
        }
        assert forall|k: int| 0 <= k < rest.len() implies piece_text(
            path,
            #[trigger] v.drop_last()[k],
        ) == rest[k] && v.drop_last()[k].kind == PieceKind::Normal by {
            assert(v.drop_last()[k] == v[k]);
        }
        lemma_rejoined(path, v.drop_last(), rest);
        lemma_last_of_joined(rest);
        reveal_strlit("\\");
        let before = join(rest, "\\"@);
        law_names_are_joined_by_one_separator(Platform::Windows, before, name);
        assert("\\"@ =~= seq!['\\']);
    }
}

proof fn lemma_last_of_joined(names: Seq<Seq<char>>)
    requires
        are_names(names),
    ensures
        ({
            let joined = join(names, "\\"@);
            &&& joined.len() > 0
            &&& joined.last() != '/' && joined.last() != '\\'
            &&& joined.len() == 2 ==> joined[1] != ':'
        }),
{
    reveal_strlit("\\");
    let name = names[names.len() - 1];
    assert(is_simple_name(name));
    assert(name[name.len() - 1] != '/' && name[name.len() - 1] != '\\' && name[name.len() - 1]
        != ':');
    if names.len() > 1 {
        assert(join(names, "\\"@).last() == name.last());
    }
}

/// On Windows the directory counts in any case: what lies below it by all its
/// components is shown from there.
pub proof fn law_case_does_not_count_on_windows(
    folder: Seq<char>,
    names: Seq<Seq<char>>,
    cwd: Seq<char>,
)
    requires
        is_rooted(Platform::Windows, folder),
        are_names(names),
        pieces(Platform::Windows, cwd).len() == pieces(Platform::Windows, folder).len(),
        forall|i: int|
            0 <= i < pieces(Platform::Windows, cwd).len() ==> {
                let p = #[trigger] pieces(Platform::Windows, folder)[i];
                let q = pieces(Platform::Windows, cwd)[i];
                &&& p.kind == q.kind
                &&& ascii_lower(folder.subrange(p.start, p.end)) == ascii_lower(
                    cwd.subrange(q.start, q.end),
                )
            },
    ensures
        relativized(Platform::Windows, path_below(Platform::Windows, folder, names), Some(cwd))
            == join(names, "\\"@),
{
    let platform = Platform::Windows;
    let path = path_below(platform, folder, names);
    lemma_pieces_below(platform, folder, names);
    lemma_pieces_inside(platform, folder);
    lemma_rooted(platform, path);
    lemma_join_names(platform, folder, names);
    let v = pieces(platform, path);
    let w = pieces(platform, cwd);
    let u = pieces(platform, folder);
    let n = u.len() as int;
    assert forall|i: int| 0 <= i < w.len() implies same_piece_ignoring_case(
        path,
        #[trigger] v[i],
        cwd,
        w[i],
    ) by {
        assert(v.take(n)[i] == v[i]);
        assert(u[i] == v[i]);
        assert(piece_text(path, v[i]) =~= piece_text(folder, u[i]));
    }
    assert forall|k: int| 0 <= k < names.len() implies piece_text(path, #[trigger] v.skip(n)[k])
        == names[k] && v.skip(n)[k].kind == PieceKind::Normal by {
        assert(v.skip(n)[k] == v[n + k]);
        assert(piece_text(path, v[n + k]) == names[k]);
    }
    lemma_rejoined(path, v.skip(n), names);
}

/// What does not lie below the working directory is shown whole: where a name on
/// the way differs, in more than its case on Windows, or where the directory has
/// more components.
pub proof fn law_other_paths_are_shown_whole(
    platform: Platform,
    path: Seq<char>,
    cwd: Seq<char>,
    i: int,
)
    ensures
        relativized(platform, path, None) == path,
        pieces(platform, cwd).len() > pieces(platform, path).len() ==> relativized(
            platform,
            path,
            Some(cwd),
        ) == path,
        0 <= i < pieces(platform, cwd).len() && i < pieces(platform, path).len() && ({
            let p = pieces(platform, path)[i];
            let q = pieces(platform, cwd)[i];
            ||| p.kind != q.kind
            ||| p.kind == PieceKind::Normal && ascii_lower(path.subrange(p.start, p.end))
                != ascii_lower(cwd.subrange(q.start, q.end))
            ||| platform == Platform::Unix && p.kind == PieceKind::Normal && path.subrange(
                p.start,
                p.end,
            ) != cwd.subrange(q.start, q.end)
        }) ==> relativized(platform, path, Some(cwd)) == path,
{
}

/// On Windows a drive counts in any case, and its share in any separators.
pub proof fn law_prefixes_are_compared_by_what_they_name(drive: char, share: Seq<char>)
    requires
        'a' <= drive <= 'z' || 'A' <= drive <= 'Z',
        has_double_separator(share),
        !is_verbatim(share),
    ensures
        prefix_key(seq![drive, ':']) == seq![lower_char(drive), ':'],
        prefix_key(share).len() == share.len(),
        forall|i: int|
            0 <= i < share.len() ==> #[trigger] prefix_key(share)[i] == if share[i] == '/' {
                '\\'
            } else {
                share[i]
            },
{
    reveal_strlit("\\\\?\\");
    let s = seq![drive, ':'];
    assert(!is_verbatim(s));
    assert(s.update(0, lower_char(drive)) =~= seq![lower_char(drive), ':']);
}

/// A verbatim drive counts in any case too; any other verbatim prefix counts as
/// it is written, with the separator behind `UNC` made the usual one.
pub proof fn law_verbatim_prefixes_are_compared_as_written(t: Seq<char>)
    requires
        is_verbatim(t),
    ensures
        is_verbatim_drive(t) ==> prefix_key(t) == t.take(4) + seq![lower_char(t[4])] + t.skip(5),
        is_verbatim_unc(t) ==> prefix_key(t) == t.take(7) + seq!['\\'] + t.skip(8),
        !is_verbatim_drive(t) && !is_verbatim_unc(t) ==> prefix_key(t) == t,
{
    reveal_strlit("\\\\?\\");
    if is_verbatim_drive(t) {
        assert(prefix_key(t) =~= t.take(4) + seq![lower_char(t[4])] + t.skip(5));
    }
    if is_verbatim_unc(t) {
        assert(prefix_key(t) =~= t.take(7) + seq!['\\'] + t.skip(8));
    }
}

} // verus!
