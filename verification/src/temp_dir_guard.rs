//! A guard over source text: no line of code asks for the system's temporary
//! folder outside the one place that may.
//!
//! A line is judged without its prose. It offends when it spells the token, when
//! it imports `temp_dir` from `std::env`, or when it calls a bare `temp_dir()`
//! in a file that has such an import. A site that may keep the token is listed
//! by its file and by the text of its line.
use crate::numbers::{decimal, decimal_text};
use crate::std_text::{alphanumeric, is_alphanumeric};
use crate::text::{
    belongs, chars_of, find_text, find_word, has_prefix, is_white, join,
    law_joined_parts_are_split_again, lemma_find_word, lemma_run_end, run_end, same_text, split_on,
    split_text, starts_with, texts_of, trim_start, trimmed_start, word_at, words_of, CharClass,
};
use crate::wire::text5;
use vstd::prelude::*;
use vstd::slice::slice_subrange;

verus! {

/// The file that may ask for the folder.
pub const HELPER: &'static str = "test_dirs.rs";

/// A line that is prose from its first character on.
pub open spec fn is_prose(trimmed: Seq<char>) -> bool {
    has_prefix(trimmed, "//"@) || has_prefix(trimmed, "/*"@) || has_prefix(trimmed, "*"@)
}

pub fn is_comment_line(trimmed: &[char]) -> (r: bool)
    ensures
        r == is_prose(trimmed@),
{
    starts_with(trimmed, "//") || starts_with(trimmed, "/*") || starts_with(trimmed, "*")
}

/// Where the prose at the end of a line begins, from `i` on: at the first `//`
/// outside a string literal, or at the end.
pub open spec fn prose_start(line: Seq<char>, i: int, in_string: bool, escaped: bool) -> int
    decreases line.len() - i,
{
    if i < 0 || i >= line.len() {
        line.len() as int
    } else if in_string {
        if escaped {
            prose_start(line, i + 1, true, false)
        } else if line[i] == '\\' {
            prose_start(line, i + 1, true, true)
        } else if line[i] == '"' {
            prose_start(line, i + 1, false, false)
        } else {
            prose_start(line, i + 1, true, false)
        }
    } else if line[i] == '"' {
        prose_start(line, i + 1, true, escaped)
    } else if line[i] == '/' && i + 1 < line.len() && line[i + 1] == '/' {
        i
    } else {
        prose_start(line, i + 1, false, escaped)
    }
}

/// A line without the prose at its end.
pub open spec fn code_of(line: Seq<char>) -> Seq<char> {
    line.take(prose_start(line, 0, false, false))
}

pub fn strip_trailing_comment(line: &[char]) -> (r: &[char])
    ensures
        r@ == code_of(line@),
{
    let mut in_string = false;
    let mut escaped = false;
    let mut i: usize = 0;
    while i < line.len()
        invariant
            i <= line@.len(),
            prose_start(line@, 0, false, false) == prose_start(
                line@,
                i as int,
                in_string,
                escaped,
            ),
        decreases line@.len() - i,
    {
        let c = line[i];
        if in_string {
            if escaped {
                escaped = false;
            } else if c == '\\' {
                escaped = true;
            } else if c == '"' {
                in_string = false;
            }
        } else if c == '"' {
            in_string = true;
        } else if c == '/' && i + 1 < line.len() && line[i + 1] == '/' {
            let r = slice_subrange(line, 0, i);
            assert(r@ =~= code_of(line@));
            return r;
        }
        i = i + 1;
    }
    assert(line@.take(line@.len() as int) =~= line@);
    line
}

/// The text occurs in the line.
pub open spec fn mentions(line: Seq<char>, word: Seq<char>) -> bool {
    find_word(line, word, 0) is Some
}

/// The code imports `temp_dir` from `std::env`.
pub open spec fn imports_temp_dir(code: Seq<char>) -> bool {
    let t = trim_start(code, CharClass::White);
    has_prefix(t, "use "@) && mentions(t, "std::env::"@) && mentions(t, "temp_dir"@)
}

pub fn imports_env_temp_dir(code: &[char]) -> (r: bool)
    ensures
        r == imports_temp_dir(code@),
{
    let t = trimmed_start(code, CharClass::White);
    starts_with(t, "use ") && find_text(t, "std::env::", 0).is_some() && find_text(
        t,
        "temp_dir",
        0,
    ).is_some()
}

/// A character that belongs to a name or a path before a word.
pub open spec fn joins_a_word(c: char) -> bool {
    alphanumeric(c) || c == '_' || c == ':'
}

/// The code calls `temp_dir` under its own name.
pub open spec fn calls_bare_temp_dir(code: Seq<char>) -> bool
    decreases code.len(),
{
    match find_word(code, "temp_dir"@, 0) {
        None => false,
        Some(i) => {
            let after = trim_start(code.skip(i + 8), CharClass::White);
            if (i == 0 || !joins_a_word(code[i - 1])) && after.len() > 0 && after[0] == '(' {
                true
            } else {
                proof {
                    lemma_find_word(code, "temp_dir"@, 0);
                    reveal_strlit("temp_dir");
                }
                calls_bare_temp_dir(code.skip(i + 8))
            }
        },
    }
}

pub fn has_bare_temp_dir_call(code: &[char]) -> (r: bool)
    ensures
        r == calls_bare_temp_dir(code@),
{
    proof {
        reveal_strlit("temp_dir");
    }
    let mut rest = code;
    loop
        invariant
            "temp_dir"@.len() == 8,
            calls_bare_temp_dir(code@) == calls_bare_temp_dir(rest@),
        decreases rest@.len(),
    {
        match find_text(rest, "temp_dir", 0) {
            None => {
                return false;
            },
            Some(i) => {
                let tail = slice_subrange(rest, i + 8, rest.len());
                assert(tail@ =~= rest@.skip(i + 8));
                let after = trimmed_start(tail, CharClass::White);
                let alone = i == 0 || !(is_alphanumeric(rest[i - 1]) || rest[i - 1] == '_' || rest[i
                    - 1] == ':');
                if alone && after.len() > 0 && after[0] == '(' {
                    return true;
                }
                rest = tail;
            },
        }
    }
}

/// Why a line offends, if it does; `imported` says that its file imports
/// `temp_dir`.
pub open spec fn offence(line: Seq<char>, token: Seq<char>, imported: bool) -> Option<Seq<char>> {
    let code = code_of(line);
    if is_prose(trim_start(line, CharClass::White)) {
        None
    } else if mentions(code, token) {
        Some("asks for the system temp dir"@)
    } else if imports_temp_dir(code) {
        Some("imports temp_dir from std::env"@)
    } else if imported && calls_bare_temp_dir(code) {
        Some("calls the bare temp_dir() this file imports"@)
    } else {
        None
    }
}

fn find_offence(line: &[char], token: &str, imported: bool) -> (r: Option<&'static str>)
    ensures
        r is Some == offence(line@, token@, imported) is Some,
        r matches Some(reason) ==> offence(line@, token@, imported) == Some(reason@),
{
    if is_comment_line(trimmed_start(line, CharClass::White)) {
        return None;
    }
    let code = strip_trailing_comment(line);
    if find_text(code, token, 0).is_some() {
        Some("asks for the system temp dir")
    } else if imports_env_temp_dir(code) {
        Some("imports temp_dir from std::env")
    } else if imported && has_bare_temp_dir_call(code) {
        Some("calls the bare temp_dir() this file imports")
    } else {
        None
    }
}

/// Some line of the file imports `temp_dir`.
pub open spec fn file_imports(lines: Seq<Seq<char>>) -> bool {
    exists|i: int|
        0 <= i < lines.len() && !is_prose(trim_start(#[trigger] lines[i], CharClass::White))
            && imports_temp_dir(code_of(lines[i]))
}

/// A site that may keep the token: its file and the text of its line.
#[derive(Debug)]
pub struct AllowedSite {
    pub file: String,
    pub snippet: String,
}

/// The first listed site that a line is.
pub open spec fn allowed_slot(
    allow: Seq<AllowedSite>,
    site_file: Seq<char>,
    code: Seq<char>,
    i: int,
) -> Option<int>
    decreases allow.len() - i,
{
    if i < 0 || i >= allow.len() {
        None
    } else if allow[i].file@ == site_file && mentions(code, allow[i].snippet@) {
        Some(i)
    } else {
        allowed_slot(allow, site_file, code, i + 1)
    }
}

fn find_allowed(allow: &[AllowedSite], site_file: &str, code: &[char]) -> (r: Option<usize>)
    ensures
        crate::text::position(r) == allowed_slot(allow@, site_file@, code@, 0),
        r matches Some(i) ==> i < allow@.len(),
{
    let mut i: usize = 0;
    while i < allow.len()
        invariant
            i <= allow@.len(),
            allowed_slot(allow@, site_file@, code@, 0) == allowed_slot(
                allow@,
                site_file@,
                code@,
                i as int,
            ),
        decreases allow@.len() - i,
    {
        if same_text(allow[i].file.as_str(), site_file) && find_text(
            code,
            allow[i].snippet.as_str(),
            0,
        ).is_some() {
            return Some(i);
        }
        i = i + 1;
    }
    None
}

/// `<file>:<line> — <reason>`.
pub open spec fn violation(site_file: Seq<char>, index: int, reason: Seq<char>) -> Seq<char> {
    site_file + ":"@ + decimal((index + 1) as nat) + " — "@ + reason
}

/// The violations among the first `n` lines.
pub open spec fn violations(
    site_file: Seq<char>,
    lines: Seq<Seq<char>>,
    token: Seq<char>,
    allow: Seq<AllowedSite>,
    n: int,
) -> Seq<Seq<char>>
    decreases n,
{
    if n <= 0 {
        Seq::empty()
    } else {
        let before = violations(site_file, lines, token, allow, n - 1);
        match offence(lines[n - 1], token, file_imports(lines)) {
            None => before,
            Some(reason) => if allowed_slot(allow, site_file, code_of(lines[n - 1]), 0) is Some {
                before
            } else {
                before.push(violation(site_file, n - 1, reason))
            },
        }
    }
}

/// The listed sites that the first `n` lines met, added to those met before.
pub open spec fn used_sites(
    site_file: Seq<char>,
    lines: Seq<Seq<char>>,
    token: Seq<char>,
    allow: Seq<AllowedSite>,
    used: Seq<bool>,
    n: int,
) -> Seq<bool>
    decreases n,
{
    if n <= 0 {
        used
    } else {
        let before = used_sites(site_file, lines, token, allow, used, n - 1);
        match offence(lines[n - 1], token, file_imports(lines)) {
            None => before,
            Some(_) => match allowed_slot(allow, site_file, code_of(lines[n - 1]), 0) {
                Some(slot) => before.update(slot, true),
                None => before,
            },
        }
    }
}

/// The lines of a text: they end at `\n`, a `\r` before that is dropped, and a
/// text that ends in `\n` has no line behind it.
pub open spec fn lines_of(text: Seq<char>) -> Seq<Seq<char>> {
    let parts = split_on(text, "\n"@);
    let n = parts.len();
    let ended = Seq::new(
        (n - 1) as nat,
        |i: int|
            if parts[i].len() > 0 && parts[i].last() == '\r' {
                parts[i].drop_last()
            } else {
                parts[i]
            },
    );
    if parts.last().len() == 0 {
        ended
    } else {
        ended.push(parts.last())
    }
}

fn split_lines(text: &[char]) -> (r: Vec<Vec<char>>)
    ensures
        words_of(r@) == lines_of(text@),
{
    proof {
        reveal_strlit("\n");
    }
    let parts = split_text(text, "\n");
    let ghost all = words_of(parts@);
    assert(all.len() == parts@.len());
    let ghost wanted = lines_of(text@);
    let mut r: Vec<Vec<char>> = Vec::new();
    let last: usize = parts.len() - 1;
    let mut i: usize = 0;
    assert(words_of(r@) =~= wanted.take(0));
    while i < last
        invariant
            i <= last,
            last == parts@.len() - 1,
            all == words_of(parts@),
            all == split_on(text@, "\n"@),
            wanted == lines_of(text@),
            wanted.len() >= last,
            words_of(r@) == wanted.take(i as int),
        decreases last - i,
    {
        let ghost before = r@;
        let part = parts[i].as_slice();
        assert(all[i as int] == part@);
        if part.len() > 0 && part[part.len() - 1] == '\r' {
            let cut = slice_subrange(part, 0, part.len() - 1);
            assert(cut@ =~= part@.drop_last());
            r.push(crate::text::owned(cut));
        } else {
            r.push(crate::text::owned(part));
        }
        i = i + 1;
        assert(words_of(r@) =~= words_of(before).push(wanted[i - 1]));
        assert(words_of(r@) =~= wanted.take(i as int));
    }
    assert(all.last() == parts@[last as int]@);
    if parts[last].len() > 0 {
        let ghost before = r@;
        r.push(crate::text::owned(parts[last].as_slice()));
        assert(words_of(r@) =~= words_of(before).push(all.last()));
    }
    assert(words_of(r@) =~= wanted);
    r
}

/// Judges one file: the violations in its text, and the listed sites that it
/// met.
pub fn check(
    site_file: &str,
    text: &str,
    token: &str,
    allow: &[AllowedSite],
    used: &mut Vec<bool>,
) -> (r: Vec<String>)
    requires
        old(used)@.len() == allow@.len(),
    ensures
        final(used)@.len() == allow@.len(),
        site_file@ == HELPER@ ==> r@.len() == 0 && final(used)@ == old(used)@,
        site_file@ != HELPER@ ==> texts_of(r@) == violations(
            site_file@,
            lines_of(text@),
            token@,
            allow@,
            lines_of(text@).len() as int,
        ),
        site_file@ != HELPER@ ==> final(used)@ == used_sites(
            site_file@,
            lines_of(text@),
            token@,
            allow@,
            old(used)@,
            lines_of(text@).len() as int,
        ),
{
    let mut r: Vec<String> = Vec::new();
    if same_text(site_file, HELPER) {
        return r;
    }
    let chars = chars_of(text);
    let lines = split_lines(chars.as_slice());
    let ghost all = words_of(lines@);
    assert(all.len() == lines@.len());
    let mut imported = false;
    let mut k: usize = 0;
    while k < lines.len()
        invariant
            k <= lines@.len(),
            all == words_of(lines@),
            all.len() == lines@.len(),
            imported == exists|i: int|
                0 <= i < k && !is_prose(trim_start(#[trigger] all[i], CharClass::White))
                    && imports_temp_dir(code_of(all[i])),
        decreases lines@.len() - k,
    {
        let line = lines[k].as_slice();
        assert(all[k as int] == line@);
        if !is_comment_line(trimmed_start(line, CharClass::White)) && imports_env_temp_dir(
            strip_trailing_comment(line),
        ) {
            imported = true;
        }
        k = k + 1;
    }
    let ghost start = used@;
    let mut n: usize = 0;
    assert(texts_of(r@) =~= Seq::<Seq<char>>::empty());
    while n < lines.len()
        invariant
            n <= lines@.len(),
            all == words_of(lines@),
            all == lines_of(text@),
            all.len() == lines@.len(),
            imported == file_imports(all),
            start == old(used)@,
            used@.len() == allow@.len(),
            texts_of(r@) == violations(site_file@, all, token@, allow@, n as int),
            used@ == used_sites(site_file@, all, token@, allow@, start, n as int),
        decreases lines@.len() - n,
    {
        let line = lines[n].as_slice();
        assert(all[n as int] == line@);
        if let Some(reason) = find_offence(line, token, imported) {
            match find_allowed(allow, site_file, strip_trailing_comment(line)) {
                Some(slot) => {
                    used.set(slot, true);
                },
                None => {
                    let ghost before = r@;
                    let said = text5(
                        site_file,
                        ":",
                        decimal_text(n as u64 + 1).as_str(),
                        " — ",
                        reason,
                    );
                    r.push(said);
                    assert(texts_of(r@) =~= texts_of(before).push(said@));
                },
            }
        }
        n = n + 1;
    }
    r
}

/// Behind blanks, if any, an opening parenthesis stands at or after `k`.
pub open spec fn is_opened(code: Seq<char>, k: int) -> bool {
    exists|j: int| #[trigger] opens_at(code, k, j)
}

/// The first character at or after `k` that is no blank is a parenthesis at `j`.
pub open spec fn opens_at(code: Seq<char>, k: int, j: int) -> bool {
    &&& 0 <= k <= j < code.len()
    &&& code[j] == '('
    &&& forall|m: int| k <= m < j ==> is_white(#[trigger] code[m])
}

/// A call of `temp_dir` by its bare name at `i`: the name stands alone, or right
/// behind itself, and is opened.
pub open spec fn is_bare_call(code: Seq<char>, i: int) -> bool {
    &&& word_at(code, i, "temp_dir"@)
    &&& i == 0 || !joins_a_word(code[i - 1]) || word_at(code, i - 8, "temp_dir"@)
    &&& is_opened(code, i + 8)
}

proof fn lemma_opened(code: Seq<char>, k: int)
    requires
        0 <= k <= code.len(),
    ensures
        ({
            let after = trim_start(code.skip(k), CharClass::White);
            is_opened(code, k) <==> after.len() > 0 && after[0] == '('
        }),
{
    let s = code.skip(k);
    let after = trim_start(s, CharClass::White);
    lemma_run_end(s, CharClass::White, 0);
    let e = run_end(s, CharClass::White, 0);
    assert(!is_white('('));
    if after.len() > 0 && after[0] == '(' {
        assert(after[0] == s[e]);
        assert(s[e] == code[k + e]);
        assert forall|m: int| k <= m < k + e implies is_white(#[trigger] code[m]) by {
            assert(belongs(CharClass::White, s[m - k]));
        }
        assert(opens_at(code, k, k + e));
    }
    if is_opened(code, k) {
        let j = choose|j: int| #[trigger] opens_at(code, k, j);
        assert(s[j - k] == code[j]);
        if e < j - k {
            assert(is_white(code[k + e]));
            assert(!belongs(CharClass::White, s[e]));
        }
        if e > j - k {
            assert(belongs(CharClass::White, s[j - k]));
        }
        assert(after[0] == s[e]);
    }
}

proof fn lemma_names_do_not_overlap(code: Seq<char>, a: int, b: int)
    requires
        word_at(code, a, "temp_dir"@),
        word_at(code, b, "temp_dir"@),
        a < b,
    ensures
        a + 8 <= b,
{
    reveal_strlit("temp_dir");
    let w = "temp_dir"@;
    if b < a + 8 {
        assert(code.subrange(a, a + 8)[b - a] == code[b]);
        assert(code.subrange(b, b + 8)[0] == code[b]);
        assert(w[b - a] == 't');
        assert(w[1] == 'e' && w[2] == 'm' && w[3] == 'p' && w[4] == '_' && w[5] == 'd' && w[6] == 'i'
            && w[7] == 'r');
    }
}

proof fn lemma_name_in_rest(code: Seq<char>, k: int, i: int)
    requires
        0 <= k <= code.len(),
        0 <= i,
    ensures
        word_at(code.skip(k), i, "temp_dir"@) <==> word_at(code, k + i, "temp_dir"@),
{
    reveal_strlit("temp_dir");
    if k + i + 8 <= code.len() {
        assert(code.skip(k).subrange(i, i + 8) =~= code.subrange(k + i, k + i + 8));
    }
}

proof fn lemma_opened_in_rest(code: Seq<char>, k: int, i: int)
    requires
        0 <= k <= code.len(),
        0 <= i,
    ensures
        is_opened(code.skip(k), i) <==> is_opened(code, k + i),
{
    let rest = code.skip(k);
    if is_opened(rest, i) {
        let j = choose|j: int| #[trigger] opens_at(rest, i, j);
        assert forall|m: int| k + i <= m < k + j implies is_white(#[trigger] code[m]) by {
            assert(rest[m - k] == code[m]);
        }
        assert(opens_at(code, k + i, k + j));
    }
    if is_opened(code, k + i) {
        let j = choose|j: int| #[trigger] opens_at(code, k + i, j);
        assert forall|m: int| i <= m < j - k implies is_white(#[trigger] rest[m]) by {
            assert(rest[m] == code[m + k]);
        }
        assert(opens_at(rest, i, j - k));
    }
}

proof fn lemma_call_in_rest(code: Seq<char>, first: int, i: int)
    requires
        word_at(code, first, "temp_dir"@),
        0 <= i,
    ensures
        is_bare_call(code.skip(first + 8), i) <==> is_bare_call(code, first + 8 + i),
{
    reveal_strlit("temp_dir");
    let k = first + 8;
    let rest = code.skip(k);
    lemma_name_in_rest(code, k, i);
    if i > 0 {
        if i <= rest.len() {
            assert(rest[i - 1] == code[k + i - 1]);
        }
        if i >= 8 {
            lemma_name_in_rest(code, k, i - 8);
        } else if word_at(code, k + i - 8, "temp_dir"@) {
            lemma_names_do_not_overlap(code, first, k + i - 8);
        }
    }
    if word_at(rest, i, "temp_dir"@) {
        lemma_opened_in_rest(code, k, i + 8);
    }
}

/// Code calls the bare `temp_dir` exactly where some occurrence of the name is a
/// call of it.
pub proof fn law_bare_calls_are_found_anywhere(code: Seq<char>)
    ensures
        calls_bare_temp_dir(code) <==> exists|i: int| #[trigger] is_bare_call(code, i),
    decreases code.len(),
{
    reveal_strlit("temp_dir");
    lemma_find_word(code, "temp_dir"@, 0);
    match find_word(code, "temp_dir"@, 0) {
        None => {
            if exists|i: int| #[trigger] is_bare_call(code, i) {
                let i = choose|i: int| #[trigger] is_bare_call(code, i);
                assert(!word_at(code, i, "temp_dir"@));
            }
        },
        Some(first) => {
            lemma_opened(code, first + 8);
            let rest = code.skip(first + 8);
            law_bare_calls_are_found_anywhere(rest);
            if first >= 8 {
                assert(!word_at(code, first - 8, "temp_dir"@));
            }
            let here = (first == 0 || !joins_a_word(code[first - 1])) && is_opened(code, first + 8);
            assert(is_bare_call(code, first) <==> here);
            if here {
                assert(calls_bare_temp_dir(code));
            } else {
                assert(calls_bare_temp_dir(code) == calls_bare_temp_dir(rest));
                if calls_bare_temp_dir(rest) {
                    let i = choose|i: int| #[trigger] is_bare_call(rest, i);
                    lemma_call_in_rest(code, first, i);
                    assert(is_bare_call(code, first + 8 + i));
                }
                if exists|i: int| #[trigger] is_bare_call(code, i) {
                    let i = choose|i: int| #[trigger] is_bare_call(code, i);
                    if i < first {
                        assert(!word_at(code, i, "temp_dir"@));
                    }
                    lemma_names_do_not_overlap(code, first, i);
                    lemma_call_in_rest(code, first, i - first - 8);
                    assert(is_bare_call(rest, i - first - 8));
                }
            }
        },
    }
}

/// Two slashes at `i`.
pub open spec fn slashes_at(line: Seq<char>, i: int) -> bool {
    0 <= i && i + 1 < line.len() && line[i] == '/' && line[i + 1] == '/'
}

proof fn lemma_outside_strings(line: Seq<char>, i: int, e: int, escaped: bool)
    requires
        0 <= i <= e <= line.len(),
        forall|j: int| i <= j < e ==> #[trigger] line[j] != '"',
        forall|j: int| i <= j < e ==> !#[trigger] slashes_at(line, j),
    ensures
        prose_start(line, i, false, escaped) == prose_start(line, e, false, escaped),
    decreases e - i,
{
    if i < e {
        assert(line[i] != '"');
        assert(!slashes_at(line, i));
        lemma_outside_strings(line, i + 1, e, escaped);
    }
}

proof fn lemma_inside_strings(line: Seq<char>, i: int, e: int)
    requires
        0 <= i <= e <= line.len(),
        forall|j: int| i <= j < e ==> #[trigger] line[j] != '"' && line[j] != '\\',
    ensures
        prose_start(line, i, true, false) == prose_start(line, e, true, false),
    decreases e - i,
{
    if i < e {
        assert(line[i] != '"' && line[i] != '\\');
        lemma_inside_strings(line, i + 1, e);
    }
}

/// The code of a line ends before its first two slashes, or is the whole line;
/// a line without quotes shows nothing else.
pub proof fn law_code_ends_at_the_comment(line: Seq<char>, e: int)
    requires
        0 <= e <= line.len(),
        e < line.len() ==> slashes_at(line, e),
        forall|j: int| 0 <= j < e ==> #[trigger] line[j] != '"',
        forall|j: int| 0 <= j < e ==> !#[trigger] slashes_at(line, j),
    ensures
        code_of(line) == line.take(e),
{
    lemma_outside_strings(line, 0, e, false);
    if e < line.len() {
        assert(slashes_at(line, e));
    }
}

/// Slashes inside a string are code: the string, from its quote at `a` to its
/// quote at `b` with no other quote or backslash between, is passed over, and the
/// code ends at the first two slashes behind it.
pub proof fn law_slashes_in_strings_are_code(line: Seq<char>, a: int, b: int, e: int)
    requires
        0 <= a < b < e <= line.len(),
        line[a] == '"',
        line[b] == '"',
        e < line.len() ==> slashes_at(line, e),
        forall|j: int| 0 <= j < a || b < j < e ==> #[trigger] line[j] != '"',
        forall|j: int| 0 <= j < a || b < j < e ==> !#[trigger] slashes_at(line, j),
        forall|j: int| a < j < b ==> #[trigger] line[j] != '"' && line[j] != '\\',
    ensures
        code_of(line) == line.take(e),
{
    lemma_outside_strings(line, 0, a, false);
    lemma_inside_strings(line, a + 1, b);
    lemma_outside_strings(line, b + 1, e, false);
    if e < line.len() {
        assert(slashes_at(line, e));
    }
}

/// A backslash in a string takes the next character with it, be it a quote or
/// another backslash: the string goes on behind them.
pub proof fn law_escaped_quotes_do_not_end_a_string(line: Seq<char>, a: int, u: int, b: int, e: int)
    requires
        0 <= a < u,
        u + 1 < b < e <= line.len(),
        line[a] == '"',
        line[u] == '\\',
        line[b] == '"',
        e < line.len() ==> slashes_at(line, e),
        forall|j: int| 0 <= j < a || b < j < e ==> #[trigger] line[j] != '"',
        forall|j: int| 0 <= j < a || b < j < e ==> !#[trigger] slashes_at(line, j),
        forall|j: int|
            a < j < u || u + 1 < j < b ==> #[trigger] line[j] != '"' && line[j] != '\\',
    ensures
        code_of(line) == line.take(e),
{
    lemma_outside_strings(line, 0, a, false);
    lemma_inside_strings(line, a + 1, u);
    assert(prose_start(line, u, true, false) == prose_start(line, u + 1, true, true));
    assert(prose_start(line, u + 1, true, true) == prose_start(line, u + 2, true, false));
    lemma_inside_strings(line, u + 2, b);
    lemma_outside_strings(line, b + 1, e, false);
    if e < line.len() {
        assert(slashes_at(line, e));
    }
}

/// A line that begins like a comment is never at fault. Another is, by its code:
/// where it holds the token, imports the name, or calls the bare name in a file
/// that imports it.
pub proof fn law_lines_are_at_fault_by_their_code(
    line: Seq<char>,
    token: Seq<char>,
    imported: bool,
)
    ensures
        ({
            let shown = trim_start(line, CharClass::White);
            let code = code_of(line);
            let prose = has_prefix(shown, "//"@) || has_prefix(shown, "/*"@) || has_prefix(
                shown,
                "*"@,
            );
            let asks = exists|i: int| #[trigger] word_at(code, i, token);
            let t = trim_start(code, CharClass::White);
            let imports = has_prefix(t, "use "@) && (exists|i: int| #[trigger]
                word_at(t, i, "std::env::"@)) && (exists|i: int| #[trigger]
                word_at(t, i, "temp_dir"@));
            let calls = imported && exists|i: int| #[trigger] is_bare_call(code, i);
            &&& prose ==> offence(line, token, imported) is None
            &&& !prose && asks ==> offence(line, token, imported) == Some(
                "asks for the system temp dir"@,
            )
            &&& !prose && !asks && imports ==> offence(line, token, imported) == Some(
                "imports temp_dir from std::env"@,
            )
            &&& !prose && !asks && !imports && calls ==> offence(line, token, imported) == Some(
                "calls the bare temp_dir() this file imports"@,
            )
            &&& !prose && !asks && !imports && !calls ==> offence(line, token, imported) is None
        }),
{
    let code = code_of(line);
    let t = trim_start(code, CharClass::White);
    lemma_mentions(code, token);
    lemma_mentions(t, "std::env::"@);
    lemma_mentions(t, "temp_dir"@);
    law_bare_calls_are_found_anywhere(code);
}

proof fn lemma_mentions(text: Seq<char>, word: Seq<char>)
    ensures
        mentions(text, word) <==> exists|i: int| #[trigger] word_at(text, i, word),
{
    lemma_find_word(text, word, 0);
}

/// Each line is judged on its own: what it adds to the report is its own fault,
/// with its number counted from one, where no allowed site covers it.
pub proof fn law_each_fault_is_reported_once(
    site_file: Seq<char>,
    lines: Seq<Seq<char>>,
    token: Seq<char>,
    allow: Seq<AllowedSite>,
    k: int,
)
    requires
        0 <= k < lines.len(),
    ensures
        violations(site_file, lines, token, allow, 0).len() == 0,
        ({
            let before = violations(site_file, lines, token, allow, k);
            let after = violations(site_file, lines, token, allow, k + 1);
            let fault = offence(lines[k], token, file_imports(lines));
            let covered = exists|s: int| #[trigger] covers(allow, site_file, code_of(lines[k]), s);
            &&& fault is None || covered ==> after == before
            &&& fault is Some && !covered ==> after == before.push(
                site_file + ":"@ + decimal((k + 1) as nat) + " — "@ + fault->0,
            )
        }),
{
    lemma_slot(allow, site_file, code_of(lines[k]), 0);
}

/// An allowed site covers a line of its own file that holds its snippet.
pub open spec fn covers(
    allow: Seq<AllowedSite>,
    site_file: Seq<char>,
    code: Seq<char>,
    s: int,
) -> bool {
    &&& 0 <= s < allow.len()
    &&& allow[s].file@ == site_file
    &&& mentions(code, allow[s].snippet@)
}

proof fn lemma_slot(allow: Seq<AllowedSite>, site_file: Seq<char>, code: Seq<char>, from: int)
    requires
        0 <= from <= allow.len(),
    ensures
        allowed_slot(allow, site_file, code, from) matches Some(s) ==> covers(
            allow,
            site_file,
            code,
            s,
        ) && from <= s && forall|t: int| from <= t < s ==> !#[trigger] covers(
            allow,
            site_file,
            code,
            t,
        ),
        allowed_slot(allow, site_file, code, from) is None ==> forall|t: int|
            from <= t ==> !#[trigger] covers(allow, site_file, code, t),
    decreases allow.len() - from,
{
    if from < allow.len() && !covers(allow, site_file, code, from) {
        lemma_slot(allow, site_file, code, from + 1);
    }
}

/// A fault that is allowed marks the first site that covers it as used, and
/// nothing else marks any.
pub proof fn law_allowed_sites_are_marked_by_use(
    site_file: Seq<char>,
    lines: Seq<Seq<char>>,
    token: Seq<char>,
    allow: Seq<AllowedSite>,
    used: Seq<bool>,
    k: int,
    s: int,
)
    requires
        0 <= k < lines.len(),
    ensures
        used_sites(site_file, lines, token, allow, used, 0) == used,
        ({
            let before = used_sites(site_file, lines, token, allow, used, k);
            let after = used_sites(site_file, lines, token, allow, used, k + 1);
            let code = code_of(lines[k]);
            let fault = offence(lines[k], token, file_imports(lines));
            &&& fault is Some && covers(allow, site_file, code, s) && (forall|t: int|
                0 <= t < s ==> !#[trigger] covers(allow, site_file, code, t)) ==> after
                == before.update(s, true)
            &&& fault is None || (forall|t: int| !#[trigger] covers(allow, site_file, code, t))
                ==> after == before
        }),
{
    lemma_slot(allow, site_file, code_of(lines[k]), 0);
}

/// A file imports the name where a line that does not begin like a comment does.
pub proof fn law_imports_count_outside_comments(lines: Seq<Seq<char>>, k: int)
    ensures
        0 <= k < lines.len() && !is_prose(trim_start(lines[k], CharClass::White))
            && imports_temp_dir(code_of(lines[k])) ==> file_imports(lines),
        (forall|i: int|
            0 <= i < lines.len() ==> is_prose(trim_start(#[trigger] lines[i], CharClass::White))
                || !imports_temp_dir(code_of(lines[i]))) ==> !file_imports(lines),
{
}

/// A text's lines are its parts between line feeds; a part that a line feed ends
/// loses one carriage return at its end, and an empty last part is no line.
pub proof fn law_lines_end_at_line_feeds(parts: Seq<Seq<char>>, k: int)
    requires
        parts.len() > 0,
        forall|j: int, i: int|
            0 <= j < parts.len() && 0 <= i < parts[j].len() ==> #[trigger] parts[j][i] != '\n',
    ensures
        ({
            let lines = lines_of(join(parts, "\n"@));
            let last = parts.len() - 1;
            &&& lines.len() == if parts[last].len() > 0 {
                parts.len() as int
            } else {
                last
            }
            &&& parts[last].len() > 0 ==> lines[last] == parts[last]
            &&& 0 <= k < last && parts[k].len() > 0 && parts[k].last() == '\r' ==> lines[k]
                == parts[k].drop_last()
            &&& 0 <= k < last && (parts[k].len() == 0 || parts[k].last() != '\r') ==> lines[k]
                == parts[k]
        }),
{
    reveal_strlit("\n");
    assert("\n"@ =~= seq!['\n']);
    law_joined_parts_are_split_again(parts, '\n');
}

} // verus!
