//! Shell-wrapper unwrapping for command titles.
//!
//! A provider reports the command it runs as the wrapper it runs it through
//! (`bash -lc "ls"`, `pwsh.exe -Command ls`). A title shows the payload only.
//! Two anchored patterns decide what a wrapper is; whitespace is JavaScript's
//! `\s` throughout:
//!
//! - Unix: `^(?:(?:\/[^/\s]+)*\/)?(?:zsh|bash|sh)\s+-(?:lc|c)\s+([\s\S]+)$`
//! - Windows, ASCII case aside:
//!   `^(?:"[^"]*\\)?(?:pwsh|powershell|cmd)(?:\.exe)?"?(?:\s+-[A-Za-z]+(?:\s+[^-\s][^\s]*)?)*\s+(?:-Command|-c|\/c)\s+([\s\S]+)$`
//!
//! The payload is the raw remainder after the flag, never split and put
//! together again, so the whitespace inside it survives.
use crate::json::{json_items, json_str, json_texts};
use crate::text::{
    ascii_lower, belongs, chars_of, in_class, int_ranges, is_js_space_char, is_word_at, join, joined,
    law_joining_keeps_every_part, lemma_run_end, lemma_run_end_is,
    lemma_trim, lemma_trim_idempotent, lemma_trimmed_stays, is_letter, lemma_word_ranges, part_offset,
    lower_chars, owned, position, ranges_inside, ranges_text, run_end, skip_run, spells,
    spells_ignoring_case, split_words, text_of, trim, trimmed, word_at, word_ranges, words_of, CharClass,
};
use crate::wire::text_view;
use vstd::prelude::*;
use vstd::slice::slice_subrange;

verus! {

/// `s` without one pair of matching edge quotes. A lone quote is its own pair.
pub open spec fn without_edge_quotes(s: Seq<char>) -> Seq<char> {
    if s.len() > 0 && s[0] == s.last() && (s[0] == '"' || s[0] == '\'') {
        if s.len() == 1 {
            Seq::empty()
        } else {
            s.subrange(1, s.len() - 1)
        }
    } else {
        s
    }
}

/// The end of the Unix shell's name at `i`.
pub open spec fn unix_name(s: Seq<char>, i: int) -> Option<int> {
    if word_at(s, i, "zsh"@) {
        Some(i + 3)
    } else if word_at(s, i, "bash"@) {
        Some(i + 4)
    } else if word_at(s, i, "sh"@) {
        Some(i + 2)
    } else {
        None
    }
}

/// The end of the Unix command flag at `i`.
pub open spec fn unix_flag(s: Seq<char>, i: int) -> Option<int> {
    if word_at(s, i, "-lc"@) {
        Some(i + 3)
    } else if word_at(s, i, "-c"@) {
        Some(i + 2)
    } else {
        None
    }
}

/// `s` up to `i` reads as `(?:(?:\/[^/\s]+)*\/)?`: nothing, or slashes with a
/// non-empty segment between each two of them, the first and the last
/// character being a slash.
pub open spec fn unix_prefix(s: Seq<char>, i: int) -> bool {
    i == 0 || {
        &&& 0 < i <= s.len()
        &&& s[0] == '/'
        &&& s[i - 1] == '/'
        &&& forall|j: int| 0 <= j < i ==> !is_js_space_char(#[trigger] s[j])
        &&& forall|j: int| 0 <= j < i - 1 ==> !(#[trigger] s[j] == '/' && s[j + 1] == '/')
    }
}

/// Where the payload starts when the shell's name starts at `i`.
pub open spec fn unix_payload_from(s: Seq<char>, i: int) -> Option<int> {
    match unix_name(s, i) {
        None => None,
        Some(e) => {
            let w = run_end(s, CharClass::JsSpace, e);
            match unix_flag(s, w) {
                None => None,
                Some(f) => {
                    let p = run_end(s, CharClass::JsSpace, f);
                    if w == e || p == f || p >= s.len() {
                        None
                    } else {
                        Some(p)
                    }
                },
            }
        },
    }
}

/// Where the payload of a Unix wrapper starts, the longest prefix up to `i`
/// being preferred.
pub open spec fn unix_payload(s: Seq<char>, i: int) -> Option<int>
    decreases i + 1,
{
    if i < 0 {
        None
    } else if unix_prefix(s, i) && unix_payload_from(s, i) is Some {
        unix_payload_from(s, i)
    } else {
        unix_payload(s, i - 1)
    }
}

/// The names of the Windows shells, in lower case.
pub open spec fn is_windows_name(w: Seq<char>) -> bool {
    ||| w == "pwsh"@
    ||| w == "powershell"@
    ||| w == "cmd"@
    ||| w == "pwsh.exe"@
    ||| w == "powershell.exe"@
    ||| w == "cmd.exe"@
}

/// `s` up to `a` reads as `(?:"[^"]*\\)?`.
pub open spec fn windows_prefix(s: Seq<char>, a: int) -> bool {
    a == 0 || {
        &&& 2 <= a <= s.len()
        &&& s[0] == '"'
        &&& s[a - 1] == '\\'
        &&& forall|j: int| 1 <= j < a ==> #[trigger] s[j] != '"'
    }
}

/// A Windows shell's name starts at `a` and ends at `n`.
pub open spec fn windows_name_at(s: Seq<char>, a: int, n: int) -> bool {
    0 <= a <= n <= s.len() && windows_prefix(s, a) && is_windows_name(ascii_lower(s.subrange(a, n)))
}

pub open spec fn windows_name_ends(s: Seq<char>, n: int) -> bool {
    exists|a: int| windows_name_at(s, a, n)
}

/// The interpreter, a closing quote behind its name counted in, ends at `e`.
pub open spec fn interpreter_end(s: Seq<char>, e: int) -> bool {
    windows_name_ends(s, e) || (0 < e <= s.len() && s[e - 1] == '"' && windows_name_ends(s, e - 1))
}

/// `-Command`, `-c` and `/c`, ASCII case aside.
pub open spec fn cmd_flag(token: Seq<char>) -> bool {
    ||| ascii_lower(token) == "-command"@
    ||| ascii_lower(token) == "-c"@
    ||| ascii_lower(token) == "/c"@
}

/// `-[A-Za-z]+`, as a whole token.
pub open spec fn option_token(token: Seq<char>) -> bool {
    &&& token.len() >= 2
    &&& token[0] == '-'
    &&& forall|i: int| 1 <= i < token.len() ==> is_letter(#[trigger] token[i])
}

/// `[^-\s][^\s]*`, of a token.
pub open spec fn value_token(token: Seq<char>) -> bool {
    token.len() > 0 && token[0] != '-'
}

/// The tokens read as options, each with at most one value behind it.
pub open spec fn option_run(tokens: Seq<Seq<char>>) -> bool
    decreases tokens.len(),
{
    tokens.len() == 0 || (option_token(tokens[0]) && (option_run(tokens.skip(1)) || (tokens.len()
        >= 2 && value_token(tokens[1]) && option_run(tokens.skip(2)))))
}

/// Token `i` is a command flag with something behind it and an option run
/// before it.
pub open spec fn viable_flag(s: Seq<char>, ranges: Seq<(int, int)>, i: int) -> bool {
    &&& 0 <= i
    &&& i + 1 < ranges.len()
    &&& cmd_flag(s.subrange(ranges[i].0, ranges[i].1))
    &&& option_run(ranges_text(s, ranges.take(i)))
}

/// Where the token behind the rightmost viable flag before token `i` starts.
pub open spec fn flag_payload(s: Seq<char>, ranges: Seq<(int, int)>, i: int) -> Option<int>
    decreases i,
{
    if i <= 0 {
        None
    } else if viable_flag(s, ranges, i - 1) {
        Some(ranges[i].0)
    } else {
        flag_payload(s, ranges, i - 1)
    }
}

/// Where the payload starts when the interpreter ends at `from`.
pub open spec fn payload_from(s: Seq<char>, from: int) -> Option<int> {
    if run_end(s, CharClass::JsSpace, from) == from {
        None
    } else {
        let ranges = word_ranges(s, CharClass::JsSpace, from);
        flag_payload(s, ranges, ranges.len() as int)
    }
}

/// Where the payload of a Windows wrapper starts, the rightmost interpreter
/// end up to `e` being preferred.
pub open spec fn windows_payload(s: Seq<char>, e: int) -> Option<int>
    decreases e,
{
    if e <= 0 {
        None
    } else if interpreter_end(s, e) && payload_from(s, e) is Some {
        payload_from(s, e)
    } else {
        windows_payload(s, e - 1)
    }
}

/// Where the payload of a wrapper starts; the Unix pattern is tried first.
pub open spec fn wrapper_payload(s: Seq<char>) -> Option<int> {
    if unix_payload(s, s.len() as int) is Some {
        unix_payload(s, s.len() as int)
    } else {
        windows_payload(s, s.len() as int)
    }
}

/// The command that a title shows: the payload of a wrapper without one pair
/// of edge quotes, or the trimmed input when it is no wrapper.
pub open spec fn unwrapped(command: Seq<char>) -> Seq<char> {
    let t = trim(command, CharClass::JsSpace);
    match wrapper_payload(t) {
        Some(p) => without_edge_quotes(trim(t.skip(p), CharClass::JsSpace)),
        None => t,
    }
}

/// JavaScript's `\s`.
pub fn is_js_space(c: char) -> (r: bool)
    ensures
        r == is_js_space_char(c),
{
    in_class(CharClass::JsSpace, c)
}

/// JavaScript's `String.prototype.trim`.
pub fn js_trim(s: &[char]) -> (r: &[char])
    ensures
        r@ == trim(s@, CharClass::JsSpace),
{
    trimmed(s, CharClass::JsSpace)
}

/// Strips one pair of matching edge quotes; edges that do not match stay.
pub fn strip_matching_edge_quotes(value: &[char]) -> (r: &[char])
    ensures
        r@ == without_edge_quotes(value@),
{
    let n: usize = value.len();
    if n > 0 && value[0] == value[n - 1] && (value[0] == '"' || value[0] == '\'') {
        if n == 1 {
            let r = slice_subrange(value, 0, 0);
            assert(r@ =~= Seq::<char>::empty());
            r
        } else {
            slice_subrange(value, 1, n - 1)
        }
    } else {
        value
    }
}

/// The position just past the whitespace run that starts at `i`.
fn skip_js_space(s: &[char], i: usize) -> (end: usize)
    requires
        i <= s@.len(),
    ensures
        end == run_end(s@, CharClass::JsSpace, i as int),
        i <= end <= s@.len(),
{
    skip_run(s, CharClass::JsSpace, i)
}

fn unix_name_end(s: &[char], i: usize) -> (r: Option<usize>)
    requires
        i <= s@.len(),
    ensures
        position(r) == unix_name(s@, i as int),
        r matches Some(e) ==> i < e <= s@.len(),
{
    proof {
        reveal_strlit("zsh");
        reveal_strlit("bash");
        reveal_strlit("sh");
    }
    if is_word_at(s, i, "zsh") {
        Some(i + 3)
    } else if is_word_at(s, i, "bash") {
        Some(i + 4)
    } else if is_word_at(s, i, "sh") {
        Some(i + 2)
    } else {
        None
    }
}

fn unix_flag_end(s: &[char], i: usize) -> (r: Option<usize>)
    requires
        i <= s@.len(),
    ensures
        position(r) == unix_flag(s@, i as int),
        r matches Some(e) ==> i < e <= s@.len(),
{
    proof {
        reveal_strlit("-lc");
        reveal_strlit("-c");
    }
    if is_word_at(s, i, "-lc") {
        Some(i + 3)
    } else if is_word_at(s, i, "-c") {
        Some(i + 2)
    } else {
        None
    }
}

fn is_unix_prefix(s: &[char], i: usize) -> (r: bool)
    requires
        i <= s@.len(),
    ensures
        r == unix_prefix(s@, i as int),
{
    if i == 0 {
        return true;
    }
    if s[0] != '/' || s[i - 1] != '/' {
        return false;
    }
    let mut j: usize = 0;
    while j < i
        invariant
            j <= i <= s@.len(),
            0 < i,
            forall|k: int| 0 <= k < j ==> !is_js_space_char(#[trigger] s@[k]),
            forall|k: int| 0 <= k < j && k < i - 1 ==> !(#[trigger] s@[k] == '/' && s@[k + 1] == '/'),
        decreases i - j,
    {
        if is_js_space(s[j]) {
            return false;
        }
        if j + 1 < i && s[j] == '/' && s[j + 1] == '/' {
            return false;
        }
        j = j + 1;
    }
    true
}

/// The start of a Unix wrapper's payload, the shell's name being at `i`.
fn unix_payload_after(s: &[char], i: usize) -> (r: Option<usize>)
    requires
        i <= s@.len(),
    ensures
        position(r) == unix_payload_from(s@, i as int),
        r matches Some(p) ==> p < s@.len(),
{
    if let Some(e) = unix_name_end(s, i) {
        let w: usize = skip_js_space(s, e);
        if let Some(f) = unix_flag_end(s, w) {
            let p: usize = skip_js_space(s, f);
            if w == e || p == f || p >= s.len() {
                return None;
            }
            return Some(p);
        }
    }
    None
}

/// Where the payload of a Unix wrapper starts.
pub fn match_unix(s: &[char]) -> (r: Option<usize>)
    ensures
        position(r) == unix_payload(s@, s@.len() as int),
        r matches Some(p) ==> p < s@.len(),
{
    let mut i: usize = s.len();
    loop
        invariant
            i <= s@.len(),
            unix_payload(s@, s@.len() as int) == unix_payload(s@, i as int),
        decreases i,
    {
        if let Some(p) = unix_payload_after(s, i) {
            if is_unix_prefix(s, i) {
                return Some(p);
            }
        }
        if i == 0 {
            assert(unix_payload(s@, -1) is None);
            return None;
        }
        i = i - 1;
    }
}

/// `-Command`, `-c` or `/c`, ASCII case aside.
pub fn is_cmd_flag(token: &[char]) -> (r: bool)
    ensures
        r == cmd_flag(token@),
{
    let l = lower_chars(token);
    spells(l.as_slice(), "-command") || spells(l.as_slice(), "-c") || spells(l.as_slice(), "/c")
}

fn is_option_token(token: &[char]) -> (r: bool)
    ensures
        r == option_token(token@),
{
    if token.len() < 2 || token[0] != '-' {
        return false;
    }
    let mut i: usize = 1;
    while i < token.len()
        invariant
            1 <= i <= token@.len(),
            forall|k: int| 1 <= k < i ==> is_letter(#[trigger] token@[k]),
        decreases token@.len() - i,
    {
        let c = token[i];
        if !(('a' <= c && c <= 'z') || ('A' <= c && c <= 'Z')) {
            return false;
        }
        i = i + 1;
    }
    true
}

/// Whether the tokens read as options, each with at most one value. A value
/// never looks like an option, so there is one way to read them.
fn parses_as_option_run(s: &[char], toks: &[(usize, usize)]) -> (r: bool)
    requires
        ranges_inside(s@, toks@),
    ensures
        r == option_run(ranges_text(s@, int_ranges(toks@))),
{
    let ghost all = ranges_text(s@, int_ranges(toks@));
    let mut k: usize = 0;
    assert(all.skip(0) =~= all);
    while k < toks.len()
        invariant
            k <= toks@.len(),
            all == ranges_text(s@, int_ranges(toks@)),
            ranges_inside(s@, toks@),
            option_run(all) == option_run(all.skip(k as int)),
        decreases toks@.len() - k,
    {
        let ghost rest = all.skip(k as int);
        assert(rest.skip(1) =~= all.skip(k + 1));
        let first = slice_subrange(s, toks[k].0, toks[k].1);
        assert(first@ == rest[0]);
        if !is_option_token(first) {
            return false;
        }
        if k + 1 < toks.len() {
            let second = slice_subrange(s, toks[k + 1].0, toks[k + 1].1);
            assert(second@ == rest[1]);
            if second[0] != '-' {
                assert(rest.skip(2) =~= all.skip(k + 2));
                assert(all.skip(k + 1)[0] == second@);
                assert(!option_run(all.skip(k + 1)));
                k = k + 2;
                continue ;
            }
        }
        k = k + 1;
    }
    assert(all.skip(k as int).len() == 0);
    true
}

/// Where the payload starts, given the interpreter's end: behind the rightmost
/// viable flag.
fn find_payload_start(s: &[char], from: usize) -> (r: Option<usize>)
    requires
        from <= s@.len(),
    ensures
        position(r) == payload_from(s@, from as int),
        r matches Some(p) ==> p <= s@.len(),
{
    if skip_js_space(s, from) == from {
        return None;
    }
    let toks = split_words(s, CharClass::JsSpace, from);
    let ghost ranges = int_ranges(toks@);
    let mut i: usize = toks.len();
    while i > 0
        invariant
            i <= toks@.len(),
            ranges == int_ranges(toks@),
            ranges == word_ranges(s@, CharClass::JsSpace, from as int),
            run_end(s@, CharClass::JsSpace, from as int) != from,
            ranges_inside(s@, toks@),
            flag_payload(s@, ranges, ranges.len() as int) == flag_payload(s@, ranges, i as int),
        decreases i,
    {
        if i < toks.len() {
            let before = slice_subrange(toks.as_slice(), 0, i - 1);
            assert(ranges_inside(s@, before@)) by {
                assert forall|k: int| 0 <= k < before@.len() implies (#[trigger] before@[k]).0
                    < before@[k].1 <= s@.len() by {
                    assert(before@[k] == toks@[k]);
                }
            }
            assert(int_ranges(before@) =~= ranges.take(i - 1));
            let flag = slice_subrange(s, toks[i - 1].0, toks[i - 1].1);
            assert(ranges[i - 1] == (toks@[i - 1].0 as int, toks@[i - 1].1 as int));
            assert(ranges[i as int].0 == toks@[i as int].0);
            if is_cmd_flag(flag) && parses_as_option_run(s, before) {
                return Some(toks[i].0);
            }
        }
        i = i - 1;
    }
    None
}

fn is_windows_prefix(s: &[char], a: usize) -> (r: bool)
    requires
        a <= s@.len(),
    ensures
        r == windows_prefix(s@, a as int),
{
    if a == 0 {
        return true;
    }
    if a < 2 || s[0] != '"' || s[a - 1] != '\\' {
        return false;
    }
    let mut j: usize = 1;
    while j < a
        invariant
            1 <= j <= a <= s@.len(),
            forall|k: int| 1 <= k < j ==> #[trigger] s@[k] != '"',
        decreases a - j,
    {
        if s[j] == '"' {
            return false;
        }
        j = j + 1;
    }
    true
}

/// Whether the shell's name `word`, in lower case, ends at `n` behind a
/// possible quoted path.
fn named_at(s: &[char], n: usize, word: &str) -> (r: bool)
    requires
        n <= s@.len(),
    ensures
        r == (word@.len() <= n && windows_prefix(s@, n - word@.len()) && ascii_lower(
            s@.subrange(n - word@.len(), n as int),
        ) == word@),
{
    let w = chars_of(word);
    if w.len() > n {
        return false;
    }
    let a: usize = n - w.len();
    spells_ignoring_case(slice_subrange(s, a, n), word) && is_windows_prefix(s, a)
}

fn windows_name_ends_at(s: &[char], n: usize) -> (r: bool)
    requires
        n <= s@.len(),
    ensures
        r == windows_name_ends(s@, n as int),
{
    let r = named_at(s, n, "pwsh") || named_at(s, n, "powershell") || named_at(s, n, "cmd")
        || named_at(s, n, "pwsh.exe") || named_at(s, n, "powershell.exe") || named_at(
        s,
        n,
        "cmd.exe",
    );
    proof {
        if r {
            let a = if named(s@, n as int, "pwsh"@) {
                n - "pwsh"@.len()
            } else if named(s@, n as int, "powershell"@) {
                n - "powershell"@.len()
            } else if named(s@, n as int, "cmd"@) {
                n - "cmd"@.len()
            } else if named(s@, n as int, "pwsh.exe"@) {
                n - "pwsh.exe"@.len()
            } else if named(s@, n as int, "powershell.exe"@) {
                n - "powershell.exe"@.len()
            } else {
                n - "cmd.exe"@.len()
            };
            assert(windows_name_at(s@, a, n as int));
        }
        if windows_name_ends(s@, n as int) {
            let a = choose|a: int| windows_name_at(s@, a, n as int);
            assert(ascii_lower(s@.subrange(a, n as int)).len() == n - a);
        }
    }
    r
}

spec fn named(s: Seq<char>, n: int, word: Seq<char>) -> bool {
    word.len() <= n && windows_prefix(s, n - word.len()) && ascii_lower(
        s.subrange(n - word.len(), n),
    ) == word
}

/// Whether the interpreter ends at `e`.
pub fn interpreter_ends(s: &[char], e: usize) -> (r: bool)
    requires
        e <= s@.len(),
    ensures
        r == interpreter_end(s@, e as int),
{
    windows_name_ends_at(s, e) || (e > 0 && s[e - 1] == '"' && windows_name_ends_at(s, e - 1))
}

/// Where the payload of a Windows wrapper starts.
pub fn match_windows(s: &[char]) -> (r: Option<usize>)
    ensures
        position(r) == windows_payload(s@, s@.len() as int),
        r matches Some(p) ==> p <= s@.len(),
{
    let mut e: usize = s.len();
    while e > 0
        invariant
            e <= s@.len(),
            windows_payload(s@, s@.len() as int) == windows_payload(s@, e as int),
        decreases e,
    {
        if e < s.len() && is_js_space(s[e]) && interpreter_ends(s, e) {
            if let Some(p) = find_payload_start(s, e) {
                return Some(p);
            }
        }
        e = e - 1;
    }
    None
}

/// The payload of a shell wrapper, or the trimmed input when it is not one.
pub fn unwrap_shell_command(command: &str) -> (r: String)
    ensures
        r@ == unwrapped(command@),
{
    let chars = chars_of(command);
    let t = js_trim(chars.as_slice());
    let mut payload = match_unix(t);
    if payload.is_none() {
        payload = match_windows(t);
    }
    match payload {
        Some(p) => {
            let rest = slice_subrange(t, p, t.len());
            assert(rest@ =~= t@.skip(p as int));
            text_of(strip_matching_edge_quotes(js_trim(rest)))
        },
        None => text_of(t),
    }
}

/// `isWindowsShellCommand`: one leading and one trailing quote of either kind
/// aside, the part behind the last backslash is a Windows shell's name.
pub open spec fn windows_shell(command: Seq<char>) -> bool {
    let v = if command.len() > 0 && (command[0] == '"' || command[0] == '\'') {
        command.skip(1)
    } else {
        command
    };
    let w = if v.len() > 0 && (v.last() == '"' || v.last() == '\'') {
        v.drop_last()
    } else {
        v
    };
    is_windows_name(ascii_lower(after_last_backslash(w)))
}

/// What stands behind the last backslash; everything where there is none.
pub open spec fn after_last_backslash(s: Seq<char>) -> Seq<char>
    decreases s.len(),
{
    if s.len() == 0 || s.last() == '\\' {
        Seq::empty()
    } else {
        after_last_backslash(s.drop_last()).push(s.last())
    }
}

fn base_after_backslash(s: &[char]) -> (r: &[char])
    ensures
        r@ == after_last_backslash(s@),
{
    let mut i: usize = s.len();
    assert(s@.take(i as int) =~= s@);
    assert(after_last_backslash(s@) =~= after_last_backslash(s@.take(i as int)) + s@.skip(
        i as int,
    ));
    while i > 0 && s[i - 1] != '\\'
        invariant
            i <= s@.len(),
            after_last_backslash(s@) == after_last_backslash(s@.take(i as int)) + s@.skip(i as int),
        decreases i,
    {
        let ghost t = s@.take(i as int);
        assert(t.drop_last() =~= s@.take(i - 1));
        assert(after_last_backslash(t) =~= after_last_backslash(s@.take(i - 1)).push(s@[i - 1]));
        assert(s@.skip(i - 1) =~= seq![s@[i - 1]] + s@.skip(i as int));
        i = i - 1;
        assert(after_last_backslash(s@) =~= after_last_backslash(s@.take(i as int)) + s@.skip(
            i as int,
        ));
    }
    let r = slice_subrange(s, i, s.len());
    assert(after_last_backslash(s@.take(i as int)) =~= Seq::<char>::empty());
    assert(r@ =~= after_last_backslash(s@));
    r
}

pub fn is_windows_shell_command(command: &[char]) -> (r: bool)
    ensures
        r == windows_shell(command@),
{
    let mut v = command;
    if v.len() > 0 && (v[0] == '"' || v[0] == '\'') {
        v = slice_subrange(v, 1, v.len());
        assert(v@ =~= command@.skip(1));
    }
    let ghost w = v@;
    if v.len() > 0 && (v[v.len() - 1] == '"' || v[v.len() - 1] == '\'') {
        v = slice_subrange(v, 0, v.len() - 1);
        assert(v@ =~= w.drop_last());
    }
    let base = lower_chars(base_after_backslash(v));
    spells(base.as_slice(), "pwsh") || spells(base.as_slice(), "powershell") || spells(
        base.as_slice(),
        "cmd",
    ) || spells(base.as_slice(), "pwsh.exe") || spells(base.as_slice(), "powershell.exe") || spells(
        base.as_slice(),
        "cmd.exe",
    )
}

/// The trimmed texts that are not empty, in their order.
pub open spec fn kept_parts(texts: Seq<Seq<char>>) -> Seq<Seq<char>>
    decreases texts.len(),
{
    if texts.len() == 0 {
        Seq::empty()
    } else {
        let t = trim(texts.last(), CharClass::JsSpace);
        if t.len() == 0 {
            kept_parts(texts.drop_last())
        } else {
            kept_parts(texts.drop_last()).push(t)
        }
    }
}

/// `text`, or nothing where it is empty.
pub open spec fn unless_empty(text: Seq<char>) -> Option<Seq<char>> {
    if text.len() == 0 {
        None
    } else {
        Some(text)
    }
}

/// The title of a command given as a list of words.
pub open spec fn normalized_parts(parts: Seq<Seq<char>>) -> Option<Seq<char>> {
    if parts.len() == 0 {
        None
    } else if parts.len() >= 3 && (parts[1] == "-lc"@ || parts[1] == "-c"@) {
        unless_empty(trim(parts[2], CharClass::JsSpace))
    } else if parts.len() >= 3 && windows_shell(parts[0]) && cmd_flag(parts[1]) {
        let payload = trim(join(parts.skip(2), " "@), CharClass::JsSpace);
        if payload.len() == 0 {
            None
        } else {
            Some(without_edge_quotes(payload))
        }
    } else {
        Some(join(parts, " "@))
    }
}

/// The title of a command given as JSON: a string is unwrapped, an array is
/// read as a list of words, and nothing else is a command.
pub open spec fn normalized_command(value: serde_json::Value) -> Option<Seq<char>> {
    match json_str(value) {
        Some(command) => unless_empty(unwrapped(command)),
        None => match json_items(value) {
            Some(items) => normalized_parts(kept_parts(json_texts(items))),
            None => None,
        },
    }
}

/// The title of a command given as one string.
pub fn normalize_command_text(command: &str) -> (r: Option<String>)
    ensures
        text_view(r) == unless_empty(unwrapped(command@)),
{
    let normalized = unwrap_shell_command(command);
    if normalized.as_str().is_empty() {
        None
    } else {
        Some(normalized)
    }
}

/// The title of a command given as a list of trimmed words. A Unix shell's
/// array is known by its flag alone, and its payload keeps its quotes.
pub fn normalize_command_parts(parts: &[Vec<char>]) -> (r: Option<String>)
    ensures
        text_view(r) == normalized_parts(words_of(parts@)),
{
    let ghost words = words_of(parts@);
    if parts.len() == 0 {
        return None;
    }
    if parts.len() >= 3 {
        if spells(parts[1].as_slice(), "-lc") || spells(parts[1].as_slice(), "-c") {
            let payload = js_trim(parts[2].as_slice());
            if payload.len() == 0 {
                return None;
            }
            return Some(text_of(payload));
        }
        if is_windows_shell_command(parts[0].as_slice()) && is_cmd_flag(parts[1].as_slice()) {
            let rest = slice_subrange(parts, 2, parts.len());
            assert(words_of(rest@) =~= words.skip(2));
            let whole = joined(rest, " ");
            let payload = js_trim(whole.as_slice());
            if payload.len() == 0 {
                return None;
            }
            return Some(text_of(strip_matching_edge_quotes(payload)));
        }
    }
    let whole = joined(parts, " ");
    Some(text_of(whole.as_slice()))
}

/// The title of a command execution, from the value that a provider sent.
pub fn normalize_command_execution_command(value: &serde_json::Value) -> (r: Option<String>)
    ensures
        text_view(r) == normalized_command(*value),
{
    if let Some(command) = value.as_str() {
        return normalize_command_text(command);
    }
    match value.as_array() {
        None => None,
        Some(array) => {
            let mut parts: Vec<Vec<char>> = Vec::new();
            let mut i: usize = 0;
            assert(words_of(parts@) =~= kept_parts(json_texts(array@.take(0))));
            while i < array.len()
                invariant
                    i <= array@.len(),
                    words_of(parts@) == kept_parts(json_texts(array@.take(i as int))),
                decreases array@.len() - i,
            {
                assert(array@.take(i + 1).drop_last() =~= array@.take(i as int));
                let ghost before = json_texts(array@.take(i as int));
                if let Some(text) = array[i].as_str() {
                    let chars = chars_of(text);
                    let part = js_trim(chars.as_slice());
                    assert(before.push(text@).drop_last() =~= before);
                    if part.len() > 0 {
                        parts.push(owned(part));
                        assert(words_of(parts@) =~= kept_parts(before).push(part@));
                    }
                }
                i = i + 1;
            }
            assert(array@.take(i as int) =~= array@);
            normalize_command_parts(parts.as_slice())
        },
    }
}

/// `s` splits at `i`, `e`, `w`, `f` and `p` into the parts of the Unix
/// pattern: prefix, name, whitespace, flag, whitespace, payload.
pub open spec fn unix_split(s: Seq<char>, i: int, e: int, w: int, f: int, p: int) -> bool {
    &&& 0 <= i < e < w < f < p < s.len()
    &&& unix_prefix(s, i)
    &&& (s.subrange(i, e) == "zsh"@ || s.subrange(i, e) == "bash"@ || s.subrange(i, e) == "sh"@)
    &&& forall|j: int| e <= j < w ==> is_js_space_char(#[trigger] s[j])
    &&& (s.subrange(w, f) == "-lc"@ || s.subrange(w, f) == "-c"@)
    &&& forall|j: int| f <= j < p ==> is_js_space_char(#[trigger] s[j])
    &&& !is_js_space_char(s[p])
}

/// The Unix pattern finds a payload exactly where the text splits into its
/// parts, and there is one place at most where it does.
pub proof fn law_unix_pattern(s: Seq<char>, p: int)
    ensures
        unix_payload(s, s.len() as int) == Some(p) <==> exists|i: int, e: int, w: int, f: int|
            unix_split(s, i, e, w, f, p),
{
    if unix_payload(s, s.len() as int) == Some(p) {
        lemma_unix_payload_splits(s, s.len() as int, p);
    }
    if exists|i: int, e: int, w: int, f: int| unix_split(s, i, e, w, f, p) {
        let (i, e, w, f) = choose|i: int, e: int, w: int, f: int| unix_split(s, i, e, w, f, p);
        lemma_unix_split_found(s, i, e, w, f, p);
        lemma_unix_later_prefix(s, i, e, w, f, p, s.len() as int);
    }
}

proof fn lemma_unix_payload_splits(s: Seq<char>, k: int, p: int)
    requires
        k <= s.len(),
        unix_payload(s, k) == Some(p),
    ensures
        exists|i: int, e: int, w: int, f: int| unix_split(s, i, e, w, f, p),
    decreases k + 1,
{
    if k >= 0 {
        if unix_prefix(s, k) && unix_payload_from(s, k) is Some {
            reveal_strlit("zsh");
            reveal_strlit("bash");
            reveal_strlit("sh");
            reveal_strlit("-lc");
            reveal_strlit("-c");
            let e = unix_name(s, k)->0;
            lemma_run_end(s, CharClass::JsSpace, e);
            let w = run_end(s, CharClass::JsSpace, e);
            let f = unix_flag(s, w)->0;
            lemma_run_end(s, CharClass::JsSpace, f);
            assert(unix_split(s, k, e, w, f, p));
        } else {
            lemma_unix_payload_splits(s, k - 1, p);
        }
    }
}

proof fn lemma_unix_split_found(s: Seq<char>, i: int, e: int, w: int, f: int, p: int)
    requires
        unix_split(s, i, e, w, f, p),
    ensures
        unix_payload_from(s, i) == Some(p),
{
    reveal_strlit("zsh");
    reveal_strlit("bash");
    reveal_strlit("sh");
    reveal_strlit("-lc");
    reveal_strlit("-c");
    assert(s.subrange(i, e)[0] == s[i]);
    assert(s.subrange(i, e)[1] == s[i + 1]);
    assert(unix_name(s, i) == Some(e)) by {
        if word_at(s, i, "zsh"@) {
            assert(s.subrange(i, i + 3)[0] == s[i]);
        } else if word_at(s, i, "bash"@) {
            assert(s.subrange(i, i + 4)[0] == s[i]);
        }
    }
    assert(s.subrange(w, f).len() == f - w);
    assert(s.subrange(w, f)[0] == s[w]);
    assert(s.subrange(w, f)[1] == s[w + 1]);
    lemma_run_end_is_space(s, e, w);
    assert(unix_flag(s, w) == Some(f)) by {
        if word_at(s, w, "-lc"@) {
            assert(s.subrange(w, w + 3)[1] == s[w + 1]);
        }
    }
    lemma_run_end_is_space(s, f, p);
}

proof fn lemma_run_end_is_space(s: Seq<char>, i: int, e: int)
    requires
        0 <= i <= e < s.len(),
        forall|j: int| i <= j < e ==> is_js_space_char(#[trigger] s[j]),
        !is_js_space_char(s[e]),
    ensures
        run_end(s, CharClass::JsSpace, i) == e,
{
    assert forall|j: int| i <= j < e implies belongs(CharClass::JsSpace, #[trigger] s[j]) by {
        assert(is_js_space_char(s[j]));
    }
    lemma_run_end_is(s, CharClass::JsSpace, i, e);
}

proof fn lemma_unix_later_prefix(
    s: Seq<char>,
    i: int,
    e: int,
    w: int,
    f: int,
    p: int,
    k: int,
)
    requires
        unix_split(s, i, e, w, f, p),
        unix_payload_from(s, i) == Some(p),
        i <= k <= s.len(),
    ensures
        unix_payload(s, k) == Some(p),
    decreases k - i,
{
    if k > i {
        lemma_unix_later_prefix(s, i, e, w, f, p, k - 1);
        if unix_prefix(s, k) {
            if k > e {
                assert(is_js_space_char(s[e]));
            } else {
                reveal_strlit("zsh");
                reveal_strlit("bash");
                reveal_strlit("sh");
                assert(s.subrange(i, e)[k - 1 - i] == s[k - 1]);
            }
        }
    }
}

/// A title is one stretch of the command it was made from: nothing in it is
/// put together anew.
pub proof fn law_title_is_a_stretch_of_the_command(command: Seq<char>)
    ensures
        exists|a: int, b: int|
            0 <= a <= b <= command.len() && unwrapped(command) == #[trigger] command.subrange(a, b),
{
    let class = CharClass::JsSpace;
    let t = trim(command, class);
    let (a, b) = lemma_trim(command, class);
    match wrapper_payload(t) {
        Some(p) => {
            lemma_payload_inside(t, p);
            let rest = t.skip(p);
            let (c, d) = lemma_trim(rest, class);
            let q = trim(rest, class);
            assert(q =~= command.subrange(a + p + c, a + p + d));
            let u = without_edge_quotes(q);
            if u.len() == q.len() {
                assert(u == command.subrange(a + p + c, a + p + d));
            } else if q.len() == 1 {
                assert(u =~= command.subrange(a + p + c, a + p + c));
            } else {
                assert(u =~= command.subrange(a + p + c + 1, a + p + d - 1));
            }
        },
        None => {},
    }
}

proof fn lemma_payload_inside(t: Seq<char>, p: int)
    requires
        wrapper_payload(t) == Some(p),
    ensures
        0 <= p <= t.len(),
{
    if unix_payload(t, t.len() as int) is Some {
        law_unix_pattern(t, p);
    } else {
        lemma_windows_payload_inside(t, t.len() as int, p);
    }
}

proof fn lemma_windows_payload_inside(t: Seq<char>, e: int, p: int)
    requires
        e <= t.len(),
        windows_payload(t, e) == Some(p),
    ensures
        0 <= p <= t.len(),
    decreases e,
{
    if e > 0 {
        if interpreter_end(t, e) && payload_from(t, e) is Some {
            lemma_word_ranges(t, CharClass::JsSpace, e);
            lemma_flag_payload_inside(t, word_ranges(t, CharClass::JsSpace, e), word_ranges(t, CharClass::JsSpace, e).len() as int, p);
        } else {
            lemma_windows_payload_inside(t, e - 1, p);
        }
    }
}

proof fn lemma_flag_payload_inside(t: Seq<char>, ranges: Seq<(int, int)>, i: int, p: int)
    requires
        i <= ranges.len(),
        forall|k: int| 0 <= k < ranges.len() ==> 0 <= (#[trigger] ranges[k]).0 <= t.len(),
        flag_payload(t, ranges, i) == Some(p),
    ensures
        0 <= p <= t.len(),
    decreases i,
{
    if i > 0 && !viable_flag(t, ranges, i - 1) {
        lemma_flag_payload_inside(t, ranges, i - 1, p);
    }
}

/// Whitespace around a command does not change its title.
pub proof fn law_outer_whitespace_is_ignored(command: Seq<char>)
    ensures
        unwrapped(trim(command, CharClass::JsSpace)) == unwrapped(command),
{
    lemma_trim_idempotent(command, CharClass::JsSpace);
}

/// A word that trimming leaves as it is, and that is not empty.
pub open spec fn is_trimmed_word(w: Seq<char>) -> bool {
    w.len() > 0 && !is_js_space_char(w[0]) && !is_js_space_char(w.last())
}

/// The words of an array are trimmed one by one and kept in their order; a blank
/// one is left out.
pub proof fn law_words_are_kept_one_by_one(
    first: Seq<Seq<char>>,
    word: Seq<char>,
    second: Seq<Seq<char>>,
)
    ensures
        (forall|i: int| 0 <= i < word.len() ==> is_js_space_char(#[trigger] word[i])) ==> kept_parts(
            first + seq![word] + second,
        ) == kept_parts(first) + kept_parts(second),
        is_trimmed_word(word) ==> kept_parts(first + seq![word] + second) == kept_parts(first)
            + seq![word] + kept_parts(second),
    decreases second.len(),
{
    let class = CharClass::JsSpace;
    let all = first + seq![word] + second;
    if second.len() == 0 {
        assert(all.drop_last() =~= first);
        let t = trim(word, class);
        if is_trimmed_word(word) {
            lemma_trimmed_stays(word, class);
        }
        if forall|i: int| 0 <= i < word.len() ==> is_js_space_char(#[trigger] word[i]) {
            let (a, b) = lemma_trim(word, class);
            if t.len() > 0 {
                assert(t[0] == word[a]);
                assert(is_js_space_char(word[a]));
            }
        }
        assert(kept_parts(second) =~= Seq::empty());
        assert(kept_parts(first) + kept_parts(second) =~= kept_parts(first));
        assert(kept_parts(first) + seq![word] + kept_parts(second) =~= kept_parts(first).push(word));
    } else {
        let rest = second.drop_last();
        law_words_are_kept_one_by_one(first, word, rest);
        assert(all.drop_last() =~= first + seq![word] + rest);
        assert(all.last() == second.last());
        let t = trim(second.last(), class);
        if t.len() > 0 {
            assert((kept_parts(first) + kept_parts(rest)).push(t) =~= kept_parts(first)
                + kept_parts(second));
            assert((kept_parts(first) + seq![word] + kept_parts(rest)).push(t) =~= kept_parts(first)
                + seq![word] + kept_parts(second));
        }
    }
}

/// The first and the last character of the text are the same quote.
pub open spec fn edges_are_quotes(s: Seq<char>) -> bool {
    s.len() > 0 && s[0] == s.last() && (s[0] == '"' || s[0] == '\'')
}

/// One pair of matching edge quotes is dropped, and nothing else ever is.
pub proof fn law_one_pair_of_quotes_is_dropped(s: Seq<char>)
    ensures
        !edges_are_quotes(s) ==> without_edge_quotes(s) == s,
        edges_are_quotes(s) && s.len() >= 2 ==> without_edge_quotes(s).len() == s.len() - 2 && (
        forall|i: int|
            0 <= i < s.len() - 2 ==> (#[trigger] without_edge_quotes(s)[i]) == s[i + 1]),
        s.len() == 1 && edges_are_quotes(s) ==> without_edge_quotes(s).len() == 0,
{
}

/// The title of a Windows shell's array is every word behind the flag, joined by
/// spaces, one pair of edge quotes aside: word `k` stands in it whole and in its
/// place, with a space before it unless it is the first.
pub proof fn law_windows_arrays_keep_every_word(parts: Seq<Seq<char>>, k: int)
    requires
        parts.len() >= 3,
        windows_shell(parts[0]),
        ascii_lower(parts[1]) == "-command"@ || ascii_lower(parts[1]) == "-c"@ || ascii_lower(
            parts[1],
        ) == "/c"@,
        parts[1] != "-lc"@,
        parts[1] != "-c"@,
        forall|i: int| 2 <= i < parts.len() ==> is_trimmed_word(#[trigger] parts[i]),
        2 <= k < parts.len(),
    ensures
        normalized_parts(parts) is Some,
        ({
            let title = normalized_parts(parts)->0;
            let words = parts.skip(2);
            let total = part_offset(words, 1, words.len() - 1) + parts.last().len();
            let at = part_offset(words, 1, k - 2);
            let first = parts[2][0];
            let last = parts.last().last();
            if first == last && (first == '"' || first == '\'') {
                if total == 1 {
                    title.len() == 0
                } else {
                    &&& title.len() == total - 2
                    &&& forall|j: int|
                        0 <= j < parts[k].len() && 0 < at + j < total - 1 ==> title[at + j - 1]
                            == #[trigger] parts[k][j]
                    &&& k > 2 ==> title[at - 2] == ' '
                }
            } else {
                &&& title.len() == total
                &&& at + parts[k].len() <= total
                &&& title.subrange(at, at + parts[k].len()) == parts[k]
                &&& k > 2 ==> title[at - 1] == ' '
            }
        }),
{
    reveal_strlit(" ");
    let words = parts.skip(2);
    let n = words.len() as int;
    let whole = join(words, " "@);
    let at = part_offset(words, 1, k - 2);
    assert(words[k - 2] == parts[k]);
    assert(words[0] == parts[2]);
    assert(words.last() == parts.last());
    law_joining_keeps_every_part(words, " "@, 0);
    assert(whole.subrange(0, parts[2].len() as int)[0] == whole[0]);
    assert(whole[0] == parts[2][0]);
    law_joining_keeps_every_part(words, " "@, n - 1);
    let o = part_offset(words, 1, n - 1);
    assert(whole.subrange(o, o + parts.last().len())[parts.last().len() - 1] == whole.last());
    assert(is_trimmed_word(parts[2]));
    assert(is_trimmed_word(parts[parts.len() - 1]));
    assert(whole.last() == parts.last().last());
    lemma_trimmed_stays(whole, CharClass::JsSpace);
    law_joining_keeps_every_part(words, " "@, k - 2);
    assert forall|j: int| 0 <= j < parts[k].len() implies whole[at + j] == #[trigger] parts[k][j] by {
        assert(whole.subrange(at, at + parts[k].len())[j] == whole[at + j]);
    }
    if k > 2 {
        assert(whole.subrange(at - 1, at)[0] == whole[at - 1]);
        assert(whole[at - 1] == ' ');
        assert(at >= 2) by {
            law_joining_keeps_every_part(words, " "@, k - 3);
            assert(words[k - 3] == parts[k - 1]);
            assert(is_trimmed_word(parts[k - 1]));
            assert(at == part_offset(words, 1, k - 3) + parts[k - 1].len() + 1);
        }
    }
}

/// A Unix shell's array is known by its flag alone, and its title is the word
/// behind the flag, quotes and all; what follows that word are the command's
/// own arguments and no part of the title.
pub proof fn law_unix_arrays_show_the_word_behind_the_flag(parts: Seq<Seq<char>>)
    requires
        parts.len() >= 3,
        parts[1] == "-lc"@ || parts[1] == "-c"@,
        is_trimmed_word(parts[2]),
    ensures
        normalized_parts(parts) == Some(parts[2]),
{
    lemma_trimmed_stays(parts[2], CharClass::JsSpace);
}

/// Any other array is shown whole: every word, in its place, with a space before
/// each but the first.
pub proof fn law_other_arrays_are_shown_whole(parts: Seq<Seq<char>>, k: int)
    requires
        0 <= k < parts.len(),
        parts.len() < 3 || (parts[1] != "-lc"@ && parts[1] != "-c"@ && (!windows_shell(parts[0])
            || (ascii_lower(parts[1]) != "-command"@ && ascii_lower(parts[1]) != "-c"@
            && ascii_lower(parts[1]) != "/c"@))),
    ensures
        normalized_parts(parts) is Some,
        ({
            let title = normalized_parts(parts)->0;
            let at = part_offset(parts, 1, k);
            &&& title.len() == part_offset(parts, 1, parts.len() - 1) + parts.last().len()
            &&& at + parts[k].len() <= title.len()
            &&& title.subrange(at, at + parts[k].len()) == parts[k]
            &&& k > 0 ==> title[at - 1] == ' '
        }),
{
    reveal_strlit(" ");
    law_joining_keeps_every_part(parts, " "@, k);
    let title = join(parts, " "@);
    let at = part_offset(parts, 1, k);
    if k > 0 {
        assert(title.subrange(at - 1, at)[0] == title[at - 1]);
    }
}

/// Without words there is nothing to show.
pub proof fn law_empty_arrays_have_no_title()
    ensures
        normalized_parts(Seq::empty()) is None,
{
}

/// The name of a Windows shell, any case, with or without `.exe`.
pub open spec fn names_windows_shell(w: Seq<char>) -> bool {
    let l = ascii_lower(w);
    l == "pwsh"@ || l == "powershell"@ || l == "cmd"@ || l == "pwsh.exe"@ || l == "powershell.exe"@
        || l == "cmd.exe"@
}

proof fn lemma_after_last_backslash(s: Seq<char>) -> (i: int)
    ensures
        0 <= i <= s.len(),
        after_last_backslash(s) == s.skip(i),
        i > 0 ==> s[i - 1] == '\\',
        forall|j: int| i <= j < s.len() ==> #[trigger] s[j] != '\\',
    decreases s.len(),
{
    if s.len() == 0 {
        assert(after_last_backslash(s) =~= s.skip(0));
        0
    } else if s.last() == '\\' {
        assert(after_last_backslash(s) =~= s.skip(s.len() as int));
        s.len() as int
    } else {
        let i = lemma_after_last_backslash(s.drop_last());
        assert(after_last_backslash(s) =~= s.skip(i));
        assert forall|j: int| i <= j < s.len() implies #[trigger] s[j] != '\\' by {
            if j < s.len() - 1 {
                assert(s.drop_last()[j] == s[j]);
            }
        }
        i
    }
}

/// Where a word begins without its opening quote.
pub open spec fn inner_start(word: Seq<char>) -> int {
    if word.len() > 0 && (word[0] == '"' || word[0] == '\'') {
        1
    } else {
        0
    }
}

/// Where a word ends without its closing quote.
pub open spec fn inner_end(word: Seq<char>) -> int {
    if word.len() > inner_start(word) && (word.last() == '"' || word.last() == '\'') {
        word.len() - 1
    } else {
        word.len() as int
    }
}

/// From `i` on the word, its quotes aside, is a shell's name, and a backslash or
/// nothing stands before it.
pub open spec fn ends_in_shell_name(word: Seq<char>, i: int) -> bool {
    &&& inner_start(word) <= i <= inner_end(word)
    &&& i > inner_start(word) ==> word[i - 1] == '\\'
    &&& forall|j: int| i <= j < inner_end(word) ==> #[trigger] word[j] != '\\'
    &&& names_windows_shell(word.subrange(i, inner_end(word)))
}

/// A word is a Windows shell's exactly where it ends in the name of one.
pub proof fn law_windows_shells_are_known_by_their_names(command: Seq<char>)
    ensures
        windows_shell(command) <==> exists|i: int| #[trigger] ends_in_shell_name(command, i),
{
    let a = inner_start(command);
    let b = inner_end(command);
    let core = command.subrange(a, b);
    let k = lemma_after_last_backslash(core);
    let unquoted = if command.len() > 0 && (command[0] == '"' || command[0] == '\'') {
        command.skip(1)
    } else {
        command
    };
    let inner = if unquoted.len() > 0 && (unquoted.last() == '"' || unquoted.last() == '\'') {
        unquoted.drop_last()
    } else {
        unquoted
    };
    assert(core =~= inner);
    assert(core.skip(k) =~= command.subrange(a + k, b));
    assert(windows_shell(command) == names_windows_shell(command.subrange(a + k, b)));
    if windows_shell(command) {
        if k > 0 {
            assert(core[k - 1] == command[a + k - 1]);
        }
        assert forall|j: int| a + k <= j < b implies #[trigger] command[j] != '\\' by {
            assert(core[j - a] == command[j]);
        }
        assert(ends_in_shell_name(command, a + k));
    }
    if exists|i: int| #[trigger] ends_in_shell_name(command, i) {
        let i = choose|i: int| #[trigger] ends_in_shell_name(command, i);
        if i < a + k {
            assert(core[k - 1] == command[a + k - 1]);
        } else if i > a + k {
            assert(core[i - 1 - a] == command[i - 1]);
        }
        assert(i == a + k);
    }
}

/// `-` and letters.
pub open spec fn is_dashed_word(w: Seq<char>) -> bool {
    &&& w.len() >= 2
    &&& w[0] == '-'
    &&& forall|i: int|
        1 <= i < w.len() ==> ('a' <= #[trigger] w[i] <= 'z' || 'A' <= w[i] <= 'Z')
}

/// Every word is an option, or the value of the option right before it; a value
/// does not begin with a dash.
pub open spec fn are_options(words: Seq<Seq<char>>) -> bool {
    forall|i: int|
        0 <= i < words.len() ==> is_dashed_word(#[trigger] words[i]) || (i > 0 && words[i].len() > 0
            && words[i][0] != '-' && is_dashed_word(words[i - 1]))
}

proof fn lemma_options(words: Seq<Seq<char>>)
    ensures
        option_run(words) == are_options(words),
    decreases words.len(),
{
    if words.len() > 0 {
        assert(option_token(words[0]) == is_dashed_word(words[0]));
        let one = words.skip(1);
        lemma_options(one);
        assert forall|i: int| 0 <= i < one.len() implies #[trigger] one[i] == words[i + 1] by {}
        if words.len() >= 2 {
            let two = words.skip(2);
            lemma_options(two);
            assert forall|i: int| 0 <= i < two.len() implies #[trigger] two[i] == words[i + 2] by {}
        }
        if option_run(words) {
            assert forall|i: int| 0 <= i < words.len() implies is_dashed_word(#[trigger] words[i])
                || (i > 0 && words[i].len() > 0 && words[i][0] != '-' && is_dashed_word(
                words[i - 1],
            )) by {
                if option_run(one) {
                    if i >= 1 {
                        assert(one[i - 1] == words[i]);
                        if i >= 2 {
                            assert(one[i - 2] == words[i - 1]);
                        }
                    }
                } else if i >= 2 {
                    let two = words.skip(2);
                    assert(two[i - 2] == words[i]);
                    if i >= 3 {
                        assert(two[i - 3] == words[i - 1]);
                    }
                }
            }
        }
        if are_options(words) {
            assert(is_dashed_word(words[0]));
            if words.len() >= 2 {
                if is_dashed_word(words[1]) {
                    assert forall|i: int| 0 <= i < one.len() implies is_dashed_word(
                        #[trigger] one[i],
                    ) || (i > 0 && one[i].len() > 0 && one[i][0] != '-' && is_dashed_word(
                        one[i - 1],
                    )) by {
                        assert(one[i] == words[i + 1]);
                        if i > 0 {
                            assert(one[i - 1] == words[i]);
                        }
                    }
                    assert(are_options(one));
                } else {
                    let two = words.skip(2);
                    assert(words[1].len() > 0 && words[1][0] != '-');
                    assert forall|i: int| 0 <= i < two.len() implies is_dashed_word(
                        #[trigger] two[i],
                    ) || (i > 0 && two[i].len() > 0 && two[i][0] != '-' && is_dashed_word(
                        two[i - 1],
                    )) by {
                        assert(two[i] == words[i + 2]);
                        if i > 0 {
                            assert(two[i - 1] == words[i + 1]);
                        }
                    }
                    assert(are_options(two));
                }
            }
        }
    }
}

/// `s` splits as the Windows pattern does: a name from `a` to `n`, behind nothing
/// or behind an opening quote and a folder; the interpreter's end at `e`, behind
/// a closing quote if there is one; options; at word `k` the command flag; and
/// from `p` on the payload.
pub open spec fn windows_split(s: Seq<char>, a: int, n: int, e: int, k: int, p: int) -> bool {
    let ranges = word_ranges(s, CharClass::JsSpace, e);
    let words = ranges_text(s, ranges);
    &&& 0 <= a <= n <= e < s.len()
    &&& a == 0 || (2 <= a && s[0] == '"' && s[a - 1] == '\\' && forall|j: int|
        1 <= j < a ==> #[trigger] s[j] != '"')
    &&& names_windows_shell(s.subrange(a, n))
    &&& n == e || (n + 1 == e && s[n] == '"')
    &&& is_js_space_char(s[e])
    &&& 0 <= k
    &&& k + 1 < words.len()
    &&& are_options(words.take(k))
    &&& (ascii_lower(words[k]) == "-command"@ || ascii_lower(words[k]) == "-c"@ || ascii_lower(
        words[k],
    ) == "/c"@)
    &&& p == ranges[k + 1].0
}

proof fn lemma_split_is_viable(s: Seq<char>, a: int, n: int, e: int, k: int, p: int)
    requires
        windows_split(s, a, n, e, k, p),
    ensures
        e > 0,
        interpreter_end(s, e),
        run_end(s, CharClass::JsSpace, e) != e,
        viable_flag(s, word_ranges(s, CharClass::JsSpace, e), k),
{
    let ranges = word_ranges(s, CharClass::JsSpace, e);
    let words = ranges_text(s, ranges);
    reveal_strlit("pwsh");
    reveal_strlit("powershell");
    reveal_strlit("cmd");
    reveal_strlit("pwsh.exe");
    reveal_strlit("powershell.exe");
    reveal_strlit("cmd.exe");
    assert(ascii_lower(s.subrange(a, n)).len() == n - a);
    assert(windows_prefix(s, a));
    assert(windows_name_at(s, a, n));
    assert(windows_name_ends(s, n));
    lemma_run_end(s, CharClass::JsSpace, e);
    assert(belongs(CharClass::JsSpace, s[e]));
    assert(ranges_text(s, ranges.take(k)) =~= words.take(k));
    lemma_options(words.take(k));
    assert(words[k] == s.subrange(ranges[k].0, ranges[k].1));
}

proof fn lemma_viable_is_split(s: Seq<char>, e: int, k: int) -> (name: (int, int))
    requires
        0 < e <= s.len(),
        interpreter_end(s, e),
        run_end(s, CharClass::JsSpace, e) != e,
        viable_flag(s, word_ranges(s, CharClass::JsSpace, e), k),
    ensures
        windows_split(
            s,
            name.0,
            name.1,
            e,
            k,
            word_ranges(s, CharClass::JsSpace, e)[k + 1].0,
        ),
{
    let ranges = word_ranges(s, CharClass::JsSpace, e);
    let words = ranges_text(s, ranges);
    assert(e < s.len() && is_js_space_char(s[e]));
    assert(ranges_text(s, ranges.take(k)) =~= words.take(k));
    lemma_options(words.take(k));
    assert(words[k] == s.subrange(ranges[k].0, ranges[k].1));
    let n = if windows_name_ends(s, e) {
        e
    } else {
        e - 1
    };
    assert(windows_name_ends(s, n));
    let a = choose|a: int| windows_name_at(s, a, n);
    (a, n)
}

proof fn lemma_flag_is_rightmost(s: Seq<char>, ranges: Seq<(int, int)>, i: int) -> (k: int)
    requires
        i <= ranges.len(),
    ensures
        flag_payload(s, ranges, i) is None ==> forall|j: int| j < i ==> !#[trigger] viable_flag(
            s,
            ranges,
            j,
        ),
        flag_payload(s, ranges, i) is Some ==> 0 <= k < i && viable_flag(s, ranges, k) && (forall|
            j: int,
        |
            k < j < i ==> !#[trigger] viable_flag(s, ranges, j)) && flag_payload(s, ranges, i)
            == Some(ranges[k + 1].0),
    decreases i,
{
    if i <= 0 {
        0
    } else if viable_flag(s, ranges, i - 1) {
        i - 1
    } else {
        lemma_flag_is_rightmost(s, ranges, i - 1)
    }
}

proof fn lemma_windows_found(s: Seq<char>, top: int) -> (w: (int, int, int, int))
    requires
        0 <= top <= s.len(),
    ensures
        windows_payload(s, top) matches Some(p) ==> windows_split(s, w.0, w.1, w.2, w.3, p) && w.2
            <= top && forall|a: int, n: int, e: int, k: int, q: int|
            e <= top && #[trigger] windows_split(s, a, n, e, k, q) ==> e < w.2 || (e == w.2 && k
                <= w.3),
        windows_payload(s, top) is None ==> forall|a: int, n: int, e: int, k: int, q: int|
            e <= top ==> !#[trigger] windows_split(s, a, n, e, k, q),
    decreases top,
{
    if top <= 0 {
        assert forall|a: int, n: int, e: int, k: int, q: int| e <= top implies !#[trigger]
        windows_split(s, a, n, e, k, q) by {
            if windows_split(s, a, n, e, k, q) {
                lemma_split_is_viable(s, a, n, e, k, q);
            }
        }
        (0, 0, 0, 0)
    } else {
        let ranges = word_ranges(s, CharClass::JsSpace, top);
        let k0 = lemma_flag_is_rightmost(s, ranges, ranges.len() as int);
        if interpreter_end(s, top) && payload_from(s, top) is Some {
            let name = lemma_viable_is_split(s, top, k0);
            assert forall|a: int, n: int, e: int, k: int, q: int| e <= top && #[trigger]
            windows_split(s, a, n, e, k, q) implies e < top || (e == top && k <= k0) by {
                if e == top {
                    lemma_split_is_viable(s, a, n, e, k, q);
                    assert(viable_flag(s, ranges, k));
                }
            }
            (name.0, name.1, top, k0)
        } else {
            let w = lemma_windows_found(s, top - 1);
            assert forall|a: int, n: int, e: int, k: int, q: int| e <= top && #[trigger]
            windows_split(s, a, n, e, k, q) implies e <= top - 1 by {
                if e == top {
                    lemma_split_is_viable(s, a, n, e, k, q);
                    assert(viable_flag(s, ranges, k));
                    assert(payload_from(s, top) is Some);
                }
            }
            w
        }
    }
}

/// The Windows pattern finds a payload exactly where the text splits into its
/// parts, and of several splits the one with the longest interpreter and, for
/// that, the rightmost flag.
pub proof fn law_windows_pattern(s: Seq<char>)
    ensures
        windows_payload(s, s.len() as int) matches Some(p) ==> exists|a: int, n: int, e: int, k: int|
            {
                &&& #[trigger] windows_split(s, a, n, e, k, p)
                &&& forall|a2: int, n2: int, e2: int, k2: int, q: int| #[trigger]
                    windows_split(s, a2, n2, e2, k2, q) ==> e2 < e || (e2 == e && k2 <= k)
            },
        windows_payload(s, s.len() as int) is None ==> forall|a: int, n: int, e: int, k: int, q: int|
            !#[trigger] windows_split(s, a, n, e, k, q),
{
    let w = lemma_windows_found(s, s.len() as int);
    assert forall|a: int, n: int, e: int, k: int, q: int| #[trigger]
    windows_split(s, a, n, e, k, q) implies e <= s.len() by {}
}

/// What a title shows of a payload: it without its outer whitespace and without
/// one pair of edge quotes.
proof fn lemma_payload_shown(t: Seq<char>, p: int)
    requires
        0 <= p < t.len(),
        !is_js_space_char(t[p]),
        !is_js_space_char(t.last()),
    ensures
        trim(t.skip(p), CharClass::JsSpace) == t.skip(p),
{
    let rest = t.skip(p);
    assert(rest[0] == t[p]);
    assert(rest.last() == t.last());
    lemma_trimmed_stays(rest, CharClass::JsSpace);
}

/// A command in a Unix shell's wrapper is shown as everything behind the flag,
/// one pair of edge quotes aside.
pub proof fn law_unix_wrappers_show_the_payload(
    command: Seq<char>,
    i: int,
    e: int,
    w: int,
    f: int,
    p: int,
)
    requires
        is_trimmed_word(command),
        unix_split(command, i, e, w, f, p),
    ensures
        !edges_are_quotes(command.skip(p)) ==> unwrapped(command) == command.skip(p),
        edges_are_quotes(command.skip(p)) && p + 1 < command.len() ==> unwrapped(command)
            == command.subrange(p + 1, command.len() - 1),
{
    lemma_trimmed_stays(command, CharClass::JsSpace);
    law_unix_pattern(command, p);
    lemma_payload_shown(command, p);
    let rest = command.skip(p);
    assert(rest.last() == command.last());
    if edges_are_quotes(rest) && p + 1 < command.len() {
        assert(rest.subrange(1, rest.len() - 1) =~= command.subrange(p + 1, command.len() - 1));
    }
}

proof fn lemma_windows_choice(s: Seq<char>, a: int, n: int, e: int, k: int, p: int)
    requires
        windows_split(s, a, n, e, k, p),
        forall|a2: int, n2: int, e2: int, k2: int, q: int| #[trigger]
            windows_split(s, a2, n2, e2, k2, q) ==> e2 < e || (e2 == e && k2 <= k),
    ensures
        windows_payload(s, s.len() as int) == Some(p),
        0 <= p < s.len(),
        !is_js_space_char(s[p]),
{
    let w = lemma_windows_found(s, s.len() as int);
    assert(e <= s.len());
    let found = windows_payload(s, s.len() as int);
    if found is None {
        assert(!windows_split(s, a, n, e, k, p));
    }
    let q = found->0;
    assert(windows_split(s, w.0, w.1, w.2, w.3, q));
    assert(w.2 == e && w.3 == k);
    assert(q == p);
    lemma_word_starts(s, e, k + 1);
}

proof fn lemma_word_starts(s: Seq<char>, from: int, k: int)
    requires
        0 <= from <= s.len(),
        0 <= k < word_ranges(s, CharClass::JsSpace, from).len(),
    ensures
        0 <= word_ranges(s, CharClass::JsSpace, from)[k].0 < s.len(),
        !is_js_space_char(s[word_ranges(s, CharClass::JsSpace, from)[k].0]),
{
    lemma_word_ranges(s, CharClass::JsSpace, from);
    let r = word_ranges(s, CharClass::JsSpace, from)[k];
    assert(!belongs(CharClass::JsSpace, s[r.0]));
}

/// A command in a Windows shell's wrapper is shown as everything behind the
/// flag, one pair of edge quotes aside, unless it reads as a Unix wrapper.
pub proof fn law_windows_wrappers_show_the_payload(
    command: Seq<char>,
    a: int,
    n: int,
    e: int,
    k: int,
    p: int,
)
    requires
        is_trimmed_word(command),
        forall|i: int, e2: int, w: int, f: int, q: int|
            !#[trigger] unix_split(command, i, e2, w, f, q),
        windows_split(command, a, n, e, k, p),
        forall|a2: int, n2: int, e2: int, k2: int, q: int| #[trigger]
            windows_split(command, a2, n2, e2, k2, q) ==> e2 < e || (e2 == e && k2 <= k),
    ensures
        !edges_are_quotes(command.skip(p)) ==> unwrapped(command) == command.skip(p),
        edges_are_quotes(command.skip(p)) && p + 1 < command.len() ==> unwrapped(command)
            == command.subrange(p + 1, command.len() - 1),
{
    lemma_trimmed_stays(command, CharClass::JsSpace);
    if unix_payload(command, command.len() as int) is Some {
        law_unix_pattern(command, unix_payload(command, command.len() as int)->0);
    }
    lemma_windows_choice(command, a, n, e, k, p);
    lemma_payload_shown(command, p);
    let rest = command.skip(p);
    assert(rest.last() == command.last());
    if edges_are_quotes(rest) && p + 1 < command.len() {
        assert(rest.subrange(1, rest.len() - 1) =~= command.subrange(p + 1, command.len() - 1));
    }
}

/// A command that is no wrapper is shown as it is.
pub proof fn law_other_commands_are_shown_whole(command: Seq<char>)
    requires
        is_trimmed_word(command),
        forall|i: int, e: int, w: int, f: int, q: int|
            !#[trigger] unix_split(command, i, e, w, f, q),
        forall|a: int, n: int, e: int, k: int, q: int|
            !#[trigger] windows_split(command, a, n, e, k, q),
    ensures
        unwrapped(command) == command,
{
    lemma_trimmed_stays(command, CharClass::JsSpace);
    if unix_payload(command, command.len() as int) is Some {
        law_unix_pattern(command, unix_payload(command, command.len() as int)->0);
    }
    let _ = lemma_windows_found(command, command.len() as int);
}

/// A string is shown as its command, an array as its trimmed words, and nothing
/// else is a command; an empty title is none.
pub proof fn law_values_are_shown_by_their_kind(value: serde_json::Value)
    ensures
        json_str(value) matches Some(command) ==> (match normalized_command(value) {
            Some(title) => title == unwrapped(command) && title.len() > 0,
            None => unwrapped(command).len() == 0,
        }),
        json_str(value) is None && json_items(value) is None ==> normalized_command(value) is None,
        json_str(value) is None && json_items(value) is Some ==> normalized_command(value)
            == normalized_parts(kept_parts(json_texts(json_items(value)->0))),
{
}

/// Three flags hand a command to a Windows shell, in any case.
pub proof fn law_windows_flags_are_these(token: Seq<char>)
    ensures
        cmd_flag(token) <==> seq!["-command"@, "-c"@, "/c"@].contains(ascii_lower(token)),
{
    let flags = seq!["-command"@, "-c"@, "/c"@];
    assert(flags[0] == "-command"@ && flags[1] == "-c"@ && flags[2] == "/c"@);
}

} // verus!
