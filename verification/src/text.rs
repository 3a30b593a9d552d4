//! Text as sequences of characters.
//!
//! The rest of the library reads and builds text through the functions here.
//! A `String` is modelled by its characters, `Seq<char>`, and every helper says
//! exactly which characters it hands back.
use vstd::prelude::*;
use vstd::slice::slice_subrange;

verus! {

/// `String::push` appends one character to the end of the string.
pub assume_specification[ String::push ](s: &mut String, c: char)
    ensures
        final(s)@ == old(s)@.push(c),
;

/// The sets of characters that the library trims and splits on.
#[derive(Clone, Copy, Debug, PartialEq, Eq, Structural)]
pub enum CharClass {
    /// Characters with the Unicode property White_Space.
    White,
    /// What JavaScript's `\s` matches: it leaves U+0085 out and takes U+FEFF in.
    JsSpace,
    /// The two characters that separate path components on Windows.
    Separator,
    /// The one character that separates path components in a verbatim path.
    Backslash,
    /// The one character that separates path components off Windows.
    Slash,
    /// NUL.
    Nul,
    /// What Windows drops from the end of a name.
    DotOrSpace,
}

/// The Unicode property White_Space.
pub open spec fn is_white(c: char) -> bool {
    let n = c as u32;
    ||| 0x9 <= n <= 0xD
    ||| n == 0x20
    ||| n == 0x85
    ||| n == 0xA0
    ||| n == 0x1680
    ||| 0x2000 <= n <= 0x200A
    ||| n == 0x2028
    ||| n == 0x2029
    ||| n == 0x202F
    ||| n == 0x205F
    ||| n == 0x3000
}

/// JavaScript's `\s`.
pub open spec fn is_js_space_char(c: char) -> bool {
    (is_white(c) && c as u32 != 0x85) || c as u32 == 0xFEFF
}

pub open spec fn is_separator(c: char) -> bool {
    c == '/' || c == '\\'
}

/// Whether a character is in a class.
pub open spec fn belongs(class: CharClass, c: char) -> bool {
    match class {
        CharClass::White => is_white(c),
        CharClass::JsSpace => is_js_space_char(c),
        CharClass::Separator => is_separator(c),
        CharClass::Backslash => c == '\\',
        CharClass::Slash => c == '/',
        CharClass::Nul => c as u32 == 0,
        CharClass::DotOrSpace => c == '.' || c == ' ',
    }
}

fn white(c: char) -> (r: bool)
    ensures
        r == is_white(c),
{
    let n: u32 = c as u32;
    (0x9 <= n && n <= 0xD) || n == 0x20 || n == 0x85 || n == 0xA0 || n == 0x1680 || (0x2000 <= n
        && n <= 0x200A) || n == 0x2028 || n == 0x2029 || n == 0x202F || n == 0x205F || n == 0x3000
}

pub fn in_class(class: CharClass, c: char) -> (r: bool)
    ensures
        r == belongs(class, c),
{
    match class {
        CharClass::White => white(c),
        CharClass::JsSpace => (white(c) && c as u32 != 0x85) || c as u32 == 0xFEFF,
        CharClass::Separator => c == '/' || c == '\\',
        CharClass::Backslash => c == '\\',
        CharClass::Slash => c == '/',
        CharClass::Nul => c as u32 == 0,
        CharClass::DotOrSpace => c == '.' || c == ' ',
    }
}

/// The end of the run of `class` characters that starts at `i`.
pub open spec fn run_end(s: Seq<char>, class: CharClass, i: int) -> int
    decreases s.len() - i,
{
    if 0 <= i < s.len() && belongs(class, s[i]) {
        run_end(s, class, i + 1)
    } else {
        i
    }
}

/// The start of the run of `class` characters that ends at `j`.
pub open spec fn run_start(s: Seq<char>, class: CharClass, j: int) -> int
    decreases j,
{
    if 0 < j <= s.len() && belongs(class, s[j - 1]) {
        run_start(s, class, j - 1)
    } else {
        j
    }
}

/// `s` without its leading run of `class` characters.
pub open spec fn trim_start(s: Seq<char>, class: CharClass) -> Seq<char> {
    s.skip(run_end(s, class, 0))
}

/// `s` without its trailing run of `class` characters.
pub open spec fn trim_end(s: Seq<char>, class: CharClass) -> Seq<char> {
    s.take(run_start(s, class, s.len() as int))
}

/// `s` without its leading and its trailing run of `class` characters.
pub open spec fn trim(s: Seq<char>, class: CharClass) -> Seq<char> {
    trim_end(trim_start(s, class), class)
}

pub proof fn lemma_run_end(s: Seq<char>, class: CharClass, i: int)
    requires
        0 <= i <= s.len(),
    ensures
        i <= run_end(s, class, i) <= s.len(),
        forall|j: int| i <= j < run_end(s, class, i) ==> belongs(class, #[trigger] s[j]),
        run_end(s, class, i) < s.len() ==> !belongs(class, s[run_end(s, class, i)]),
    decreases s.len() - i,
{
    if i < s.len() && belongs(class, s[i]) {
        lemma_run_end(s, class, i + 1);
    }
}

/// A run end is where the run stops: nothing else can be one.
pub proof fn lemma_run_end_is(s: Seq<char>, class: CharClass, i: int, e: int)
    requires
        0 <= i <= e <= s.len(),
        forall|j: int| i <= j < e ==> belongs(class, #[trigger] s[j]),
        e < s.len() ==> !belongs(class, s[e]),
    ensures
        run_end(s, class, i) == e,
    decreases e - i,
{
    if i < e {
        assert(belongs(class, s[i]));
        lemma_run_end_is(s, class, i + 1, e);
    }
}

pub proof fn lemma_run_start(s: Seq<char>, class: CharClass, j: int)
    requires
        0 <= j <= s.len(),
    ensures
        0 <= run_start(s, class, j) <= j,
        forall|i: int| run_start(s, class, j) <= i < j ==> belongs(class, #[trigger] s[i]),
        run_start(s, class, j) > 0 ==> !belongs(class, s[run_start(s, class, j) - 1]),
    decreases j,
{
    if 0 < j && belongs(class, s[j - 1]) {
        lemma_run_start(s, class, j - 1);
    }
}

/// A run start is where the run begins: nothing else can be one.
pub proof fn lemma_run_start_is(s: Seq<char>, class: CharClass, j: int, b: int)
    requires
        0 <= b <= j <= s.len(),
        forall|i: int| b <= i < j ==> belongs(class, #[trigger] s[i]),
        b > 0 ==> !belongs(class, s[b - 1]),
    ensures
        run_start(s, class, j) == b,
    decreases j - b,
{
    if b < j {
        assert(belongs(class, s[j - 1]));
        lemma_run_start_is(s, class, j - 1, b);
    }
}

/// Trimming keeps one stretch of the text: no edge of it is in the class.
pub proof fn lemma_trim(s: Seq<char>, class: CharClass) -> (range: (int, int))
    ensures
        0 <= range.0 <= range.1 <= s.len(),
        trim(s, class) == s.subrange(range.0, range.1),
        trim(s, class).len() > 0 ==> !belongs(class, trim(s, class)[0]) && !belongs(
            class,
            trim(s, class).last(),
        ),
{
    let a = run_end(s, class, 0);
    lemma_run_end(s, class, 0);
    let t = s.skip(a);
    lemma_run_start(t, class, t.len() as int);
    let b = run_start(t, class, t.len() as int);
    assert(t.take(b) =~= s.subrange(a, a + b));
    if b > 0 {
        assert(t[0] == s[a]);
    }
    (a, a + b)
}

/// Trimming twice is trimming once.
pub proof fn lemma_trim_idempotent(s: Seq<char>, class: CharClass)
    ensures
        trim(trim(s, class), class) == trim(s, class),
{
    let t = trim(s, class);
    let _ = lemma_trim(s, class);
    if t.len() == 0 {
        lemma_run_end_is(t, class, 0, 0);
        assert(trim_start(t, class) =~= t);
        lemma_run_start_is(t, class, 0, 0);
    } else {
        lemma_run_end_is(t, class, 0, 0);
        assert(trim_start(t, class) =~= t);
        lemma_run_start_is(t, class, t.len() as int, t.len() as int);
    }
    assert(trim(t, class) =~= t);
}

/// The first position at or after `i` that holds a `class` character; the end
/// of the text where none does.
pub open spec fn next_in(s: Seq<char>, class: CharClass, i: int) -> int
    decreases s.len() - i,
{
    if 0 <= i < s.len() && !belongs(class, s[i]) {
        next_in(s, class, i + 1)
    } else {
        i
    }
}

pub proof fn lemma_next_in(s: Seq<char>, class: CharClass, i: int)
    requires
        0 <= i <= s.len(),
    ensures
        i <= next_in(s, class, i) <= s.len(),
        forall|j: int| i <= j < next_in(s, class, i) ==> !belongs(class, #[trigger] s[j]),
        next_in(s, class, i) < s.len() ==> belongs(class, s[next_in(s, class, i)]),
    decreases s.len() - i,
{
    if i < s.len() && !belongs(class, s[i]) {
        lemma_next_in(s, class, i + 1);
    }
}

/// The maximal runs without a `gap` character from `from` on, as ranges.
pub open spec fn word_ranges(s: Seq<char>, gap: CharClass, from: int) -> Seq<(int, int)>
    decreases s.len() - from,
{
    let a = run_end(s, gap, from);
    if !(0 <= from && a < s.len()) {
        Seq::empty()
    } else {
        let b = next_in(s, gap, a);
        proof {
            lemma_run_end(s, gap, from);
            lemma_next_in(s, gap, a + 1);
        }
        seq![(a, b)] + word_ranges(s, gap, b)
    }
}

/// The ranges lie inside the text from `from` on, one behind the other, none
/// of them empty, and no character in one is a `gap` character.
pub proof fn lemma_word_ranges(s: Seq<char>, gap: CharClass, from: int)
    requires
        0 <= from <= s.len(),
    ensures
        forall|k: int|
            #![trigger word_ranges(s, gap, from)[k]]
            0 <= k < word_ranges(s, gap, from).len() ==> {
                let r = word_ranges(s, gap, from)[k];
                &&& from <= r.0 < r.1 <= s.len()
                &&& forall|j: int| r.0 <= j < r.1 ==> !belongs(gap, #[trigger] s[j])
            },
    decreases s.len() - from,
{
    let a = run_end(s, gap, from);
    lemma_run_end(s, gap, from);
    if a < s.len() {
        let b = next_in(s, gap, a);
        lemma_next_in(s, gap, a);
        lemma_next_in(s, gap, a + 1);
        lemma_word_ranges(s, gap, b);
        let rest = word_ranges(s, gap, b);
        assert forall|k: int|
            #![trigger word_ranges(s, gap, from)[k]]
            0 <= k < word_ranges(s, gap, from).len() implies {
            let r = word_ranges(s, gap, from)[k];
            &&& from <= r.0 < r.1 <= s.len()
            &&& forall|j: int| r.0 <= j < r.1 ==> !belongs(gap, #[trigger] s[j])
        } by {
            if k > 0 {
                assert(word_ranges(s, gap, from)[k] == rest[k - 1]);
            }
        }
    }
}

/// Positions as mathematical integers.
pub open spec fn int_ranges(ranges: Seq<(usize, usize)>) -> Seq<(int, int)> {
    ranges.map_values(|r: (usize, usize)| (r.0 as int, r.1 as int))
}

/// Each range is a non-empty stretch of the text.
pub open spec fn ranges_inside(s: Seq<char>, ranges: Seq<(usize, usize)>) -> bool {
    forall|i: int| 0 <= i < ranges.len() ==> (#[trigger] ranges[i]).0 < ranges[i].1 <= s.len()
}

/// The characters of each range.
pub open spec fn ranges_text(s: Seq<char>, ranges: Seq<(int, int)>) -> Seq<Seq<char>> {
    ranges.map_values(|r: (int, int)| s.subrange(r.0, r.1))
}

pub fn find_in(s: &[char], class: CharClass, from: usize) -> (end: usize)
    requires
        from <= s@.len(),
    ensures
        end == next_in(s@, class, from as int),
        from <= end <= s@.len(),
{
    let mut i: usize = from;
    while i < s.len() && !in_class(class, s[i])
        invariant
            from <= i <= s@.len(),
            next_in(s@, class, from as int) == next_in(s@, class, i as int),
        decreases s@.len() - i,
    {
        i = i + 1;
    }
    i
}

/// The words of a text from `from` on, split at the characters of `gap`.
pub fn split_words(s: &[char], gap: CharClass, from: usize) -> (r: Vec<(usize, usize)>)
    requires
        from <= s@.len(),
    ensures
        int_ranges(r@) == word_ranges(s@, gap, from as int),
        ranges_inside(s@, r@),
{
    let mut r: Vec<(usize, usize)> = Vec::new();
    let mut i: usize = from;
    assert(word_ranges(s@, gap, from as int) =~= int_ranges(r@) + word_ranges(s@, gap, i as int));
    loop
        invariant
            i <= s@.len(),
            from <= s@.len(),
            word_ranges(s@, gap, from as int) == int_ranges(r@) + word_ranges(s@, gap, i as int),
            ranges_inside(s@, r@),
        decreases s@.len() - i,
    {
        let a: usize = skip_run(s, gap, i);
        if a >= s.len() {
            assert(int_ranges(r@) =~= word_ranges(s@, gap, from as int));
            return r;
        }
        let b: usize = find_in(s, gap, a);
        proof {
            lemma_run_end(s@, gap, i as int);
            lemma_next_in(s@, gap, a + 1);
        }
        let ghost before = r@;
        r.push((a, b));
        assert(int_ranges(r@) =~= int_ranges(before) + seq![(a as int, b as int)]);
        assert(word_ranges(s@, gap, from as int) =~= int_ranges(r@) + word_ranges(
            s@,
            gap,
            b as int,
        ));
        i = b;
    }
}

pub fn skip_run(s: &[char], class: CharClass, from: usize) -> (end: usize)
    requires
        from <= s@.len(),
    ensures
        end == run_end(s@, class, from as int),
        from <= end <= s@.len(),
{
    let mut i: usize = from;
    while i < s.len() && in_class(class, s[i])
        invariant
            from <= i <= s@.len(),
            run_end(s@, class, from as int) == run_end(s@, class, i as int),
        decreases s@.len() - i,
    {
        i = i + 1;
    }
    i
}

pub fn trimmed_start(s: &[char], class: CharClass) -> (r: &[char])
    ensures
        r@ == trim_start(s@, class),
{
    let from: usize = skip_run(s, class, 0);
    let r = slice_subrange(s, from, s.len());
    assert(r@ =~= trim_start(s@, class));
    r
}

pub fn trimmed_end(s: &[char], class: CharClass) -> (r: &[char])
    ensures
        r@ == trim_end(s@, class),
{
    let mut j: usize = s.len();
    while j > 0 && in_class(class, s[j - 1])
        invariant
            0 <= j <= s@.len(),
            run_start(s@, class, s@.len() as int) == run_start(s@, class, j as int),
        decreases j,
    {
        j = j - 1;
    }
    let r = slice_subrange(s, 0, j);
    assert(r@ =~= trim_end(s@, class));
    r
}

pub fn trimmed(s: &[char], class: CharClass) -> (r: &[char])
    ensures
        r@ == trim(s@, class),
{
    trimmed_end(trimmed_start(s, class), class)
}

/// The characters of a text.
pub fn chars_of(s: &str) -> (r: Vec<char>)
    ensures
        r@ == s@,
{
    let mut r: Vec<char> = Vec::new();
    for c in it: s.chars()
        invariant
            it.seq() == s@,
            r@ == s@.take(it.index() as int),
    {
        r.push(c);
        assert(r@ =~= s@.take(it.index() as int + 1));
    }
    assert(r@ =~= s@);
    r
}

/// The text made of the given characters.
pub fn text_of(chars: &[char]) -> (r: String)
    ensures
        r@ == chars@,
{
    let mut r = String::new();
    let mut i: usize = 0;
    while i < chars.len()
        invariant
            i <= chars@.len(),
            r@ == chars@.take(i as int),
        decreases chars@.len() - i,
    {
        r.push(chars[i]);
        i = i + 1;
        assert(r@ =~= chars@.take(i as int));
    }
    assert(r@ =~= chars@);
    r
}

pub fn same_chars(a: &[char], b: &[char]) -> (r: bool)
    ensures
        r == (a@ == b@),
{
    if a.len() != b.len() {
        return false;
    }
    let mut i: usize = 0;
    while i < a.len()
        invariant
            a@.len() == b@.len(),
            i <= a@.len(),
            a@.take(i as int) == b@.take(i as int),
        decreases a@.len() - i,
    {
        if a[i] != b[i] {
            return false;
        }
        assert(a@.take(i + 1) =~= a@.take(i as int).push(a@[i as int]));
        assert(b@.take(i + 1) =~= b@.take(i as int).push(b@[i as int]));
        i = i + 1;
    }
    assert(a@ =~= a@.take(i as int));
    assert(b@ =~= b@.take(i as int));
    true
}

/// Whether two texts hold the same characters.
pub fn same_text(a: &str, b: &str) -> (r: bool)
    ensures
        r == (a@ == b@),
{
    let x = chars_of(a);
    let y = chars_of(b);
    same_chars(x.as_slice(), y.as_slice())
}

/// Whether the characters spell the given word.
pub fn spells(s: &[char], word: &str) -> (r: bool)
    ensures
        r == (s@ == word@),
{
    let w = chars_of(word);
    same_chars(s, w.as_slice())
}

/// An ASCII letter.
pub open spec fn is_letter(c: char) -> bool {
    'a' <= c <= 'z' || 'A' <= c <= 'Z'
}

pub fn letter(c: char) -> (r: bool)
    ensures
        r == is_letter(c),
{
    ('a' <= c && c <= 'z') || ('A' <= c && c <= 'Z')
}

/// One ASCII letter in its lower case; any other character as it is.
pub open spec fn lower_char(c: char) -> char {
    if 'A' <= c <= 'Z' {
        ((c as u8) + 32) as char
    } else {
        c
    }
}

/// The text with its ASCII letters in lower case.
pub open spec fn ascii_lower(s: Seq<char>) -> Seq<char> {
    s.map_values(|c: char| lower_char(c))
}

pub fn lower_of(c: char) -> (r: char)
    ensures
        r == lower_char(c),
{
    if 'A' <= c && c <= 'Z' {
        ((c as u8) + 32) as char
    } else {
        c
    }
}

pub fn lower_chars(s: &[char]) -> (r: Vec<char>)
    ensures
        r@ == ascii_lower(s@),
{
    let mut r: Vec<char> = Vec::new();
    let mut i: usize = 0;
    while i < s.len()
        invariant
            i <= s@.len(),
            r@ == ascii_lower(s@.take(i as int)),
        decreases s@.len() - i,
    {
        r.push(lower_of(s[i]));
        i = i + 1;
        assert(r@ =~= ascii_lower(s@.take(i as int)));
    }
    assert(s@.take(i as int) =~= s@);
    r
}

/// Whether the characters spell the given lower-case word, ASCII case aside.
pub fn spells_ignoring_case(s: &[char], word: &str) -> (r: bool)
    ensures
        r == (ascii_lower(s@) == word@),
{
    let l = lower_chars(s);
    spells(l.as_slice(), word)
}

/// `s` begins with `p`.
pub open spec fn has_prefix(s: Seq<char>, p: Seq<char>) -> bool {
    p.len() <= s.len() && s.take(p.len() as int) == p
}

pub fn starts_with(s: &[char], word: &str) -> (r: bool)
    ensures
        r == has_prefix(s@, word@),
{
    let w = chars_of(word);
    if w.len() > s.len() {
        return false;
    }
    let head = slice_subrange(s, 0, w.len());
    assert(head@ =~= s@.take(word@.len() as int));
    same_chars(head, w.as_slice())
}

/// A found position as a mathematical integer.
pub open spec fn position(found: Option<usize>) -> Option<int> {
    match found {
        Some(i) => Some(i as int),
        None => None,
    }
}

/// The characters of each word.
pub open spec fn words_of(words: Seq<Vec<char>>) -> Seq<Seq<char>> {
    words.map_values(|w: Vec<char>| w@)
}

/// The characters of each text.
pub open spec fn texts_of(texts: Seq<String>) -> Seq<Seq<char>> {
    texts.map_values(|t: String| t@)
}

/// The parts, one after the other, with `sep` between each two of them.
pub open spec fn join(parts: Seq<Seq<char>>, sep: Seq<char>) -> Seq<char>
    decreases parts.len(),
{
    if parts.len() == 0 {
        Seq::empty()
    } else if parts.len() == 1 {
        parts[0]
    } else {
        join(parts.drop_last(), sep) + sep + parts.last()
    }
}

pub fn push_all(out: &mut Vec<char>, more: &[char])
    ensures
        final(out)@ == old(out)@ + more@,
{
    let mut i: usize = 0;
    while i < more.len()
        invariant
            i <= more@.len(),
            out@ == old(out)@ + more@.take(i as int),
        decreases more@.len() - i,
    {
        out.push(more[i]);
        i = i + 1;
        assert(out@ =~= old(out)@ + more@.take(i as int));
    }
    assert(more@.take(i as int) =~= more@);
}

pub fn joined(parts: &[Vec<char>], sep: &str) -> (r: Vec<char>)
    ensures
        r@ == join(words_of(parts@), sep@),
{
    let gap = chars_of(sep);
    let mut r: Vec<char> = Vec::new();
    let mut i: usize = 0;
    while i < parts.len()
        invariant
            i <= parts@.len(),
            gap@ == sep@,
            r@ == join(words_of(parts@.take(i as int)), sep@),
        decreases parts@.len() - i,
    {
        if i > 0 {
            push_all(&mut r, gap.as_slice());
        }
        push_all(&mut r, parts[i].as_slice());
        i = i + 1;
        assert(words_of(parts@.take(i as int)).drop_last() =~= words_of(parts@.take(i - 1)));
        assert(r@ =~= join(words_of(parts@.take(i as int)), sep@));
    }
    assert(parts@.take(i as int) =~= parts@);
    r
}

/// A copy of the characters.
pub fn owned(s: &[char]) -> (r: Vec<char>)
    ensures
        r@ == s@,
{
    let mut r: Vec<char> = Vec::new();
    push_all(&mut r, s);
    assert(r@ =~= s@);
    r
}

/// The word `w` stands in `s` at `i`.
pub open spec fn word_at(s: Seq<char>, i: int, w: Seq<char>) -> bool {
    0 <= i && i + w.len() <= s.len() && s.subrange(i, i + w.len()) == w
}

pub fn is_word_at(s: &[char], i: usize, w: &str) -> (r: bool)
    requires
        i <= s@.len(),
    ensures
        r == word_at(s@, i as int, w@),
        r ==> i + w@.len() <= usize::MAX,
{
    let word = chars_of(w);
    if word.len() > s.len() - i {
        return false;
    }
    same_chars(slice_subrange(s, i, i + word.len()), word.as_slice())
}

/// The first position at or after `from` where the word `w` stands.
pub open spec fn find_word(s: Seq<char>, w: Seq<char>, from: int) -> Option<int>
    decreases s.len() - from + 1,
{
    if from < 0 || from + w.len() > s.len() {
        None
    } else if word_at(s, from, w) {
        Some(from)
    } else {
        find_word(s, w, from + 1)
    }
}

pub proof fn lemma_find_word(s: Seq<char>, w: Seq<char>, from: int)
    requires
        0 <= from,
    ensures
        find_word(s, w, from) matches Some(i) ==> from <= i && word_at(s, i, w) && forall|j: int|
            from <= j < i ==> !#[trigger] word_at(s, j, w),
        find_word(s, w, from) is None ==> forall|j: int| from <= j ==> !#[trigger] word_at(s, j, w),
    decreases s.len() - from + 1,
{
    if from + w.len() <= s.len() && !word_at(s, from, w) {
        lemma_find_word(s, w, from + 1);
    }
}

pub fn find_text(s: &[char], w: &str, from: usize) -> (r: Option<usize>)
    requires
        from <= s@.len(),
    ensures
        position(r) == find_word(s@, w@, from as int),
        r matches Some(i) ==> from <= i && i + w@.len() <= s@.len() && i + w@.len() <= usize::MAX,
{
    let mut i: usize = from;
    loop
        invariant
            from <= i <= s@.len(),
            find_word(s@, w@, from as int) == find_word(s@, w@, i as int),
        decreases s@.len() - i,
    {
        if is_word_at(s, i, w) {
            return Some(i);
        }
        if i >= s.len() {
            assert(find_word(s@, w@, i as int) is None);
            return None;
        }
        assert(i + w@.len() > s@.len() ==> find_word(s@, w@, i + 1) is None);
        i = i + 1;
    }
}

/// An ASCII digit.
pub open spec fn is_digit(c: char) -> bool {
    '0' <= c <= '9'
}

/// One digit or more and nothing else.
pub open spec fn all_digits(s: Seq<char>) -> bool {
    s.len() > 0 && forall|i: int| 0 <= i < s.len() ==> is_digit(#[trigger] s[i])
}

/// The number that decimal digits write.
pub open spec fn decimal_value(s: Seq<char>) -> nat
    decreases s.len(),
{
    if s.len() == 0 {
        0
    } else {
        decimal_value(s.drop_last()) * 10 + (s.last() as u32 - 48) as nat
    }
}

/// The number that the digits write, where it is at most `max`.
pub open spec fn number(s: Seq<char>, max: nat) -> Option<nat> {
    if all_digits(s) && decimal_value(s) <= max {
        Some(decimal_value(s))
    } else {
        None
    }
}

proof fn lemma_decimal_value_grows(s: Seq<char>, i: int)
    requires
        0 <= i <= s.len(),
        all_digits(s),
    ensures
        decimal_value(s.take(i)) <= decimal_value(s),
    decreases s.len() - i,
{
    if i < s.len() {
        lemma_decimal_value_grows(s, i + 1);
        assert(s.take(i + 1).drop_last() =~= s.take(i));
        assert(is_digit(s[i]));
        assert(s.take(i + 1).last() == s[i]);
    } else {
        assert(s.take(i) =~= s);
    }
}

/// Reads a decimal number that is at most `max`.
pub fn read_number(s: &[char], max: u64) -> (r: Option<u64>)
    ensures
        r is Some == number(s@, max as nat) is Some,
        r matches Some(n) ==> number(s@, max as nat) == Some(n as nat),
{
    if s.len() == 0 {
        return None;
    }
    let mut k: usize = 0;
    while k < s.len()
        invariant
            k <= s@.len(),
            forall|i: int| 0 <= i < k ==> is_digit(#[trigger] s@[i]),
        decreases s@.len() - k,
    {
        if !('0' <= s[k] && s[k] <= '9') {
            return None;
        }
        k = k + 1;
    }
    let mut n: u64 = 0;
    let mut i: usize = 0;
    while i < s.len()
        invariant
            i <= s@.len(),
            all_digits(s@),
            n == decimal_value(s@.take(i as int)),
            n <= max,
        decreases s@.len() - i,
    {
        let d: u64 = (s[i] as u32 - 48) as u64;
        proof {
            assert(s@.take(i + 1).drop_last() =~= s@.take(i as int));
            assert(s@.take(i + 1).last() == s@[i as int]);
            assert(decimal_value(s@.take(i + 1)) == n * 10 + d);
            lemma_decimal_value_grows(s@, i + 1);
        }
        if n > max / 10 {
            return None;
        }
        if d > max - n * 10 {
            return None;
        }
        n = n * 10 + d;
        i = i + 1;
    }
    assert(s@.take(i as int) =~= s@);
    Some(n)
}

/// The pieces of a text between the occurrences of a separator.
pub open spec fn split_on(s: Seq<char>, sep: Seq<char>) -> Seq<Seq<char>>
    decreases s.len(),
{
    match find_word(s, sep, 0) {
        Some(i) if sep.len() > 0 => {
            proof {
                lemma_find_word(s, sep, 0);
            }
            seq![s.take(i)] + split_on(s.skip(i + sep.len()), sep)
        },
        _ => seq![s],
    }
}

/// The pieces of a text between the occurrences of a separator.
pub fn split_text(s: &[char], sep: &str) -> (r: Vec<Vec<char>>)
    requires
        sep@.len() > 0,
    ensures
        words_of(r@) == split_on(s@, sep@),
        r@.len() > 0,
{
    let width: usize = chars_of(sep).len();
    let mut r: Vec<Vec<char>> = Vec::new();
    let mut rest = s;
    assert(words_of(r@) + split_on(rest@, sep@) =~= split_on(s@, sep@));
    loop
        invariant
            width == sep@.len(),
            width > 0,
            split_on(s@, sep@) == words_of(r@) + split_on(rest@, sep@),
        decreases rest@.len(),
    {
        match find_text(rest, sep, 0) {
            None => {
                let ghost before = r@;
                r.push(owned(rest));
                assert(words_of(r@) =~= words_of(before).push(rest@));
                assert(words_of(r@) =~= split_on(s@, sep@));
                return r;
            },
            Some(i) => {
                let ghost before = r@;
                let head = slice_subrange(rest, 0, i);
                let tail = slice_subrange(rest, i + width, rest.len());
                assert(head@ =~= rest@.take(i as int));
                assert(tail@ =~= rest@.skip(i + width));
                r.push(owned(head));
                assert(words_of(r@) =~= words_of(before).push(head@));
                assert(words_of(r@) + split_on(tail@, sep@) =~= words_of(before) + (seq![head@]
                    + split_on(tail@, sep@)));
                rest = tail;
            },
        }
    }
}

/// A number as the standard library reads an unsigned one: digits, with at most
/// one `+` before them.
pub open spec fn unsigned(s: Seq<char>, max: nat) -> Option<nat> {
    if s.len() > 1 && s[0] == '+' {
        number(s.skip(1), max)
    } else {
        number(s, max)
    }
}

pub fn read_unsigned(s: &[char], max: u64) -> (r: Option<u64>)
    ensures
        r is Some == unsigned(s@, max as nat) is Some,
        r matches Some(n) ==> unsigned(s@, max as nat) == Some(n as nat) && n <= max,
{
    if s.len() > 1 && s[0] == '+' {
        let rest = slice_subrange(s, 1, s.len());
        assert(rest@ =~= s@.skip(1));
        read_number(rest, max)
    } else {
        read_number(s, max)
    }
}

/// Trimming drops characters of the class from the two ends and nothing else:
/// what is left begins and ends with other characters.
pub proof fn law_trimming_drops_the_edges_only(s: Seq<char>, class: CharClass)
    ensures
        exists|a: int, b: int|
            {
                &&& 0 <= a <= b <= s.len()
                &&& trim(s, class) == #[trigger] s.subrange(a, b)
                &&& forall|i: int| 0 <= i < a ==> belongs(class, #[trigger] s[i])
                &&& forall|i: int| b <= i < s.len() ==> belongs(class, #[trigger] s[i])
                &&& a < b ==> !belongs(class, s[a]) && !belongs(class, s[b - 1])
            },
{
    let a = run_end(s, class, 0);
    lemma_run_end(s, class, 0);
    let t = s.skip(a);
    lemma_run_start(t, class, t.len() as int);
    let n = run_start(t, class, t.len() as int);
    let b = a + n;
    assert(trim(s, class) =~= s.subrange(a, b));
    assert forall|i: int| b <= i < s.len() implies belongs(class, #[trigger] s[i]) by {
        assert(t[i - a] == s[i]);
    }
    if a < b {
        assert(t[n - 1] == s[b - 1]);
    }
}

/// A text whose ends are not in the class is trimmed already.
pub proof fn lemma_trimmed_stays(s: Seq<char>, class: CharClass)
    requires
        s.len() > 0 ==> !belongs(class, s[0]) && !belongs(class, s.last()),
    ensures
        trim(s, class) == s,
{
    lemma_run_end_is(s, class, 0, 0);
    assert(trim_start(s, class) =~= s);
    lemma_run_start_is(s, class, s.len() as int, s.len() as int);
    assert(trim(s, class) =~= s);
}

/// Trimming the end drops characters of the class from it and nothing else.
pub proof fn law_end_trimming_drops_the_end_only(s: Seq<char>, class: CharClass)
    ensures
        exists|b: int|
            {
                &&& 0 <= b <= s.len()
                &&& trim_end(s, class) == #[trigger] s.take(b)
                &&& forall|i: int| b <= i < s.len() ==> belongs(class, #[trigger] s[i])
                &&& b > 0 ==> !belongs(class, s[b - 1])
            },
{
    lemma_run_start(s, class, s.len() as int);
    let b = run_start(s, class, s.len() as int);
    assert(trim_end(s, class) == s.take(b));
}

/// The characters of whitespace, one by one: JavaScript leaves U+0085 out and
/// takes U+FEFF in.
pub proof fn law_whitespace_is_this_list(c: char)
    ensures
        ({
            let shared = seq![
                0x9u32, 0xA, 0xB, 0xC, 0xD, 0x20, 0xA0, 0x1680, 0x2000, 0x2001, 0x2002, 0x2003,
                0x2004, 0x2005, 0x2006, 0x2007, 0x2008, 0x2009, 0x200A, 0x2028, 0x2029, 0x202F,
                0x205F, 0x3000,
            ];
            &&& belongs(CharClass::JsSpace, c) <==> shared.contains(c as u32) || c as u32 == 0xFEFF
            &&& belongs(CharClass::White, c) <==> shared.contains(c as u32) || c as u32 == 0x85
        }),
{
    let shared = seq![
        0x9u32, 0xA, 0xB, 0xC, 0xD, 0x20, 0xA0, 0x1680, 0x2000, 0x2001, 0x2002, 0x2003, 0x2004,
        0x2005, 0x2006, 0x2007, 0x2008, 0x2009, 0x200A, 0x2028, 0x2029, 0x202F, 0x205F, 0x3000,
    ];
    let n = c as u32;
    assert(shared[0] == 0x9 && shared[1] == 0xA && shared[2] == 0xB && shared[3] == 0xC && shared[4]
        == 0xD && shared[5] == 0x20 && shared[6] == 0xA0 && shared[7] == 0x1680);
    assert(shared[8] == 0x2000 && shared[9] == 0x2001 && shared[10] == 0x2002 && shared[11] == 0x2003
        && shared[12] == 0x2004 && shared[13] == 0x2005 && shared[14] == 0x2006 && shared[15]
        == 0x2007);
    assert(shared[16] == 0x2008 && shared[17] == 0x2009 && shared[18] == 0x200A && shared[19]
        == 0x2028 && shared[20] == 0x2029 && shared[21] == 0x202F && shared[22] == 0x205F
        && shared[23] == 0x3000);
}

/// Where part `k` of the parts begins once they stand one behind the other with
/// `gap` characters between each two of them.
pub open spec fn part_offset(parts: Seq<Seq<char>>, gap: int, k: int) -> int
    decreases k,
{
    if k <= 0 {
        0
    } else {
        part_offset(parts, gap, k - 1) + parts[k - 1].len() + gap
    }
}

proof fn lemma_part_offset_prefix(parts: Seq<Seq<char>>, gap: int, k: int)
    requires
        0 <= k < parts.len(),
    ensures
        part_offset(parts.drop_last(), gap, k) == part_offset(parts, gap, k),
    decreases k,
{
    if k > 0 {
        lemma_part_offset_prefix(parts, gap, k - 1);
    }
}

proof fn lemma_join_len(parts: Seq<Seq<char>>, sep: Seq<char>)
    requires
        parts.len() > 0,
    ensures
        join(parts, sep).len() == part_offset(parts, sep.len() as int, parts.len() - 1)
            + parts.last().len(),
    decreases parts.len(),
{
    if parts.len() > 1 {
        let rest = parts.drop_last();
        lemma_join_len(rest, sep);
        lemma_part_offset_prefix(parts, sep.len() as int, parts.len() - 2);
    }
}

proof fn lemma_part_offset_grows(parts: Seq<Seq<char>>, gap: int, k: int)
    requires
        0 <= gap,
    ensures
        part_offset(parts, gap, k) >= 0,
        k > 0 ==> part_offset(parts, gap, k) >= gap,
    decreases k,
{
    if k > 0 {
        lemma_part_offset_grows(parts, gap, k - 1);
    }
}

/// Joining keeps every part whole, in its place, with the separator before each
/// but the first, and the joined text is as long as all of that.
pub proof fn law_joining_keeps_every_part(parts: Seq<Seq<char>>, sep: Seq<char>, k: int)
    requires
        0 <= k < parts.len(),
    ensures
        join(parts, sep).len() == part_offset(parts, sep.len() as int, parts.len() - 1)
            + parts.last().len(),
        0 <= part_offset(parts, sep.len() as int, k),
        part_offset(parts, sep.len() as int, k) + parts[k].len() <= join(parts, sep).len(),
        join(parts, sep).subrange(
            part_offset(parts, sep.len() as int, k),
            part_offset(parts, sep.len() as int, k) + parts[k].len(),
        ) == parts[k],
        k > 0 ==> part_offset(parts, sep.len() as int, k) >= sep.len() && join(parts, sep).subrange(
            part_offset(parts, sep.len() as int, k) - sep.len(),
            part_offset(parts, sep.len() as int, k),
        ) == sep,
    decreases parts.len(),
{
    let gap = sep.len() as int;
    let n = parts.len() as int;
    let whole = join(parts, sep);
    let o = part_offset(parts, gap, k);
    lemma_join_len(parts, sep);
    lemma_part_offset_grows(parts, gap, k);
    if n == 1 {
        assert(whole.subrange(0, whole.len() as int) =~= parts[0]);
    } else {
        let rest = parts.drop_last();
        let head = join(rest, sep);
        lemma_join_len(rest, sep);
        lemma_part_offset_prefix(parts, gap, n - 2);
        assert(head.len() == part_offset(parts, gap, n - 1) - gap);
        if k < n - 1 {
            law_joining_keeps_every_part(rest, sep, k);
            lemma_part_offset_prefix(parts, gap, k);
            assert(rest[k] == parts[k]);
            assert(whole.subrange(o, o + parts[k].len()) =~= head.subrange(o, o + parts[k].len()));
            if k > 0 {
                assert(whole.subrange(o - gap, o) =~= head.subrange(o - gap, o));
            }
        } else {
            assert(whole.subrange(o, o + parts[k].len()) =~= parts[k]);
            assert(whole.subrange(o - gap, o) =~= sep);
        }
    }
}

/// The words of a text are its maximal runs without gap characters: they stand
/// in their order with gap characters between each two of them, and every other
/// character from `from` on is in one of them.
pub proof fn law_words_are_the_maximal_runs(s: Seq<char>, gap: CharClass, from: int)
    requires
        0 <= from <= s.len(),
    ensures
        forall|k: int|
            #![trigger word_ranges(s, gap, from)[k]]
            0 <= k < word_ranges(s, gap, from).len() ==> {
                let r = word_ranges(s, gap, from)[k];
                &&& from <= r.0 < r.1 <= s.len()
                &&& forall|j: int| r.0 <= j < r.1 ==> !belongs(gap, #[trigger] s[j])
                &&& r.1 < s.len() ==> belongs(gap, s[r.1])
                &&& r.0 > from ==> belongs(gap, s[r.0 - 1])
            },
        forall|k: int|
            #![trigger word_ranges(s, gap, from)[k]]
            0 < k < word_ranges(s, gap, from).len() ==> word_ranges(s, gap, from)[k - 1].1
                < word_ranges(s, gap, from)[k].0,
        forall|j: int|
            from <= j < s.len() && !belongs(gap, #[trigger] s[j]) ==> exists|k: int|
                0 <= k < word_ranges(s, gap, from).len() && (#[trigger] word_ranges(s, gap, from)[k]).0
                    <= j < word_ranges(s, gap, from)[k].1,
    decreases s.len() - from,
{
    let a = run_end(s, gap, from);
    lemma_run_end(s, gap, from);
    if a < s.len() {
        let b = next_in(s, gap, a);
        lemma_next_in(s, gap, a);
        lemma_next_in(s, gap, a + 1);
        law_words_are_the_maximal_runs(s, gap, b);
        let rest = word_ranges(s, gap, b);
        let all = word_ranges(s, gap, from);
        assert(all =~= seq![(a, b)] + rest);
        assert forall|k: int| #![trigger all[k]] 0 <= k < all.len() implies {
            let r = all[k];
            &&& from <= r.0 < r.1 <= s.len()
            &&& forall|j: int| r.0 <= j < r.1 ==> !belongs(gap, #[trigger] s[j])
            &&& r.1 < s.len() ==> belongs(gap, s[r.1])
            &&& r.0 > from ==> belongs(gap, s[r.0 - 1])
        } by {
            if k > 0 {
                assert(all[k] == rest[k - 1]);
                if rest[k - 1].0 == b {
                    assert(belongs(gap, s[b]));
                }
            }
        }
        assert forall|k: int| #![trigger all[k]] 0 < k < all.len() implies all[k - 1].1
            < all[k].0 by {
            assert(all[k] == rest[k - 1]);
            if k == 1 {
                if rest[0].0 == b {
                    assert(belongs(gap, s[b]));
                }
            } else {
                assert(all[k - 1] == rest[k - 2]);
            }
        }
        assert forall|j: int| from <= j < s.len() && !belongs(gap, #[trigger] s[j]) implies exists|
            k: int,
        |
            0 <= k < all.len() && (#[trigger] all[k]).0 <= j < all[k].1 by {
            if j < b {
                assert(all[0].0 <= j < all[0].1);
            } else {
                let k = choose|k: int|
                    0 <= k < rest.len() && (#[trigger] rest[k]).0 <= j < rest[k].1;
                assert(all[k + 1] == rest[k]);
            }
        }
    }
}

/// Lower-casing changes the letters `A` to `Z` and nothing else.
pub proof fn law_lower_case_is_ascii(s: Seq<char>, i: int)
    requires
        0 <= i < s.len(),
    ensures
        ascii_lower(s).len() == s.len(),
        'A' <= s[i] <= 'Z' ==> ascii_lower(s)[i] as u32 == s[i] as u32 + 32,
        !('A' <= s[i] <= 'Z') ==> ascii_lower(s)[i] == s[i],
{
}

/// Nothing is left of a text exactly where all of it is in the class.
pub proof fn lemma_blank(s: Seq<char>, class: CharClass)
    ensures
        trim(s, class).len() == 0 <==> forall|i: int|
            0 <= i < s.len() ==> belongs(class, #[trigger] s[i]),
{
    law_trimming_drops_the_edges_only(s, class);
    let (a, b) = choose|a: int, b: int|
        {
            &&& 0 <= a <= b <= s.len()
            &&& trim(s, class) == #[trigger] s.subrange(a, b)
            &&& forall|i: int| 0 <= i < a ==> belongs(class, #[trigger] s[i])
            &&& forall|i: int| b <= i < s.len() ==> belongs(class, #[trigger] s[i])
            &&& a < b ==> !belongs(class, s[a]) && !belongs(class, s[b - 1])
        };
    if trim(s, class).len() == 0 {
        assert(a == b);
    }
}

proof fn lemma_run_end_prefix(s: Seq<char>, t: Seq<char>, class: CharClass, i: int)
    requires
        0 <= i <= s.len() <= t.len(),
        t.take(s.len() as int) == s,
        run_end(s, class, i) < s.len(),
    ensures
        run_end(t, class, i) == run_end(s, class, i),
    decreases s.len() - i,
{
    assert(t[i] == t.take(s.len() as int)[i]) by {
        lemma_run_end(s, class, i);
    }
    if i < s.len() && belongs(class, s[i]) {
        lemma_run_end_prefix(s, t, class, i + 1);
    }
}

proof fn lemma_next_in_prefix(s: Seq<char>, t: Seq<char>, class: CharClass, i: int)
    requires
        0 <= i <= s.len() < t.len(),
        t.take(s.len() as int) == s,
        belongs(class, t[s.len() as int]),
    ensures
        next_in(t, class, i) == next_in(s, class, i),
    decreases s.len() - i,
{
    if i < s.len() {
        assert(t[i] == t.take(s.len() as int)[i]);
        if !belongs(class, s[i]) {
            lemma_next_in_prefix(s, t, class, i + 1);
        }
    }
}

/// A word behind a gap character is one word more.
pub proof fn lemma_word_ranges_append(
    s: Seq<char>,
    gap: CharClass,
    c: char,
    word: Seq<char>,
    from: int,
)
    requires
        0 <= from <= s.len(),
        belongs(gap, c),
        word.len() > 0,
        forall|i: int| 0 <= i < word.len() ==> !belongs(gap, #[trigger] word[i]),
    ensures
        word_ranges(s.push(c) + word, gap, from) == word_ranges(s, gap, from).push(
            ((s.len() + 1) as int, (s.len() + 1 + word.len()) as int),
        ),
    decreases s.len() - from,
{
    let t = s.push(c) + word;
    let n = s.len() as int;
    assert(t.take(n) =~= s);
    let a = run_end(s, gap, from);
    lemma_run_end(s, gap, from);
    if a < n {
        lemma_run_end_prefix(s, t, gap, from);
        let b = next_in(s, gap, a);
        lemma_next_in(s, gap, a);
        lemma_next_in(s, gap, a + 1);
        lemma_next_in_prefix(s, t, gap, a);
        lemma_word_ranges_append(s, gap, c, word, b);
        assert(word_ranges(t, gap, from) =~= word_ranges(s, gap, from).push(
            (n + 1, n + 1 + word.len()),
        ));
    } else {
        assert forall|j: int| from <= j < n + 1 implies belongs(gap, #[trigger] t[j]) by {
            if j < n {
                assert(t[j] == s[j]);
            }
        }
        assert(t[n + 1] == word[0]);
        lemma_run_end_is(t, gap, from, n + 1);
        lemma_word_at_the_end(t, gap, n + 1);
        assert(word_ranges(t, gap, from) =~= seq![(n + 1, t.len() as int)]);
        assert(word_ranges(s, gap, from) =~= Seq::empty());
    }
}

/// One word from `a` to the end of the text.
pub proof fn lemma_word_at_the_end(t: Seq<char>, gap: CharClass, a: int)
    requires
        0 <= a < t.len(),
        forall|i: int| a <= i < t.len() ==> !belongs(gap, #[trigger] t[i]),
    ensures
        next_in(t, gap, a) == t.len(),
        word_ranges(t, gap, a) == seq![(a, t.len() as int)],
        word_ranges(t, gap, t.len() as int) == Seq::<(int, int)>::empty(),
    decreases t.len() - a,
{
    lemma_next_in(t, gap, a);
    lemma_run_end_is(t, gap, a, a);
    assert(next_in(t, gap, a) == t.len()) by {
        let b = next_in(t, gap, a);
        if b < t.len() {
            assert(belongs(gap, t[b]));
        }
    }
    lemma_run_end_is(t, gap, t.len() as int, t.len() as int);
    assert(word_ranges(t, gap, t.len() as int) =~= Seq::empty());
    assert(word_ranges(t, gap, a) =~= seq![(a, t.len() as int)]);
}

/// One word: a maximal run, behind the word before it.
pub proof fn lemma_one_word(s: Seq<char>, gap: CharClass, from: int, k: int)
    requires
        0 <= from <= s.len(),
        0 <= k < word_ranges(s, gap, from).len(),
    ensures
        ({
            let r = word_ranges(s, gap, from)[k];
            &&& from <= r.0 < r.1 <= s.len()
            &&& forall|j: int| r.0 <= j < r.1 ==> !belongs(gap, #[trigger] s[j])
            &&& r.1 < s.len() ==> belongs(gap, s[r.1])
            &&& r.0 > from ==> belongs(gap, s[r.0 - 1])
        }),
        k > 0 ==> word_ranges(s, gap, from)[k - 1].1 < word_ranges(s, gap, from)[k].0,
{
    law_words_are_the_maximal_runs(s, gap, from);
}

/// The word that a character stands in.
pub proof fn lemma_word_of(s: Seq<char>, gap: CharClass, from: int, j: int) -> (k: int)
    requires
        0 <= from <= j < s.len(),
        !belongs(gap, s[j]),
    ensures
        0 <= k < word_ranges(s, gap, from).len(),
        word_ranges(s, gap, from)[k].0 <= j < word_ranges(s, gap, from)[k].1,
{
    law_words_are_the_maximal_runs(s, gap, from);
    choose|k: int|
        0 <= k < word_ranges(s, gap, from).len() && (#[trigger] word_ranges(s, gap, from)[k]).0 <= j
            < word_ranges(s, gap, from)[k].1
}

pub proof fn lemma_join_first(first: Seq<char>, rest: Seq<Seq<char>>, sep: Seq<char>)
    requires
        rest.len() > 0,
    ensures
        join(seq![first] + rest, sep) == first + sep + join(rest, sep),
    decreases rest.len(),
{
    let all = seq![first] + rest;
    if rest.len() == 1 {
        assert(all.drop_last() =~= seq![first]);
        assert(join(all.drop_last(), sep) == first);
    } else {
        lemma_join_first(first, rest.drop_last(), sep);
        assert(all.drop_last() =~= seq![first] + rest.drop_last());
        assert(join(all, sep) =~= first + sep + join(rest, sep));
    }
}

/// Splitting takes the separators out and nothing else: the pieces, joined by the
/// separator, are the text again, and none of them holds the separator.
pub proof fn law_splitting_takes_the_separators_out(s: Seq<char>, sep: Seq<char>)
    requires
        sep.len() > 0,
    ensures
        split_on(s, sep).len() > 0,
        join(split_on(s, sep), sep) == s,
        forall|k: int, j: int|
            0 <= k < split_on(s, sep).len() ==> !#[trigger] word_at(split_on(s, sep)[k], j, sep),
    decreases s.len(),
{
    lemma_find_word(s, sep, 0);
    match find_word(s, sep, 0) {
        Some(i) => {
            let head = s.take(i);
            let rest = s.skip(i + sep.len());
            law_splitting_takes_the_separators_out(rest, sep);
            let tail = split_on(rest, sep);
            lemma_join_first(head, tail, sep);
            assert(s =~= head + s.subrange(i, i + sep.len()) + rest);
            let all = split_on(s, sep);
            assert(all == seq![head] + tail);
            assert forall|k: int, j: int| 0 <= k < all.len() implies !#[trigger] word_at(
                all[k],
                j,
                sep,
            ) by {
                if k == 0 {
                    if word_at(head, j, sep) {
                        assert(head.subrange(j, j + sep.len()) =~= s.subrange(j, j + sep.len()));
                        assert(word_at(s, j, sep));
                    }
                } else {
                    assert(all[k] == tail[k - 1]);
                }
            }
        },
        None => {
            assert forall|k: int, j: int| 0 <= k < split_on(s, sep).len() implies !#[trigger] word_at(
                split_on(s, sep)[k],
                j,
                sep,
            ) by {
                if j >= 0 {
                    assert(!word_at(s, j, sep));
                }
            }
        },
    }
}

/// The first piece ends where a separator first stands.
pub proof fn lemma_split_first(head: Seq<char>, c: char, rest: Seq<char>)
    requires
        forall|i: int| 0 <= i < head.len() ==> #[trigger] head[i] != c,
    ensures
        split_on(head, seq![c]) == seq![head],
        split_on(head + seq![c] + rest, seq![c]) == seq![head] + split_on(rest, seq![c]),
        find_word(head, seq![c], 0) is None,
        find_word(head + seq![c] + rest, seq![c], 0) == Some(head.len() as int),
{
    let s = head + seq![c] + rest;
    let w = seq![c];
    lemma_find_word(head, w, 0);
    if let Some(i) = find_word(head, w, 0) {
        assert(head.subrange(i, i + 1)[0] == head[i]);
    }
    lemma_find_word(s, w, 0);
    assert(word_at(s, head.len() as int, w)) by {
        assert(s.subrange(head.len() as int, head.len() as int + 1) =~= w);
    }
    assert(find_word(s, w, 0) == Some(head.len() as int)) by {
        match find_word(s, w, 0) {
            Some(i) => {
                if i < head.len() {
                    assert(s.subrange(i, i + 1)[0] == s[i]);
                    assert(s[i] == head[i]);
                }
                if i > head.len() {
                    assert(!word_at(s, head.len() as int, w));
                }
            },
            None => {
                assert(!word_at(s, head.len() as int, w));
            },
        }
    }
    assert(s.take(head.len() as int) =~= head);
    assert(s.skip(head.len() as int + 1) =~= rest);
}

/// Parts that do not hold a character are told apart again where it joins them.
pub proof fn law_joined_parts_are_split_again(parts: Seq<Seq<char>>, c: char)
    requires
        parts.len() > 0,
        forall|k: int, i: int|
            0 <= k < parts.len() && 0 <= i < parts[k].len() ==> #[trigger] parts[k][i] != c,
    ensures
        split_on(join(parts, seq![c]), seq![c]) == parts,
    decreases parts.len(),
{
    let first = parts[0];
    let rest = parts.skip(1);
    assert forall|i: int| 0 <= i < first.len() implies #[trigger] first[i] != c by {
        assert(parts[0][i] != c);
    }
    if parts.len() == 1 {
        lemma_split_first(first, c, first);
        assert(parts =~= seq![first]);
    } else {
        assert forall|k: int, i: int| 0 <= k < rest.len() && 0 <= i < rest[k].len() implies
            #[trigger] rest[k][i] != c by {
            assert(parts[k + 1][i] != c);
        }
        law_joined_parts_are_split_again(rest, c);
        lemma_join_first(first, rest, seq![c]);
        lemma_split_first(first, c, join(rest, seq![c]));
        assert(parts =~= seq![first] + rest);
    }
}

/// A letter is one of the ASCII letters.
pub proof fn law_letters_are_ascii(c: char)
    ensures
        is_letter(c) <==> 'a' <= c <= 'z' || 'A' <= c <= 'Z',
{
}

/// The classes of characters that paths and values are taken apart by.
pub proof fn law_classes_hold_these_characters(c: char)
    ensures
        belongs(CharClass::Separator, c) <==> c == '/' || c == '\\',
        belongs(CharClass::Backslash, c) <==> c == '\\',
        belongs(CharClass::Slash, c) <==> c == '/',
        belongs(CharClass::Nul, c) <==> c == '\0',
        belongs(CharClass::DotOrSpace, c) <==> c == '.' || c == ' ',
{
}

} // verus!
