//! Character tables for untrusted text: line breaks and invisible formatting.
use vstd::prelude::*;

verus! {

/// The seven characters that break a line wherever they stand.
pub open spec fn breaks_line(c: char) -> bool {
    let n = c as u32;
    ||| 0xA <= n <= 0xD
    ||| n == 0x85
    ||| n == 0x2028
    ||| n == 0x2029
}

/// Zero-width and bidirectional formatting, which makes a name look like
/// something other than what it holds.
pub open spec fn hides(c: char) -> bool {
    let n = c as u32;
    ||| n == 0xAD
    ||| n == 0x61C
    ||| 0x200B <= n <= 0x200F
    ||| 0x202A <= n <= 0x202E
    ||| 0x2060 <= n <= 0x2064
    ||| 0x2066 <= n <= 0x2069
    ||| n == 0xFEFF
}

pub fn is_mandatory_line_break(character: char) -> (r: bool)
    ensures
        r == breaks_line(character),
{
    let n: u32 = character as u32;
    (0xA <= n && n <= 0xD) || n == 0x85 || n == 0x2028 || n == 0x2029
}

pub fn is_invisible_format(character: char) -> (r: bool)
    ensures
        r == hides(character),
{
    let n: u32 = character as u32;
    n == 0xAD || n == 0x61C || (0x200B <= n && n <= 0x200F) || (0x202A <= n && n <= 0x202E) || (
    0x2060 <= n && n <= 0x2064) || (0x2066 <= n && n <= 0x2069) || n == 0xFEFF
}

/// No character is both a line break and invisible formatting.
pub proof fn law_breaks_and_formatting_are_apart(c: char)
    ensures
        !(breaks_line(c) && hides(c)),
{
}

/// The seven line breaks, one by one.
pub proof fn law_line_breaks_are_these_seven(c: char)
    ensures
        breaks_line(c) <==> c == '\n' || c == '\r' || c == '\u{b}' || c == '\u{c}' || c == '\u{85}'
            || c == '\u{2028}' || c == '\u{2029}',
{
}

/// The invisible characters, one by one.
pub proof fn law_invisible_characters_are_these(c: char)
    ensures
        hides(c) <==> c == '\u{ad}' || c == '\u{61c}' || c == '\u{200b}' || c == '\u{200c}' || c
            == '\u{200d}' || c == '\u{200e}' || c == '\u{200f}' || c == '\u{202a}' || c
            == '\u{202b}' || c == '\u{202c}' || c == '\u{202d}' || c == '\u{202e}' || c
            == '\u{2060}' || c == '\u{2061}' || c == '\u{2062}' || c == '\u{2063}' || c
            == '\u{2064}' || c == '\u{2066}' || c == '\u{2067}' || c == '\u{2068}' || c
            == '\u{2069}' || c == '\u{feff}',
{
}

} // verus!
