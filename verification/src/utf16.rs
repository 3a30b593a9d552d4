//! Text in UTF-16 code units, as Windows counts and stores it.
use crate::text::chars_of;
use vstd::prelude::*;
use vstd::utf8::{char_u32_cast, is_scalar};

verus! {

/// The code units of one character: itself, or a surrogate pair.
pub open spec fn units(c: char) -> Seq<u16> {
    if c as u32 <= 0xFFFF {
        seq![c as u16]
    } else {
        seq![
            (0xD800 + (c as u32 - 0x10000) / 0x400) as u16,
            (0xDC00 + (c as u32 - 0x10000) % 0x400) as u16,
        ]
    }
}

/// The code units of a text.
pub open spec fn encode_utf16(s: Seq<char>) -> Seq<u16>
    decreases s.len(),
{
    if s.len() == 0 {
        Seq::empty()
    } else {
        encode_utf16(s.drop_last()) + units(s.last())
    }
}

/// The number of code units that a text takes.
pub open spec fn utf16_len(s: Seq<char>) -> nat {
    encode_utf16(s).len()
}

/// The code units of a text.
pub fn encoded(s: &[char]) -> (r: Vec<u16>)
    ensures
        r@ == encode_utf16(s@),
{
    let mut r: Vec<u16> = Vec::new();
    let mut i: usize = 0;
    while i < s.len()
        invariant
            i <= s@.len(),
            r@ == encode_utf16(s@.take(i as int)),
        decreases s@.len() - i,
    {
        let n: u32 = s[i] as u32;
        if n <= 0xFFFF {
            r.push(s[i] as u16);
        } else {
            proof {
                vstd::utf8::char_is_scalar(s@[i as int]);
            }
            r.push((0xD800 + (n - 0x10000) / 0x400) as u16);
            r.push((0xDC00 + (n - 0x10000) % 0x400) as u16);
        }
        i = i + 1;
        assert(s@.take(i as int).drop_last() =~= s@.take(i - 1));
        assert(r@ =~= encode_utf16(s@.take(i as int)));
    }
    assert(s@.take(i as int) =~= s@);
    r
}

/// A code unit that begins a surrogate pair.
pub open spec fn is_high(u: u16) -> bool {
    0xD800 <= u <= 0xDBFF
}

/// A code unit that ends a surrogate pair.
pub open spec fn is_low(u: u16) -> bool {
    0xDC00 <= u <= 0xDFFF
}

/// The character of a surrogate pair.
pub open spec fn paired(high: u16, low: u16) -> char {
    (0x10000 + (high - 0xD800) * 0x400 + (low - 0xDC00)) as u32 as char
}

/// The text of code units, with U+FFFD for a surrogate that stands alone.
pub open spec fn decode_utf16_lossy(v: Seq<u16>) -> Seq<char>
    decreases v.len(),
{
    if v.len() == 0 {
        Seq::empty()
    } else if is_high(v[0]) && v.len() > 1 && is_low(v[1]) {
        seq![paired(v[0], v[1])] + decode_utf16_lossy(v.skip(2))
    } else if is_high(v[0]) || is_low(v[0]) {
        seq!['\u{FFFD}'] + decode_utf16_lossy(v.skip(1))
    } else {
        seq![v[0] as u32 as char] + decode_utf16_lossy(v.skip(1))
    }
}

/// `char::from_u32`: the character with a code point, where it is a Unicode
/// scalar value.
pub assume_specification[ char::from_u32 ](i: u32) -> (r: Option<char>)
    ensures
        r is Some == is_scalar(i),
        r matches Some(c) ==> c as u32 == i,
;

fn char_of(n: u32) -> (r: char)
    requires
        is_scalar(n),
    ensures
        r == n as char,
{
    match char::from_u32(n) {
        Some(c) => {
            proof {
                char_u32_cast(c, n);
            }
            c
        },
        None => '\u{FFFD}',
    }
}

/// Reads code units as text; a surrogate that stands alone becomes U+FFFD.
pub fn decoded_lossy(v: &[u16]) -> (r: Vec<char>)
    ensures
        r@ == decode_utf16_lossy(v@),
{
    let mut r: Vec<char> = Vec::new();
    let mut i: usize = 0;
    assert(v@.skip(0) =~= v@);
    assert(r@ + decode_utf16_lossy(v@) =~= decode_utf16_lossy(v@));
    while i < v.len()
        invariant
            i <= v@.len(),
            decode_utf16_lossy(v@) == r@ + decode_utf16_lossy(v@.skip(i as int)),
        decreases v@.len() - i,
    {
        let ghost rest = v@.skip(i as int);
        let ghost before = r@;
        let u: u16 = v[i];
        assert(rest[0] == u);
        if 0xD800 <= u && u <= 0xDBFF && i + 1 < v.len() && 0xDC00 <= v[i + 1] && v[i + 1] <= 0xDFFF {
            let low: u16 = v[i + 1];
            assert(rest[1] == low);
            let n: u32 = 0x10000 + (u as u32 - 0xD800) * 0x400 + (low as u32 - 0xDC00);
            r.push(char_of(n));
            assert(rest.skip(2) =~= v@.skip(i + 2));
            assert(r@ + decode_utf16_lossy(v@.skip(i + 2)) =~= before + (seq![paired(u, low)]
                + decode_utf16_lossy(rest.skip(2))));
            i = i + 2;
        } else {
            assert(rest.skip(1) =~= v@.skip(i + 1));
            if 0xD800 <= u && u <= 0xDFFF {
                r.push('\u{FFFD}');
                assert(r@ + decode_utf16_lossy(v@.skip(i + 1)) =~= before + (seq!['\u{FFFD}']
                    + decode_utf16_lossy(rest.skip(1))));
            } else {
                r.push(char_of(u as u32));
                assert(r@ + decode_utf16_lossy(v@.skip(i + 1)) =~= before + (seq![
                    u as u32 as char,
                ] + decode_utf16_lossy(rest.skip(1))));
            }
            i = i + 1;
        }
    }
    assert(v@.skip(i as int).len() == 0);
    assert(r@ =~= decode_utf16_lossy(v@));
    r
}

proof fn lemma_encode_first(s: Seq<char>)
    requires
        s.len() > 0,
    ensures
        encode_utf16(s) == units(s[0]) + encode_utf16(s.skip(1)),
    decreases s.len(),
{
    if s.len() == 1 {
        assert(s.drop_last() =~= Seq::<char>::empty());
        assert(s.skip(1) =~= Seq::<char>::empty());
        assert(encode_utf16(s) =~= units(s[0]) + encode_utf16(s.skip(1)));
    } else {
        lemma_encode_first(s.drop_last());
        assert(s.drop_last().skip(1) =~= s.skip(1).drop_last());
        assert(encode_utf16(s) =~= units(s[0]) + encode_utf16(s.skip(1)));
    }
}

/// Text survives the way to code units and back.
pub proof fn law_utf16_round_trip(s: Seq<char>)
    ensures
        decode_utf16_lossy(encode_utf16(s)) == s,
    decreases s.len(),
{
    if s.len() > 0 {
        let c = s[0];
        let n = c as u32;
        let rest = encode_utf16(s.skip(1));
        let v = encode_utf16(s);
        lemma_encode_first(s);
        law_utf16_round_trip(s.skip(1));
        vstd::utf8::char_is_scalar(c);
        char_u32_cast(c, n);
        assert(s =~= seq![c] + s.skip(1));
        if n <= 0xFFFF {
            assert(v[0] == n as u16);
            assert(v.skip(1) =~= rest);
        } else {
            let x = n - 0x10000;
            assert(v[0] == (0xD800 + x / 0x400) as u16);
            assert(v[1] == (0xDC00 + x % 0x400) as u16);
            assert(v.skip(2) =~= rest);
            assert(x / 0x400 < 0x400);
            assert((v[0] - 0xD800) * 0x400 + (v[1] - 0xDC00) == x);
            assert(paired(v[0], v[1]) == c);
        }
    } else {
        assert(s =~= Seq::<char>::empty());
    }
}

/// A text in code units with a terminating NUL, as the system's calls take it.
pub fn wide(value: &str) -> (r: Vec<u16>)
    ensures
        r@ == encode_utf16(value@).push(0),
{
    let chars = chars_of(value);
    let mut r = encoded(chars.as_slice());
    r.push(0);
    r
}

/// A text takes one unit for each character of the basic plane and two for each
/// other one.
pub proof fn law_units_are_counted_by_character(first: Seq<char>, c: char)
    ensures
        utf16_len(Seq::empty()) == 0,
        utf16_len(first.push(c)) == utf16_len(first) + if c as u32 <= 0xFFFF {
            1int
        } else {
            2int
        },
        c as u32 <= 0xFFFF ==> encode_utf16(first.push(c)).last() as u32 == c as u32,
{
    assert(first.push(c).drop_last() =~= first);
}

/// Units are read from the front: two that pair make one character, one that has
/// no partner becomes the replacement character alone, and any other is a
/// character by itself.
pub proof fn law_units_without_a_partner_are_replaced(u: u16, v: Seq<u16>)
    ensures
        ({
            let read = decode_utf16_lossy(seq![u] + v);
            let high = 0xD800 <= u <= 0xDBFF;
            let low = 0xDC00 <= u <= 0xDFFF;
            let partner = v.len() > 0 && 0xDC00 <= v[0] <= 0xDFFF;
            &&& high && partner ==> read.len() > 0 && read[0] as u32 == 0x10000 + (u - 0xD800)
                * 0x400 + (v[0] - 0xDC00) && read.skip(1) == decode_utf16_lossy(v.skip(1))
            &&& low || (high && !partner) ==> read == seq!['\u{FFFD}'] + decode_utf16_lossy(v)
            &&& !high && !low ==> read.len() > 0 && read[0] as u32 == u && read.skip(1)
                == decode_utf16_lossy(v)
        }),
        decode_utf16_lossy(Seq::empty()).len() == 0,
{
    let all = seq![u] + v;
    assert(all[0] == u);
    assert(all.skip(1) =~= v);
    if v.len() > 0 {
        assert(all[1] == v[0]);
        assert(all.skip(2) =~= v.skip(1));
    }
    let read = decode_utf16_lossy(all);
    if 0xD800 <= u <= 0xDBFF && v.len() > 0 && 0xDC00 <= v[0] <= 0xDFFF {
        assert(read.skip(1) =~= decode_utf16_lossy(v.skip(1)));
    }
    if !(0xD800 <= u <= 0xDFFF) {
        assert(read.skip(1) =~= decode_utf16_lossy(v));
    }
}

} // verus!
