//! Numbers in writing.
use crate::text::{all_digits, decimal_value, is_digit, unsigned};
use vstd::arithmetic::div_mod::{
    lemma_div_decreases, lemma_fundamental_div_mod, lemma_fundamental_div_mod_converse,
};
use vstd::prelude::*;

verus! {

/// The character for a digit: `0` to `9`, then `a` to `f`.
pub open spec fn digit_char(d: nat) -> char {
    if d < 10 {
        (48 + d) as u8 as char
    } else {
        (87 + d) as u8 as char
    }
}

/// A number in base `base`, without leading zeros.
pub open spec fn in_base(n: nat, base: nat) -> Seq<char>
    recommends
        2 <= base <= 16,
    decreases n,
{
    if base < 2 || n < base {
        seq![digit_char(n)]
    } else {
        proof {
            lemma_div_decreases(n as int, base as int);
        }
        in_base(n / base, base).push(digit_char(n % base))
    }
}

/// A number in decimal.
pub open spec fn decimal(n: nat) -> Seq<char> {
    in_base(n, 10)
}

/// A number in lower-case hexadecimal.
pub open spec fn hex(n: nat) -> Seq<char> {
    in_base(n, 16)
}

fn digit(d: u128) -> (r: char)
    requires
        d < 16,
    ensures
        r == digit_char(d as nat),
{
    if d < 10 {
        (48 + d) as u8 as char
    } else {
        (87 + d) as u8 as char
    }
}

fn write_in_base(n: u128, base: u128, out: &mut String)
    requires
        2 <= base <= 16,
    ensures
        final(out)@ == old(out)@ + in_base(n as nat, base as nat),
    decreases n,
{
    if n < base {
        out.push(digit(n));
        assert(out@ =~= old(out)@ + in_base(n as nat, base as nat));
    } else {
        proof {
            lemma_div_decreases(n as int, base as int);
        }
        write_in_base(n / base, base, out);
        out.push(digit(n % base));
        assert(out@ =~= old(out)@ + in_base(n as nat, base as nat));
    }
}

/// The decimal writing of a number.
pub fn decimal_text(n: u64) -> (r: String)
    ensures
        r@ == decimal(n as nat),
{
    let mut r = String::new();
    write_in_base(n as u128, 10, &mut r);
    assert(r@ =~= decimal(n as nat));
    r
}

/// The decimal writing of a large number.
pub fn wide_decimal_text(n: u128) -> (r: String)
    ensures
        r@ == decimal(n as nat),
{
    let mut r = String::new();
    write_in_base(n, 10, &mut r);
    assert(r@ =~= decimal(n as nat));
    r
}

/// The hexadecimal writing of a number.
pub fn hex_text(n: u64) -> (r: String)
    ensures
        r@ == hex(n as nat),
{
    let mut r = String::new();
    write_in_base(n as u128, 16, &mut r);
    assert(r@ =~= hex(n as nat));
    r
}

/// Only digits occur in a number's writing.
pub proof fn lemma_only_digits(n: nat, base: nat)
    requires
        2 <= base <= 16,
    ensures
        in_base(n, base).len() > 0,
        forall|i: int|
            0 <= i < in_base(n, base).len() ==> ('0' <= #[trigger] in_base(n, base)[i] <= '9' || 'a'
                <= in_base(n, base)[i] <= 'f'),
    decreases n,
{
    if n >= base {
        lemma_div_decreases(n as int, base as int);
        lemma_only_digits(n / base, base);
    }
}

proof fn lemma_digit_injective(a: nat, b: nat)
    requires
        a < 16,
        b < 16,
        digit_char(a) == digit_char(b),
    ensures
        a == b,
{
    assert(digit_char(a) as u32 == if a < 10 {
        48 + a
    } else {
        87 + a
    });
    assert(digit_char(b) as u32 == if b < 10 {
        48 + b
    } else {
        87 + b
    });
}

/// Two numbers with the same writing are the same number.
pub proof fn lemma_in_base_injective(m: nat, n: nat, base: nat)
    requires
        2 <= base <= 16,
        in_base(m, base) == in_base(n, base),
    ensures
        m == n,
    decreases m,
{
    lemma_only_digits(m, base);
    lemma_only_digits(n, base);
    if m < base && n < base {
        assert(in_base(m, base)[0] == digit_char(m));
        assert(in_base(n, base)[0] == digit_char(n));
        lemma_digit_injective(m, n);
    } else if m < base {
        lemma_only_digits(n / base, base);
        assert(in_base(n, base).len() >= 2);
    } else if n < base {
        lemma_only_digits(m / base, base);
        assert(in_base(m, base).len() >= 2);
    } else {
        let a = in_base(m / base, base);
        let b = in_base(n / base, base);
        assert(in_base(m, base).drop_last() =~= a);
        assert(in_base(n, base).drop_last() =~= b);
        assert(in_base(m, base).last() == digit_char(m % base));
        assert(in_base(n, base).last() == digit_char(n % base));
        lemma_div_decreases(m as int, base as int);
        lemma_in_base_injective(m / base, n / base, base);
        lemma_digit_injective(m % base, n % base);
        lemma_fundamental_div_mod(m as int, base as int);
        lemma_fundamental_div_mod(n as int, base as int);
    }
}

/// Texts that end in a mark and different numbers differ, whatever stands before
/// the mark; the mark itself is no digit.
pub proof fn lemma_numbered_apart(
    first: Seq<char>,
    m: nat,
    second: Seq<char>,
    n: nat,
    mark: char,
    base: nat,
)
    requires
        2 <= base <= 16,
        m != n,
        !('0' <= mark <= '9'),
        !('a' <= mark <= 'f'),
    ensures
        first + seq![mark] + in_base(m, base) != second + seq![mark] + in_base(n, base),
{
    let x = in_base(m, base);
    let y = in_base(n, base);
    let a = first + seq![mark] + x;
    let b = second + seq![mark] + y;
    lemma_only_digits(m, base);
    lemma_only_digits(n, base);
    if a == b {
        assert(a[a.len() - x.len() - 1] == mark);
        assert(b[b.len() - y.len() - 1] == mark);
        if x.len() < y.len() {
            assert(b[b.len() - x.len() - 1] == y[y.len() - x.len() - 1]);
        } else if y.len() < x.len() {
            assert(a[a.len() - y.len() - 1] == x[x.len() - y.len() - 1]);
        } else {
            assert(x =~= y) by {
                assert forall|i: int| 0 <= i < x.len() implies x[i] == y[i] by {
                    assert(a[a.len() - x.len() + i] == x[i]);
                    assert(b[b.len() - y.len() + i] == y[i]);
                }
            }
            lemma_in_base_injective(m, n, base);
        }
    }
}

/// A decimal writing has only digits, reads back as the number it writes, and
/// has no leading zero but for zero itself.
pub proof fn law_decimals_read_back(n: nat)
    ensures
        all_digits(decimal(n)),
        decimal_value(decimal(n)) == n,
        n > 0 ==> decimal(n)[0] != '0',
    decreases n,
{
    let d = digit_char(n % 10);
    assert(digit_char(n % 10) as u32 == 48 + n % 10);
    if n < 10 {
        assert(digit_char(n) as u32 == 48 + n);
        assert(decimal(n).drop_last() =~= Seq::empty());
        reveal_with_fuel(decimal_value, 2);
    } else {
        lemma_div_decreases(n as int, 10);
        law_decimals_read_back(n / 10);
        assert(decimal(n).drop_last() =~= decimal(n / 10));
        assert(decimal(n)[0] == decimal(n / 10)[0]);
        lemma_fundamental_div_mod(n as int, 10);
        assert forall|i: int| 0 <= i < decimal(n).len() implies is_digit(#[trigger] decimal(n)[i]) by {
            if i < decimal(n / 10).len() {
                assert(decimal(n)[i] == decimal(n / 10)[i]);
            }
        }
    }
}

/// A decimal writing grows by one digit at its end, which is one of the ten.
pub proof fn law_decimals_are_written_in_base_ten(n: nat, d: nat)
    requires
        d < 10,
    ensures
        ({
            let digit = seq!['0', '1', '2', '3', '4', '5', '6', '7', '8', '9'][d as int];
            &&& decimal(d) == seq![digit]
            &&& n > 0 ==> decimal(n * 10 + d) == decimal(n).push(digit)
        }),
{
    let digits = seq!['0', '1', '2', '3', '4', '5', '6', '7', '8', '9'];
    assert(digit_char(d) == digits[d as int]) by {
        assert(digit_char(0) == '0' && digit_char(1) == '1' && digit_char(2) == '2' && digit_char(3)
            == '3' && digit_char(4) == '4' && digit_char(5) == '5' && digit_char(6) == '6'
            && digit_char(7) == '7' && digit_char(8) == '8' && digit_char(9) == '9');
    }
    if n > 0 {
        let m = n * 10 + d;
        lemma_fundamental_div_mod_converse(m as int, 10, n as int, d as int);
        assert(m / 10 == n && m % 10 == d);
        assert(decimal(m) =~= decimal(n).push(digits[d as int]));
    }
}

/// An unsigned number is read from its digits, with at most one `+` before them;
/// one over the limit is none, and neither is a text with any other character.
pub proof fn law_unsigned_numbers_are_read_from_digits(n: nat, max: nat, s: Seq<char>, i: int)
    ensures
        n <= max ==> unsigned(decimal(n), max) == Some(n) && unsigned(
            seq!['+'] + decimal(n),
            max,
        ) == Some(n),
        n > max ==> unsigned(decimal(n), max) is None && unsigned(
            seq!['+'] + decimal(n),
            max,
        ) is None,
        unsigned(Seq::empty(), max) is None,
        0 <= i < s.len() && !('0' <= s[i] <= '9') && (i > 0 || s[i] != '+' || s.len() == 1)
            ==> unsigned(s, max) is None,
{
    law_decimals_read_back(n);
    assert(is_digit(decimal(n)[0]));
    let signed = seq!['+'] + decimal(n);
    assert(signed.skip(1) =~= decimal(n));
    if 0 <= i < s.len() && !('0' <= s[i] <= '9') && (i > 0 || s[i] != '+' || s.len() == 1) {
        if s.len() > 1 && s[0] == '+' {
            assert(s.skip(1)[i - 1] == s[i]);
            assert(!is_digit(s.skip(1)[i - 1]));
        } else {
            assert(!is_digit(s[i]));
        }
    }
}

/// A hexadecimal writing grows by one digit at its end, which is one of the
/// sixteen, in lower case.
pub proof fn law_hexadecimals_are_written_in_lower_case(n: nat, d: nat)
    requires
        d < 16,
    ensures
        ({
            let digit = seq![
                '0',
                '1',
                '2',
                '3',
                '4',
                '5',
                '6',
                '7',
                '8',
                '9',
                'a',
                'b',
                'c',
                'd',
                'e',
                'f',
            ][d as int];
            &&& hex(d) == seq![digit]
            &&& n > 0 ==> hex(n * 16 + d) == hex(n).push(digit)
        }),
{
    assert(digit_char(0) == '0' && digit_char(1) == '1' && digit_char(2) == '2' && digit_char(3)
        == '3' && digit_char(4) == '4' && digit_char(5) == '5' && digit_char(6) == '6' && digit_char(
        7,
    ) == '7' && digit_char(8) == '8' && digit_char(9) == '9' && digit_char(10) == 'a' && digit_char(
        11,
    ) == 'b' && digit_char(12) == 'c' && digit_char(13) == 'd' && digit_char(14) == 'e'
        && digit_char(15) == 'f');
    if n > 0 {
        let m = n * 16 + d;
        lemma_fundamental_div_mod_converse(m as int, 16, n as int, d as int);
        assert(m / 16 == n && m % 16 == d);
        assert(hex(m) =~= hex(n).push(digit_char(d)));
    }
}

} // verus!
