//! The names of temporary test folders.
use crate::numbers::{decimal, decimal_text, lemma_numbered_apart, wide_decimal_text};
use crate::text::{chars_of, find_text, find_word, is_separator, join, lemma_find_word, word_at};
use crate::wire::text7;
use vstd::prelude::*;

verus! {

/// A prefix that stays inside the folder it is put into: it has no separator and
/// no `..`.
pub open spec fn safe_prefix(prefix: Seq<char>) -> bool {
    &&& forall|i: int| 0 <= i < prefix.len() ==> !is_separator(#[trigger] prefix[i])
    &&& find_word(prefix, ".."@, 0) is None
}

/// Whether a prefix stays inside the folder it is put into; `temp_dir_name` takes
/// no other.
pub fn is_safe_prefix(prefix: &str) -> (r: bool)
    ensures
        r == safe_prefix(prefix@),
{
    let s = chars_of(prefix);
    let mut i: usize = 0;
    while i < s.len()
        invariant
            i <= s@.len(),
            s@ == prefix@,
            forall|k: int| 0 <= k < i ==> !is_separator(#[trigger] s@[k]),
        decreases s@.len() - i,
    {
        if s[i] == '/' || s[i] == '\\' {
            assert(is_separator(prefix@[i as int]));
            return false;
        }
        i = i + 1;
    }
    find_text(s.as_slice(), "..", 0).is_none()
}

/// A name of its own for each counter: the prefix, the process, the time and the
/// counter.
pub open spec fn test_dir_name(prefix: Seq<char>, pid: u32, nanos: u128, counter: u64) -> Seq<char> {
    prefix + "-"@ + decimal(pid as nat) + "-"@ + decimal(nanos as nat) + "-"@ + decimal(
        counter as nat,
    )
}

pub fn temp_dir_name(prefix: &str, pid: u32, nanos: u128, counter: u64) -> (r: String)
    requires
        safe_prefix(prefix@),
    ensures
        r@ == test_dir_name(prefix@, pid, nanos, counter),
{
    text7(
        prefix,
        "-",
        decimal_text(pid as u64).as_str(),
        "-",
        wide_decimal_text(nanos).as_str(),
        "-",
        decimal_text(counter).as_str(),
    )
}

/// Names with different counters differ, whatever the clock says.
pub proof fn law_names_differ_by_counter(
    prefix: Seq<char>,
    pid: u32,
    nanos: u128,
    first: u64,
    other_prefix: Seq<char>,
    other_pid: u32,
    other_nanos: u128,
    second: u64,
)
    requires
        first != second,
    ensures
        test_dir_name(prefix, pid, nanos, first) != test_dir_name(
            other_prefix,
            other_pid,
            other_nanos,
            second,
        ),
{
    reveal_strlit("-");
    let a = test_dir_name(prefix, pid, nanos, first);
    let b = test_dir_name(other_prefix, other_pid, other_nanos, second);
    let x = decimal(first as nat);
    let y = decimal(second as nat);
    assert(a =~= a.take(a.len() - x.len() - 1) + seq!['-'] + x);
    assert(b =~= b.take(b.len() - y.len() - 1) + seq!['-'] + y);
    lemma_numbered_apart(
        a.take(a.len() - x.len() - 1),
        first as nat,
        b.take(b.len() - y.len() - 1),
        second as nat,
        '-',
        10,
    );
}

/// A prefix is safe exactly where it has no slash, no backslash and no two dots in
/// a row.
pub proof fn law_safe_prefixes_stay_in_their_folder(prefix: Seq<char>, i: int)
    ensures
        0 <= i < prefix.len() && (prefix[i] == '/' || prefix[i] == '\\') ==> !safe_prefix(prefix),
        0 <= i < prefix.len() - 1 && prefix[i] == '.' && prefix[i + 1] == '.' ==> !safe_prefix(
            prefix,
        ),
        (forall|j: int|
            0 <= j < prefix.len() ==> #[trigger] prefix[j] != '/' && prefix[j] != '\\' && !(prefix[j]
                == '.' && j + 1 < prefix.len() && prefix[j + 1] == '.')) ==> safe_prefix(prefix),
{
    reveal_strlit("..");
    lemma_find_word(prefix, ".."@, 0);
    if 0 <= i < prefix.len() - 1 && prefix[i] == '.' && prefix[i + 1] == '.' {
        assert(prefix.subrange(i, i + 2) =~= ".."@);
        assert(word_at(prefix, i, ".."@));
    }
    if let Some(j) = find_word(prefix, ".."@, 0) {
        assert(prefix.subrange(j, j + 2)[0] == prefix[j]);
        assert(prefix.subrange(j, j + 2)[1] == prefix[j + 1]);
        assert(prefix[j] == '.' && prefix[j + 1] == '.');
    }
}

/// A name is its prefix, the process, the time and the counter, with hyphens
/// between them.
pub proof fn law_names_are_made_of_their_parts(prefix: Seq<char>, pid: u32, nanos: u128, counter: u64)
    ensures
        test_dir_name(prefix, pid, nanos, counter) == join(
            seq![prefix, decimal(pid as nat), decimal(nanos as nat), decimal(counter as nat)],
            "-"@,
        ),
{
    let parts = seq![prefix, decimal(pid as nat), decimal(nanos as nat), decimal(counter as nat)];
    let three = parts.drop_last();
    let two = three.drop_last();
    let one = two.drop_last();
    assert(one =~= seq![prefix]);
    assert(join(one, "-"@) == prefix);
    assert(join(two, "-"@) == prefix + "-"@ + decimal(pid as nat));
    assert(join(three, "-"@) == join(two, "-"@) + "-"@ + decimal(nanos as nat));
}

} // verus!
