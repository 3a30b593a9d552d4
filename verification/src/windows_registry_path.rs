//! Reading the machine and user `Path` values of the Windows registry.
//!
//! A read that failed says why: a value that could not be read is never taken
//! for an empty one. The registry's calls are made outside; each call here says
//! what is known so far and gets back the one thing to do next.
use crate::numbers::{decimal, decimal_text};
use crate::text::{
    chars_of, law_end_trimming_drops_the_end_only, text_of, trim_end, trimmed_end, words_of,
    CharClass,
};
use crate::utf16::{decode_utf16_lossy, decoded_lossy};
use crate::wire::{text3, text_view};
use vstd::prelude::*;
use vstd::slice::slice_subrange;

verus! {

/// Where the machine's environment stands in the registry.
pub const MACHINE_ENVIRONMENT_SUBKEY: &'static str =
    "SYSTEM\\CurrentControlSet\\Control\\Session Manager\\Environment";

/// Where the user's environment stands in the registry.
pub const USER_ENVIRONMENT_SUBKEY: &'static str = "Environment";

/// The name of the value.
pub const PATH_VALUE_NAME: &'static str = "Path";

/// The registry's type of a text.
pub const REG_SZ: u32 = 1;

/// The registry's type of a text with environment variables in it.
pub const REG_EXPAND_SZ: u32 = 2;

/// Why a value could not be read.
#[derive(Clone, Copy, Debug, PartialEq, Eq, Structural)]
pub enum RegistryPathError {
    /// The operating system's error code.
    Win32(u32),
    EmptyValue,
    UnexpectedType(u32),
}

/// The reason in words.
pub open spec fn path_error_text(e: RegistryPathError) -> Seq<char> {
    match e {
        RegistryPathError::Win32(code) => "error "@ + decimal(code as nat),
        RegistryPathError::EmptyValue => "empty value"@,
        RegistryPathError::UnexpectedType(kind) => "unexpected type "@ + decimal(kind as nat),
    }
}

impl RegistryPathError {
    pub fn message(&self) -> (r: String)
        ensures
            r@ == path_error_text(*self),
    {
        match self {
            RegistryPathError::Win32(code) => {
                let mut r = "error ".to_owned();
                r.append(decimal_text(*code as u64).as_str());
                r
            },
            RegistryPathError::EmptyValue => "empty value".to_owned(),
            RegistryPathError::UnexpectedType(kind) => {
                let mut r = "unexpected type ".to_owned();
                r.append(decimal_text(*kind as u64).as_str());
                r
            },
        }
    }
}

/// One `Path` value, its variables expanded, or why it was not read.
#[derive(Debug, PartialEq, Eq)]
pub enum RegistryPathRead {
    Read(String),
    Failed(RegistryPathError),
}

/// `RegistryPathRead` over the characters of its text.
pub ghost enum PathReadView {
    Read(Seq<char>),
    Failed(RegistryPathError),
}

impl View for RegistryPathRead {
    type V = PathReadView;

    open spec fn view(&self) -> PathReadView {
        match self {
            RegistryPathRead::Read(t) => PathReadView::Read(t@),
            RegistryPathRead::Failed(e) => PathReadView::Failed(*e),
        }
    }
}

/// The entries of a `PATH` value. They are separated by `;`; quotes protect what
/// stands between them and are dropped.
pub open spec fn path_list_from(s: Seq<char>, quoted: bool, current: Seq<char>) -> Seq<Seq<char>>
    decreases s.len(),
{
    if s.len() == 0 {
        seq![current]
    } else if s[0] == '"' {
        path_list_from(s.skip(1), !quoted, current)
    } else if s[0] == ';' && !quoted {
        seq![current] + path_list_from(s.skip(1), false, Seq::empty())
    } else {
        path_list_from(s.skip(1), quoted, current.push(s[0]))
    }
}

pub open spec fn path_list(s: Seq<char>) -> Seq<Seq<char>> {
    path_list_from(s, false, Seq::empty())
}

/// The entries of a `PATH` value, empty ones included.
pub fn split_paths(s: &[char]) -> (r: Vec<Vec<char>>)
    ensures
        words_of(r@) == path_list(s@),
{
    let mut r: Vec<Vec<char>> = Vec::new();
    let mut current: Vec<char> = Vec::new();
    let mut quoted = false;
    let mut i: usize = 0;
    assert(s@.skip(0) =~= s@);
    assert(current@ =~= Seq::<char>::empty());
    assert(words_of(r@) + path_list(s@) =~= path_list(s@));
    while i < s.len()
        invariant
            i <= s@.len(),
            path_list(s@) == words_of(r@) + path_list_from(s@.skip(i as int), quoted, current@),
        decreases s@.len() - i,
    {
        let ghost rest = s@.skip(i as int);
        assert(rest[0] == s@[i as int]);
        assert(rest.skip(1) =~= s@.skip(i + 1));
        let c = s[i];
        if c == '"' {
            quoted = !quoted;
        } else if c == ';' && !quoted {
            let ghost before = r@;
            let ghost entry = current@;
            r.push(current);
            current = Vec::new();
            assert(current@ =~= Seq::<char>::empty());
            assert(words_of(r@) =~= words_of(before).push(entry));
            assert(words_of(r@) + path_list_from(rest.skip(1), false, Seq::empty()) =~= words_of(
                before,
            ) + (seq![entry] + path_list_from(rest.skip(1), false, Seq::empty())));
        } else {
            current.push(c);
        }
        i = i + 1;
    }
    let ghost before = r@;
    let ghost entry = current@;
    r.push(current);
    assert(words_of(r@) =~= words_of(before) + seq![entry]);
    r
}

/// The number of entries that are not empty.
pub open spec fn filled_entries(list: Seq<Seq<char>>) -> nat
    decreases list.len(),
{
    if list.len() == 0 {
        0
    } else if list.last().len() == 0 {
        filled_entries(list.drop_last())
    } else {
        filled_entries(list.drop_last()) + 1
    }
}

/// The line for the diagnostics: how many entries were read, or why none was.
/// The value itself is not spelled out.
pub open spec fn outcome_line(read: PathReadView, label: Seq<char>) -> Seq<char> {
    match read {
        PathReadView::Read(value) => label + ": read, "@ + decimal(filled_entries(path_list(value)))
            + " entries"@,
        PathReadView::Failed(error) => label + ": not read: "@ + path_error_text(error),
    }
}

impl RegistryPathRead {
    /// The value, when it was read.
    pub fn value(&self) -> (r: Option<&str>)
        ensures
            r is Some == (self is Read),
            r matches Some(t) ==> self@ == PathReadView::Read(t@),
    {
        match self {
            RegistryPathRead::Read(t) => Some(t.as_str()),
            RegistryPathRead::Failed(_) => None,
        }
    }

    /// The line for the diagnostics.
    pub fn describe(&self, label: &str) -> (r: String)
        ensures
            r@ == outcome_line(self@, label@),
    {
        match self {
            RegistryPathRead::Read(value) => {
                let chars = chars_of(value.as_str());
                let list = split_paths(chars.as_slice());
                let ghost all = words_of(list@);
                let mut n: usize = 0;
                let mut i: usize = 0;
                while i < list.len()
                    invariant
                        i <= list@.len(),
                        all == words_of(list@),
                        n == filled_entries(all.take(i as int)),
                        n <= i,
                    decreases list@.len() - i,
                {
                    assert(all.take(i + 1).drop_last() =~= all.take(i as int));
                    assert(all[i as int] == list@[i as int]@);
                    if list[i].len() > 0 {
                        n = n + 1;
                    }
                    i = i + 1;
                }
                assert(all.take(i as int) =~= all);
                let mut r = text3(label, ": read, ", decimal_text(n as u64).as_str());
                r.append(" entries");
                r
            },
            RegistryPathRead::Failed(error) => text3(
                label,
                ": not read: ",
                error.message().as_str(),
            ),
        }
    }
}

/// What a query for the value's size gave.
#[derive(Clone, Copy, Debug)]
pub struct SizeAnswer {
    pub status: u32,
    pub kind: u32,
    pub bytes: u32,
}

/// What a query for the value gave.
#[derive(Debug)]
pub struct ValueAnswer {
    pub status: u32,
    pub kind: u32,
    /// The bytes that the system says it wrote.
    pub size: u32,
    pub buffer: Vec<u8>,
}

/// What is known so far of a value.
#[derive(Debug)]
pub struct RegistryFacts {
    /// The status of opening the key.
    pub opened: Option<u32>,
    pub sized: Option<SizeAnswer>,
    pub fetched: Option<ValueAnswer>,
    /// The value with its variables expanded; nothing where that failed.
    pub expanded: Option<Option<String>>,
}

/// What a read does next.
#[derive(Debug)]
pub enum RegistryStep {
    OpenKey,
    QuerySize,
    /// Query the value into a buffer of this many bytes.
    QueryValue { bytes: u32, buffer_len: u64 },
    /// Expand the environment variables in the text.
    Expand { text: String },
    /// Nothing: this is the answer.
    Done(RegistryPathRead),
}

/// `RegistryStep` over the characters of its texts.
pub ghost enum RegistryStepView {
    OpenKey,
    QuerySize,
    QueryValue { bytes: u32, buffer_len: u64 },
    Expand { text: Seq<char> },
    Done(PathReadView),
}

impl View for RegistryStep {
    type V = RegistryStepView;

    open spec fn view(&self) -> RegistryStepView {
        match self {
            RegistryStep::OpenKey => RegistryStepView::OpenKey,
            RegistryStep::QuerySize => RegistryStepView::QuerySize,
            RegistryStep::QueryValue { bytes, buffer_len } => RegistryStepView::QueryValue {
                bytes: *bytes,
                buffer_len: *buffer_len,
            },
            RegistryStep::Expand { text } => RegistryStepView::Expand { text: text@ },
            RegistryStep::Done(read) => RegistryStepView::Done(read@),
        }
    }
}

/// Bytes read in pairs, the lower byte first; an odd one at the end is dropped.
pub open spec fn little_endian_units(bytes: Seq<u8>) -> Seq<u16> {
    Seq::new(
        (bytes.len() / 2) as nat,
        |i: int| (bytes[2 * i] as u16 + bytes[2 * i + 1] as u16 * 256) as u16,
    )
}

/// The text of a value: the bytes that were written, without the NULs at its
/// end.
pub open spec fn value_text(answer: ValueAnswer) -> Seq<char> {
    let used = if answer.size <= answer.buffer@.len() {
        answer.size as int
    } else {
        answer.buffer@.len() as int
    };
    trim_end(decode_utf16_lossy(little_endian_units(answer.buffer@.take(used))), CharClass::Nul)
}

pub open spec fn failed_read(error: RegistryPathError) -> RegistryStepView {
    RegistryStepView::Done(PathReadView::Failed(error))
}

/// What a read does next, from what is known.
pub open spec fn registry_step(facts: RegistryFacts) -> RegistryStepView {
    match facts.opened {
        None => RegistryStepView::OpenKey,
        Some(opened) => if opened != 0 {
            failed_read(RegistryPathError::Win32(opened))
        } else {
            match facts.sized {
                None => RegistryStepView::QuerySize,
                Some(sized) => if sized.status != 0 {
                    failed_read(RegistryPathError::Win32(sized.status))
                } else if sized.bytes == 0 {
                    failed_read(RegistryPathError::EmptyValue)
                } else if sized.kind != REG_SZ && sized.kind != REG_EXPAND_SZ {
                    failed_read(RegistryPathError::UnexpectedType(sized.kind))
                } else {
                    match facts.fetched {
                        None => RegistryStepView::QueryValue {
                            bytes: sized.bytes,
                            buffer_len: (sized.bytes + 2) as u64,
                        },
                        Some(answer) => if answer.status != 0 {
                            failed_read(RegistryPathError::Win32(answer.status))
                        } else if answer.kind != REG_EXPAND_SZ {
                            RegistryStepView::Done(PathReadView::Read(value_text(answer)))
                        } else {
                            match facts.expanded {
                                None => RegistryStepView::Expand { text: value_text(answer) },
                                Some(Some(t)) => RegistryStepView::Done(PathReadView::Read(t@)),
                                Some(None) => failed_read(RegistryPathError::Win32(0)),
                            }
                        },
                    }
                },
            }
        },
    }
}

fn fail(error: RegistryPathError) -> (r: RegistryStep)
    ensures
        r@ == failed_read(error),
{
    RegistryStep::Done(RegistryPathRead::Failed(error))
}

fn units_of(bytes: &[u8]) -> (r: Vec<u16>)
    ensures
        r@ == little_endian_units(bytes@),
{
    let mut r: Vec<u16> = Vec::new();
    let n: usize = bytes.len() / 2;
    let mut i: usize = 0;
    while i < n
        invariant
            i <= n,
            n == bytes@.len() / 2,
            bytes@.len() <= usize::MAX,
            r@ == little_endian_units(bytes@).take(i as int),
        decreases n - i,
    {
        r.push(bytes[2 * i] as u16 + bytes[2 * i + 1] as u16 * 256);
        i = i + 1;
        assert(r@ =~= little_endian_units(bytes@).take(i as int));
    }
    assert(r@ =~= little_endian_units(bytes@));
    r
}

fn text_of_value(answer: &ValueAnswer) -> (r: String)
    ensures
        r@ == value_text(*answer),
{
    let len: usize = answer.buffer.len();
    let used: usize = if (answer.size as usize) <= len {
        answer.size as usize
    } else {
        len
    };
    let bytes = slice_subrange(answer.buffer.as_slice(), 0, used);
    assert(bytes@ =~= answer.buffer@.take(used as int));
    let chars = decoded_lossy(units_of(bytes).as_slice());
    text_of(trimmed_end(chars.as_slice(), CharClass::Nul))
}

/// What reading a `Path` value does next, from what is known.
pub fn read_path_value(facts: &RegistryFacts) -> (r: RegistryStep)
    ensures
        r@ == registry_step(*facts),
{
    let opened: u32 = match facts.opened {
        None => {
            return RegistryStep::OpenKey;
        },
        Some(opened) => opened,
    };
    if opened != 0 {
        return fail(RegistryPathError::Win32(opened));
    }
    let sized = match &facts.sized {
        None => {
            return RegistryStep::QuerySize;
        },
        Some(sized) => sized,
    };
    if sized.status != 0 {
        return fail(RegistryPathError::Win32(sized.status));
    }
    if sized.bytes == 0 {
        return fail(RegistryPathError::EmptyValue);
    }
    if sized.kind != REG_SZ && sized.kind != REG_EXPAND_SZ {
        return fail(RegistryPathError::UnexpectedType(sized.kind));
    }
    let answer = match &facts.fetched {
        None => {
            return RegistryStep::QueryValue {
                bytes: sized.bytes,
                buffer_len: sized.bytes as u64 + 2,
            };
        },
        Some(answer) => answer,
    };
    if answer.status != 0 {
        return fail(RegistryPathError::Win32(answer.status));
    }
    let text = text_of_value(answer);
    if answer.kind != REG_EXPAND_SZ {
        return RegistryStep::Done(RegistryPathRead::Read(text));
    }
    match &facts.expanded {
        None => RegistryStep::Expand { text },
        Some(Some(t)) => RegistryStep::Done(RegistryPathRead::Read(t.clone())),
        Some(None) => fail(RegistryPathError::Win32(0)),
    }
}

/// The text that expanding variables gave: `needed` units were asked for,
/// `written` of them came, the terminating NUL included.
pub open spec fn expansion(needed: u32, written: u32, buffer: Seq<u16>) -> Option<Seq<char>> {
    if needed == 0 || written == 0 || written > buffer.len() {
        None
    } else {
        Some(decode_utf16_lossy(buffer.take(written - 1)))
    }
}

/// Reads what expanding variables gave.
pub fn expanded_text(needed: u32, written: u32, buffer: &[u16]) -> (r: Option<String>)
    ensures
        text_view(r) == expansion(needed, written, buffer@),
{
    if needed == 0 || written == 0 || written as usize > buffer.len() {
        return None;
    }
    let used = slice_subrange(buffer, 0, written as usize - 1);
    assert(used@ =~= buffer@.take(written - 1));
    Some(text_of(decoded_lossy(used).as_slice()))
}

/// A value is read only after every call for it succeeded: a failed call is
/// never taken for an empty value.
pub proof fn law_failed_calls_are_not_empty_values(facts: RegistryFacts, value: Seq<char>)
    requires
        registry_step(facts) == RegistryStepView::Done(PathReadView::Read(value)),
    ensures
        facts.opened == Some(0u32),
        facts.sized is Some && facts.sized->0.status == 0 && facts.sized->0.bytes > 0,
        facts.fetched is Some && facts.fetched->0.status == 0,
{
}

/// Nothing is asked for that is known already, so a caller that answers every
/// question gets to an end.
pub proof fn law_no_question_is_asked_twice(
    facts: RegistryFacts,
)
    ensures
        match registry_step(facts) {
            RegistryStepView::OpenKey => facts.opened is None,
            RegistryStepView::QuerySize => facts.sized is None,
            RegistryStepView::QueryValue { .. } => facts.fetched is None,
            RegistryStepView::Expand { .. } => facts.expanded is None,
            _ => true,
        },
{
}

/// A value is read call by call: the key, the size, the value, and its variables
/// where it has some. A failed call ends it with its code, and a value that is
/// empty or no text is refused as that.
pub proof fn law_values_are_read_in_this_order(
    facts: RegistryFacts,
    sized: SizeAnswer,
    answer: ValueAnswer,
    text: String,
)
    ensures
        ({
            let step = registry_step(facts);
            let failed = |error: RegistryPathError|
                RegistryStepView::Done(PathReadView::Failed(error));
            &&& facts.opened is None ==> step == RegistryStepView::OpenKey
            &&& facts.opened is Some && facts.opened != Some(0u32) ==> step == failed(
                RegistryPathError::Win32(facts.opened->0),
            )
            &&& facts.opened == Some(0u32) && facts.sized is None ==> step
                == RegistryStepView::QuerySize
            &&& facts.opened == Some(0u32) && facts.sized == Some(sized) ==> {
                &&& sized.status != 0 ==> step == failed(RegistryPathError::Win32(sized.status))
                &&& sized.status == 0 && sized.bytes == 0 ==> step == failed(
                    RegistryPathError::EmptyValue,
                )
                &&& sized.status == 0 && sized.bytes != 0 && sized.kind != 1 && sized.kind != 2
                    ==> step == failed(RegistryPathError::UnexpectedType(sized.kind))
                &&& sized.status == 0 && sized.bytes != 0 && (sized.kind == 1 || sized.kind == 2)
                    ==> {
                    &&& facts.fetched is None ==> (step matches RegistryStepView::QueryValue {
                        bytes,
                        buffer_len,
                    } && bytes == sized.bytes && buffer_len == sized.bytes + 2)
                    &&& facts.fetched == Some(answer) ==> {
                        &&& answer.status != 0 ==> step == failed(
                            RegistryPathError::Win32(answer.status),
                        )
                        &&& answer.status == 0 && answer.kind != 2 ==> step == RegistryStepView::Done(
                            PathReadView::Read(value_text(answer)),
                        )
                        &&& answer.status == 0 && answer.kind == 2 && facts.expanded is None ==> step
                            == (RegistryStepView::Expand { text: value_text(answer) })
                        &&& answer.status == 0 && answer.kind == 2 && facts.expanded == Some(
                            Some(text),
                        ) ==> step == RegistryStepView::Done(PathReadView::Read(text@))
                        &&& answer.status == 0 && answer.kind == 2 && facts.expanded == Some(
                            None::<String>,
                        ) ==> step == failed(RegistryPathError::Win32(0))
                    }
                }
            }
        }),
{
}

/// The text of a value is what its bytes encode, two to a unit with the low one
/// first, up to the size that was written and without NULs at the end.
pub proof fn law_values_are_utf16_without_their_nuls(answer: ValueAnswer)
    requires
        answer.size <= answer.buffer@.len(),
    ensures
        ({
            let bytes = answer.buffer@.take(answer.size as int);
            let units = little_endian_units(bytes);
            let whole = decode_utf16_lossy(units);
            let text = value_text(answer);
            &&& units.len() == answer.size / 2
            &&& forall|i: int|
                0 <= i < units.len() ==> #[trigger] units[i] == answer.buffer@[2 * i]
                    + answer.buffer@[2 * i + 1] * 256
            &&& text.len() <= whole.len() && text == whole.take(text.len() as int)
            &&& forall|i: int| text.len() <= i < whole.len() ==> #[trigger] whole[i] as u32 == 0
            &&& text.len() > 0 ==> text.last() as u32 != 0
        }),
{
    let bytes = answer.buffer@.take(answer.size as int);
    let units = little_endian_units(bytes);
    let whole = decode_utf16_lossy(units);
    law_end_trimming_drops_the_end_only(whole, CharClass::Nul);
    assert forall|i: int| 0 <= i < units.len() implies #[trigger] units[i] == answer.buffer@[2 * i]
        + answer.buffer@[2 * i + 1] * 256 by {
        assert(bytes[2 * i] == answer.buffer@[2 * i]);
        assert(bytes[2 * i + 1] == answer.buffer@[2 * i + 1]);
    }
    let b = choose|b: int|
        {
            &&& 0 <= b <= whole.len()
            &&& trim_end(whole, CharClass::Nul) == #[trigger] whole.take(b)
            &&& forall|i: int|
                b <= i < whole.len() ==> crate::text::belongs(CharClass::Nul, #[trigger] whole[i])
            &&& b > 0 ==> !crate::text::belongs(CharClass::Nul, whole[b - 1])
        };
    assert(value_text(answer) == whole.take(b));
    assert forall|i: int| b <= i < whole.len() implies #[trigger] whole[i] as u32 == 0 by {
        assert(crate::text::belongs(CharClass::Nul, whole[i]));
    }
}

/// The line for the diagnostics counts the entries that are not empty, or says
/// why there are none; an empty entry counts for nothing.
pub proof fn law_diagnostics_count_the_entries(
    label: Seq<char>,
    value: Seq<char>,
    list: Seq<Seq<char>>,
    entry: Seq<char>,
    code: u32,
)
    ensures
        outcome_line(PathReadView::Read(value), label) == label + ": read, "@ + decimal(
            filled_entries(path_list(value)),
        ) + " entries"@,
        outcome_line(PathReadView::Failed(RegistryPathError::Win32(code)), label) == label
            + ": not read: "@ + ("error "@ + decimal(code as nat)),
        outcome_line(PathReadView::Failed(RegistryPathError::EmptyValue), label) == label
            + ": not read: "@ + "empty value"@,
        outcome_line(PathReadView::Failed(RegistryPathError::UnexpectedType(code)), label) == label
            + ": not read: "@ + ("unexpected type "@ + decimal(code as nat)),
        filled_entries(Seq::empty()) == 0,
        filled_entries(list.push(entry)) == filled_entries(list) + if entry.len() > 0 {
            1int
        } else {
            0int
        },
{
    assert(list.push(entry).drop_last() =~= list);
}

/// An expansion is what was written without its NUL, where both calls succeeded
/// and it fits.
pub proof fn law_expansions_drop_their_nul(needed: u32, written: u32, buffer: Seq<u16>)
    ensures
        expansion(needed, written, buffer) is Some <==> needed != 0 && written != 0 && written
            <= buffer.len(),
        expansion(needed, written, buffer) matches Some(t) ==> t == decode_utf16_lossy(
            buffer.take(written - 1),
        ),
{
}

/// Quotes keep a semicolon inside an entry and are no part of it.
pub proof fn law_quoted_entries_keep_their_semicolons(text: Seq<char>)
    requires
        forall|i: int| 0 <= i < text.len() ==> #[trigger] text[i] != '"',
    ensures
        path_list(seq!['"'] + text + seq!['"']) == seq![text],
{
    let s = seq!['"'] + text + seq!['"'];
    assert(s.skip(1) =~= text + seq!['"']);
    lemma_quoted_entry(text, Seq::empty());
    assert(Seq::<char>::empty() + text =~= text);
}

proof fn lemma_quoted_entry(text: Seq<char>, current: Seq<char>)
    requires
        forall|i: int| 0 <= i < text.len() ==> #[trigger] text[i] != '"',
    ensures
        path_list_from(text + seq!['"'], true, current) == seq![current + text],
    decreases text.len(),
{
    let s = text + seq!['"'];
    if text.len() == 0 {
        assert(s.skip(1) =~= Seq::empty());
        assert(current + text =~= current);
        reveal_with_fuel(path_list_from, 2);
    } else {
        let rest = text.skip(1);
        assert forall|i: int| 0 <= i < rest.len() implies #[trigger] rest[i] != '"' by {
            assert(rest[i] == text[i + 1]);
        }
        assert(s[0] == text[0]);
        lemma_quoted_entry(rest, current.push(text[0]));
        assert(s.skip(1) =~= rest + seq!['"']);
        assert(current.push(text[0]) + rest =~= current + text);
    }
}

} // verus!
