//! What a client learns when a child could not be started: the operating
//! system's code and what it means, and nothing else of the failure's text.
use crate::numbers::{decimal, decimal_text, law_decimals_read_back};
use crate::text::{
    chars_of, find_text, find_word, is_digit, lemma_find_word, number, read_number, word_at,
};
use crate::wire::{plain_error, text5, text7, ErrorCode, ErrorView, WireError};
use crate::workspace::{plain, plain_path};
use crate::workspace_create::str_view;
use vstd::prelude::*;
use vstd::slice::slice_subrange;

verus! {

/// The end of the digits that start at `i`.
pub open spec fn digits_end(s: Seq<char>, i: int) -> int
    decreases s.len() - i,
{
    if 0 <= i < s.len() && is_digit(s[i]) {
        digits_end(s, i + 1)
    } else {
        i
    }
}

/// The code in the first `(os error N` of a text.
pub open spec fn os_error_code(detail: Seq<char>) -> Option<nat> {
    match find_word(detail, "(os error "@, 0) {
        None => None,
        Some(i) => number(detail.subrange(i + 10, digits_end(detail, i + 10)), u32::MAX as nat),
    }
}

fn find_digits_end(s: &[char], from: usize) -> (r: usize)
    requires
        from <= s@.len(),
    ensures
        r == digits_end(s@, from as int),
        from <= r <= s@.len(),
{
    let mut i: usize = from;
    while i < s.len() && '0' <= s[i] && s[i] <= '9'
        invariant
            from <= i <= s@.len(),
            digits_end(s@, from as int) == digits_end(s@, i as int),
        decreases s@.len() - i,
    {
        i = i + 1;
    }
    i
}

/// The operating system's error code in the text of a failure.
pub fn extract_os_error_code(detail: &str) -> (r: Option<u32>)
    ensures
        r is Some == os_error_code(detail@) is Some,
        r matches Some(n) ==> os_error_code(detail@) == Some(n as nat),
{
    proof {
        reveal_strlit("(os error ");
    }
    let s = chars_of(detail);
    match find_text(s.as_slice(), "(os error ", 0) {
        None => None,
        Some(i) => {
            let end: usize = find_digits_end(s.as_slice(), i + 10);
            match read_number(slice_subrange(s.as_slice(), i + 10, end), 0xFFFF_FFFF) {
                Some(n) => Some(n as u32),
                None => None,
            }
        },
    }
}

/// What an error code of the operating system means, in a few words.
pub open spec fn os_error_words(code: nat) -> Seq<char> {
    if code == 2 {
        "file not found"@
    } else if code == 3 {
        "path not found"@
    } else if code == 267 {
        "not a directory"@
    } else if code == 1450 {
        "no system resources"@
    } else {
        "operating system error"@
    }
}

pub fn os_error_description(code: u32) -> (r: &'static str)
    ensures
        r@ == os_error_words(code as nat),
{
    if code == 2 {
        "file not found"
    } else if code == 3 {
        "path not found"
    } else if code == 267 {
        "not a directory"
    } else if code == 1450 {
        "no system resources"
    } else {
        "operating system error"
    }
}

/// A sentence with the code of the failure, if its text has one. Nothing else
/// of the text is passed on.
pub open spec fn pty_error(sentence: Seq<char>, detail: Seq<char>) -> ErrorView {
    plain_error(
        ErrorCode::Io,
        match os_error_code(detail) {
            Some(code) => sentence + " (OS error "@ + decimal(code) + ": "@ + os_error_words(code)
                + ")."@,
            None => sentence,
        },
    )
}

pub fn pty_wire_error(sentence: &str, detail: &str) -> (r: WireError)
    ensures
        r@ == pty_error(sentence@, detail@),
{
    match extract_os_error_code(detail) {
        Some(code) => {
            let mut message = text5(
                sentence,
                " (OS error ",
                decimal_text(code as u64).as_str(),
                ": ",
                os_error_description(code),
            );
            message.append(").");
            WireError::new(ErrorCode::Io, message)
        },
        None => WireError::new(ErrorCode::Io, sentence.to_owned()),
    }
}

/// A child of a workspace could not be started because its directory is gone:
/// the codes for a missing file, a missing path and a bad directory say so.
pub open spec fn directory_error(workspace_id: Option<Seq<char>>, path: Seq<char>, detail: Seq<char>) -> Option<
    ErrorView,
> {
    match (workspace_id, os_error_code(detail)) {
        (Some(id), Some(code)) => if code == 2 || code == 3 || code == 267 {
            Some(
                plain_error(
                    ErrorCode::WorkspaceUnavailable,
                    "Workspace '"@ + id + "' at '"@ + plain(path)
                        + "' became unavailable while starting the session (OS error "@ + decimal(
                        code,
                    ) + ": "@ + os_error_words(code) + ")."@,
                ),
            )
        } else {
            None
        },
        _ => None,
    }
}

fn workspace_directory_error(workspace_id: Option<&str>, path: &str, detail: &str) -> (r: Option<
    WireError,
>)
    ensures
        r is Some == directory_error(str_view(workspace_id), path@, detail@) is Some,
        r matches Some(e) ==> directory_error(str_view(workspace_id), path@, detail@) == Some(e@),
{
    match (workspace_id, extract_os_error_code(detail)) {
        (Some(id), Some(code)) => {
            if code == 2 || code == 3 || code == 267 {
                let mut message = text7(
                    "Workspace '",
                    id,
                    "' at '",
                    plain_path(path).as_str(),
                    "' became unavailable while starting the session (OS error ",
                    decimal_text(code as u64).as_str(),
                    ": ",
                );
                message.append(os_error_description(code));
                message.append(").");
                Some(WireError::new(ErrorCode::WorkspaceUnavailable, message))
            } else {
                None
            }
        },
        _ => None,
    }
}

/// The error of a child that could not be started: its workspace's directory is
/// gone, or the terminal's shell did not start.
pub fn workspace_spawn_error(workspace_id: Option<&str>, path: &str, detail: &str) -> (r: WireError)
    ensures
        r@ == match directory_error(str_view(workspace_id), path@, detail@) {
            Some(e) => e,
            None => pty_error("Could not start the terminal shell."@, detail@),
        },
{
    match workspace_directory_error(workspace_id, path, detail) {
        Some(e) => e,
        None => pty_wire_error("Could not start the terminal shell.", detail),
    }
}

/// The same for a failure that is an error already: it stays what it is unless
/// it says that the directory is gone.
pub fn map_workspace_spawn_wire_error(workspace_id: Option<&str>, path: &str, error: WireError) -> (r:
    WireError)
    ensures
        r@ == match directory_error(str_view(workspace_id), path@, error.message@) {
            Some(e) => e,
            None => error@,
        },
{
    match workspace_directory_error(workspace_id, path, error.message.as_str()) {
        Some(e) => e,
        None => error,
    }
}

/// A client learns nothing of a failure's text but its code: texts with the same
/// code give the same error.
pub proof fn law_only_the_code_is_passed_on(
    sentence: Seq<char>,
    workspace_id: Option<Seq<char>>,
    path: Seq<char>,
    one: Seq<char>,
    other: Seq<char>,
)
    requires
        os_error_code(one) == os_error_code(other),
    ensures
        pty_error(sentence, one) == pty_error(sentence, other),
        directory_error(workspace_id, path, one) == directory_error(workspace_id, path, other),
{
}

proof fn lemma_digits_end(s: Seq<char>, i: int, e: int)
    requires
        0 <= i <= e <= s.len(),
        forall|j: int| i <= j < e ==> is_digit(#[trigger] s[j]),
        e < s.len() ==> !is_digit(s[e]),
    ensures
        digits_end(s, i) == e,
    decreases e - i,
{
    if i < e {
        assert(is_digit(s[i]));
        lemma_digits_end(s, i + 1, e);
    }
}

/// The code of a failure is the number behind the first `(os error ` of its
/// text, up to the first character that is no digit; a text without it has none.
pub proof fn law_codes_are_read_where_the_system_writes_them(
    before: Seq<char>,
    code: nat,
    behind: Seq<char>,
)
    requires
        forall|i: int| 0 <= i < before.len() ==> #[trigger] before[i] != '(',
        behind.len() > 0 ==> !is_digit(behind[0]),
    ensures
        code <= u32::MAX ==> os_error_code(before + "(os error "@ + decimal(code) + behind) == Some(
            code,
        ),
        code > u32::MAX ==> os_error_code(before + "(os error "@ + decimal(code) + behind) is None,
        os_error_code(before) is None,
{
    reveal_strlit("(os error ");
    let mark = "(os error "@;
    let digits = decimal(code);
    let s = before + mark + digits + behind;
    let n = before.len() as int;
    law_decimals_read_back(code);
    assert(word_at(s, n, mark)) by {
        assert(s.subrange(n, n + 10) =~= mark);
    }
    lemma_find_word(s, mark, 0);
    assert(find_word(s, mark, 0) == Some(n)) by {
        match find_word(s, mark, 0) {
            Some(i) => {
                if i < n {
                    assert(s.subrange(i, i + 10)[0] == s[i]);
                    assert(s[i] == before[i]);
                }
                if i > n {
                    assert(!word_at(s, n, mark));
                }
            },
            None => {
                assert(!word_at(s, n, mark));
            },
        }
    }
    let e = n + 10 + digits.len();
    assert forall|j: int| n + 10 <= j < e implies is_digit(#[trigger] s[j]) by {
        assert(s[j] == digits[j - n - 10]);
    }
    if e < s.len() {
        assert(s[e] == behind[0]);
    }
    lemma_digits_end(s, n + 10, e);
    assert(s.subrange(n + 10, e) =~= digits);
    lemma_find_word(before, mark, 0);
    if let Some(i) = find_word(before, mark, 0) {
        assert(before.subrange(i, i + 10)[0] == before[i]);
    }
}

/// A failure says that a workspace's directory is gone exactly where its code is
/// 2, 3 or 267 and it is a workspace's; then the workspace, its plain path and
/// the code are named. Any other failure keeps its sentence, with its code.
pub proof fn law_failures_name_what_is_gone(
    id: Seq<char>,
    path: Seq<char>,
    detail: Seq<char>,
    sentence: Seq<char>,
    code: nat,
)
    ensures
        directory_error(None, path, detail) is None,
        os_error_code(detail) is None ==> directory_error(Some(id), path, detail) is None
            && pty_error(sentence, detail) == (ErrorView {
            code: ErrorCode::Io,
            message: sentence,
            details: None,
        }),
        os_error_code(detail) == Some(code) ==> {
            let words = if code == 2 {
                "file not found"@
            } else if code == 3 {
                "path not found"@
            } else if code == 267 {
                "not a directory"@
            } else if code == 1450 {
                "no system resources"@
            } else {
                "operating system error"@
            };
            &&& pty_error(sentence, detail) == (ErrorView {
                code: ErrorCode::Io,
                message: sentence + " (OS error "@ + decimal(code) + ": "@ + words + ")."@,
                details: None,
            })
            &&& directory_error(Some(id), path, detail) == if code == 2 || code == 3 || code == 267 {
                Some(
                    ErrorView {
                        code: ErrorCode::WorkspaceUnavailable,
                        message: "Workspace '"@ + id + "' at '"@ + plain(path)
                            + "' became unavailable while starting the session (OS error "@
                            + decimal(code) + ": "@ + words + ")."@,
                        details: None,
                    },
                )
            } else {
                None
            }
        },
{
}

} // verus!
