//! The bounded HTTP/1.1 exchange with Tailscale's LocalAPI.
//!
//! A response is read until it is complete, and it is refused rather than
//! guessed at: without a `Content-Length`, with a `Transfer-Encoding`, or over
//! the caps.
use crate::numbers::{
    decimal, decimal_text, law_decimals_read_back, law_unsigned_numbers_are_read_from_digits,
};
use crate::std_text::{debug_quoted, quoted, text_from_utf8};
use crate::text::{
    ascii_lower, chars_of, find_text, find_word, has_prefix, is_digit,
    law_splitting_takes_the_separators_out, lemma_find_word, lemma_split_first, lower_chars,
    read_unsigned, spells, split_on, split_text, starts_with, text_of, trim, trimmed, unsigned,
    words_of, CharClass,
};
use crate::wire::text3;
use vstd::prelude::*;
use vstd::slice::{slice_subrange, slice_to_vec};
use vstd::utf8::{decode_utf8, valid_utf8};

verus! {

/// The largest body, in bytes.
pub const BODY_CAP: usize = 64 * 1024;

/// The most header bytes. It stands apart from the body's cap, so that a flood of
/// headers is refused before the body's budget is reached.
pub const HEADER_CAP: usize = 8 * 1024;

/// Why the LocalAPI gave no answer.
#[derive(Debug)]
pub enum LocalApiError {
    /// This platform's transport is not there.
    Unsupported(String),
    /// Tailscale is not running.
    Absent(String),
    Transport(String),
    Timeout,
    /// A status other than 200.
    Status(u16),
    /// The response has not the shape that this client reads.
    Protocol(String),
    Parse(String),
}

/// `LocalApiError` over the characters of its texts.
pub ghost enum ApiErrorView {
    Unsupported(Seq<char>),
    Absent(Seq<char>),
    Transport(Seq<char>),
    Timeout,
    Status(u16),
    Protocol(Seq<char>),
    Parse(Seq<char>),
}

impl View for LocalApiError {
    type V = ApiErrorView;

    open spec fn view(&self) -> ApiErrorView {
        match self {
            LocalApiError::Unsupported(m) => ApiErrorView::Unsupported(m@),
            LocalApiError::Absent(m) => ApiErrorView::Absent(m@),
            LocalApiError::Transport(m) => ApiErrorView::Transport(m@),
            LocalApiError::Timeout => ApiErrorView::Timeout,
            LocalApiError::Status(code) => ApiErrorView::Status(*code),
            LocalApiError::Protocol(m) => ApiErrorView::Protocol(m@),
            LocalApiError::Parse(m) => ApiErrorView::Parse(m@),
        }
    }
}

/// The sentence of an error.
pub open spec fn api_error_text(e: ApiErrorView) -> Seq<char> {
    match e {
        ApiErrorView::Unsupported(m) => "tailscale localapi unsupported: "@ + m,
        ApiErrorView::Absent(m) => "tailscale is not running: "@ + m,
        ApiErrorView::Transport(m) => "tailscale localapi transport: "@ + m,
        ApiErrorView::Timeout => "tailscale localapi timed out"@,
        ApiErrorView::Status(code) => "tailscale localapi answered HTTP "@ + decimal(code as nat),
        ApiErrorView::Protocol(m) => "tailscale localapi protocol: "@ + m,
        ApiErrorView::Parse(m) => "tailscale localapi json: "@ + m,
    }
}

fn labelled(label: &str, text: &str) -> (r: String)
    ensures
        r@ == label@ + text@,
{
    let mut r = label.to_owned();
    r.append(text);
    r
}

impl LocalApiError {
    /// The sentence of the error.
    pub fn message(&self) -> (r: String)
        ensures
            r@ == api_error_text(self@),
    {
        match self {
            LocalApiError::Unsupported(m) => labelled(
                "tailscale localapi unsupported: ",
                m.as_str(),
            ),
            LocalApiError::Absent(m) => labelled("tailscale is not running: ", m.as_str()),
            LocalApiError::Transport(m) => labelled("tailscale localapi transport: ", m.as_str()),
            LocalApiError::Timeout => "tailscale localapi timed out".to_owned(),
            LocalApiError::Status(code) => labelled(
                "tailscale localapi answered HTTP ",
                decimal_text(*code as u64).as_str(),
            ),
            LocalApiError::Protocol(m) => labelled("tailscale localapi protocol: ", m.as_str()),
            LocalApiError::Parse(m) => labelled("tailscale localapi json: ", m.as_str()),
        }
    }
}

fn protocol(message: &str) -> (r: LocalApiError)
    ensures
        r@ == ApiErrorView::Protocol(message@),
{
    LocalApiError::Protocol(message.to_owned())
}

/// The place of the first blank line from `i` on.
pub open spec fn header_end_from(raw: Seq<u8>, i: int) -> Option<int>
    decreases raw.len() - i,
{
    if i < 0 || i + 4 > raw.len() {
        None
    } else if raw[i] == 13 && raw[i + 1] == 10 && raw[i + 2] == 13 && raw[i + 3] == 10 {
        Some(i)
    } else {
        header_end_from(raw, i + 1)
    }
}

/// Where the headers end: at the first blank line.
pub open spec fn header_end(raw: Seq<u8>) -> Option<int> {
    header_end_from(raw, 0)
}

pub fn find_header_end(raw: &[u8]) -> (r: Option<usize>)
    ensures
        r is Some == header_end(raw@) is Some,
        r matches Some(i) ==> header_end(raw@) == Some(i as int) && i + 4 <= raw@.len(),
{
    if raw.len() < 4 {
        return None;
    }
    let mut i: usize = 0;
    while i <= raw.len() - 4
        invariant
            4 <= raw@.len(),
            i <= raw@.len() - 3,
            header_end(raw@) == header_end_from(raw@, i as int),
        decreases raw@.len() - i,
    {
        if raw[i] == 13 && raw[i + 1] == 10 && raw[i + 2] == 13 && raw[i + 3] == 10 {
            return Some(i);
        }
        i = i + 1;
    }
    None
}

pub open spec fn bad_status_line(line: Seq<char>) -> ApiErrorView {
    ApiErrorView::Protocol("unexpected status line "@ + debug_quoted(line))
}

/// The status code of a status line: the word behind an `HTTP/1.` version.
pub open spec fn status_code(line: Seq<char>) -> Result<u16, ApiErrorView> {
    let parts = split_on(line, " "@);
    if !has_prefix(parts[0], "HTTP/1."@) || parts.len() < 2 {
        Err(bad_status_line(line))
    } else {
        match unsigned(parts[1], u16::MAX as nat) {
            Some(code) => Ok(code as u16),
            None => Err(bad_status_line(line)),
        }
    }
}

fn parse_status_line(line: &[char]) -> (r: Result<u16, LocalApiError>)
    ensures
        status_view(r) == status_code(line@),
{
    proof {
        reveal_strlit(" ");
    }
    let parts = split_text(line, " ");
    let ghost words = words_of(parts@);
    assert(words[0] == parts@[0]@);
    if starts_with(parts[0].as_slice(), "HTTP/1.") && parts.len() >= 2 {
        assert(words[1] == parts@[1]@);
        if let Some(code) = read_unsigned(parts[1].as_slice(), 0xFFFF) {
            return Ok(code as u16);
        }
    }
    Err(
        LocalApiError::Protocol(
            labelled("unexpected status line ", quoted(text_of(line).as_str()).as_str()),
        ),
    )
}

/// The outcome of reading a status.
pub open spec fn status_view(r: Result<u16, LocalApiError>) -> Result<u16, ApiErrorView> {
    match r {
        Ok(code) => Ok(code),
        Err(e) => Err(e@),
    }
}

/// What one header line says of the body's length: `found` is what the lines
/// before it said.
pub open spec fn header_line(line: Seq<char>, found: Option<nat>) -> Result<
    Option<nat>,
    ApiErrorView,
> {
    if line.len() == 0 {
        Ok(found)
    } else {
        match find_word(line, ":"@, 0) {
            None => Err(ApiErrorView::Protocol("malformed header "@ + debug_quoted(line))),
            Some(i) => {
                let name = ascii_lower(trim(line.take(i), CharClass::White));
                let value = trim(line.skip(i + 1), CharClass::White);
                if name == "transfer-encoding"@ {
                    Err(ApiErrorView::Protocol("chunked responses are refused"@))
                } else if name == "content-length"@ {
                    match unsigned(value, usize::MAX as nat) {
                        None => Err(
                            ApiErrorView::Protocol("invalid Content-Length "@ + debug_quoted(value)),
                        ),
                        Some(length) => if length > BODY_CAP {
                            Err(
                                ApiErrorView::Protocol(
                                    "Content-Length "@ + decimal(length)
                                        + " exceeds the 64 KiB body cap"@,
                                ),
                            )
                        } else {
                            Ok(Some(length))
                        },
                    }
                } else {
                    Ok(found)
                }
            },
        }
    }
}

/// The body's length by the header lines from `i` on.
pub open spec fn header_lines(lines: Seq<Seq<char>>, i: int, found: Option<nat>) -> Result<
    Option<nat>,
    ApiErrorView,
>
    decreases lines.len() - i,
{
    if i < 0 || i >= lines.len() {
        Ok(found)
    } else {
        match header_line(lines[i], found) {
            Err(e) => Err(e),
            Ok(next) => header_lines(lines, i + 1, next),
        }
    }
}

/// The status code and the body's length that the headers declare.
pub open spec fn headers(bytes: Seq<u8>) -> Result<(u16, nat), ApiErrorView> {
    if !valid_utf8(bytes) {
        Err(ApiErrorView::Protocol("response headers are not UTF-8"@))
    } else {
        let lines = split_on(decode_utf8(bytes), "\r\n"@);
        match status_code(lines[0]) {
            Err(e) => Err(e),
            Ok(status) => match header_lines(lines, 1, None) {
                Err(e) => Err(e),
                Ok(None) => Err(ApiErrorView::Protocol("response has no Content-Length"@)),
                Ok(Some(length)) => Ok((status, length)),
            },
        }
    }
}

/// The outcome of reading the headers.
pub open spec fn headers_view(r: Result<(u16, usize), LocalApiError>) -> Result<
    (u16, nat),
    ApiErrorView,
> {
    match r {
        Ok(p) => Ok((p.0, p.1 as nat)),
        Err(e) => Err(e@),
    }
}

/// A length that may be missing, as a mathematical integer.
pub open spec fn length_view(found: Option<usize>) -> Option<nat> {
    match found {
        Some(n) => Some(n as nat),
        None => None,
    }
}

/// The outcome of reading one header line.
pub open spec fn line_view(r: Result<Option<usize>, LocalApiError>) -> Result<
    Option<nat>,
    ApiErrorView,
> {
    match r {
        Ok(found) => Ok(length_view(found)),
        Err(e) => Err(e@),
    }
}

fn parse_header_line(line: &[char], found: Option<usize>) -> (r: Result<
    Option<usize>,
    LocalApiError,
>)
    requires
        found matches Some(n) ==> n <= BODY_CAP,
    ensures
        line_view(r) == header_line(line@, length_view(found)),
        r matches Ok(Some(n)) ==> n <= BODY_CAP,
{
    proof {
        reveal_strlit(":");
    }
    if line.len() == 0 {
        return Ok(found);
    }
    let i: usize = match find_text(line, ":", 0) {
        None => {
            return Err(
                LocalApiError::Protocol(
                    labelled("malformed header ", quoted(text_of(line).as_str()).as_str()),
                ),
            );
        },
        Some(i) => i,
    };
    let before = slice_subrange(line, 0, i);
    let after = slice_subrange(line, i + 1, line.len());
    assert(before@ =~= line@.take(i as int));
    assert(after@ =~= line@.skip(i + 1));
    let name = lower_chars(trimmed(before, CharClass::White));
    let value = trimmed(after, CharClass::White);
    if spells(name.as_slice(), "transfer-encoding") {
        return Err(protocol("chunked responses are refused"));
    }
    if spells(name.as_slice(), "content-length") {
        return match read_unsigned(value, usize::MAX as u64) {
            None => Err(
                LocalApiError::Protocol(
                    labelled("invalid Content-Length ", quoted(text_of(value).as_str()).as_str()),
                ),
            ),
            Some(length) => if length > BODY_CAP as u64 {
                Err(
                    LocalApiError::Protocol(
                        text3(
                            "Content-Length ",
                            decimal_text(length).as_str(),
                            " exceeds the 64 KiB body cap",
                        ),
                    ),
                )
            } else {
                Ok(Some(length as usize))
            },
        };
    }
    Ok(found)
}

/// Reads the status code and the body's length off the headers.
pub fn parse_headers(header_bytes: &[u8]) -> (r: Result<(u16, usize), LocalApiError>)
    ensures
        headers_view(r) == headers(header_bytes@),
        r matches Ok(p) ==> p.1 <= BODY_CAP,
{
    let text = match text_from_utf8(header_bytes) {
        None => {
            return Err(protocol("response headers are not UTF-8"));
        },
        Some(text) => text,
    };
    proof {
        reveal_strlit("\r\n");
    }
    let chars = chars_of(text);
    let lines = split_text(chars.as_slice(), "\r\n");
    let ghost all = words_of(lines@);
    assert(all[0] == lines@[0]@);
    let status: u16 = match parse_status_line(lines[0].as_slice()) {
        Err(e) => {
            return Err(e);
        },
        Ok(status) => status,
    };
    let mut found: Option<usize> = None;
    let mut i: usize = 1;
    while i < lines.len()
        invariant
            1 <= i <= lines@.len(),
            all == words_of(lines@),
            all == split_on(decode_utf8(header_bytes@), "\r\n"@),
            valid_utf8(header_bytes@),
            status_code(all[0]) == Ok::<u16, ApiErrorView>(status),
            header_lines(all, 1, None) == header_lines(all, i as int, length_view(found)),
            found matches Some(n) ==> n <= BODY_CAP,
        decreases lines@.len() - i,
    {
        assert(all[i as int] == lines@[i as int]@);
        match parse_header_line(lines[i].as_slice(), found) {
            Err(e) => {
                return Err(e);
            },
            Ok(next) => {
                found = next;
            },
        }
        i = i + 1;
    }
    match found {
        None => Err(protocol("response has no Content-Length")),
        Some(length) => Ok((status, length)),
    }
}

/// A response's status and body.
pub open spec fn response(raw: Seq<u8>) -> Result<(u16, Seq<u8>), ApiErrorView> {
    match header_end(raw) {
        Some(end) if end <= HEADER_CAP => match headers(raw.take(end)) {
            Err(e) => Err(e),
            Ok((status, length)) => if end + 4 + length > raw.len() {
                Err(ApiErrorView::Protocol("response body is shorter than its length"@))
            } else {
                Ok((status, raw.subrange(end + 4, end + 4 + length)))
            },
        },
        _ => Err(ApiErrorView::Protocol("response headers did not end within 8 KiB"@)),
    }
}

/// The outcome of splitting a response.
pub open spec fn split_view(r: Result<(u16, &[u8]), LocalApiError>) -> Result<
    (u16, Seq<u8>),
    ApiErrorView,
> {
    match r {
        Ok(p) => Ok((p.0, p.1@)),
        Err(e) => Err(e@),
    }
}

/// The outcome of reading a response.
pub open spec fn response_view(r: Result<(u16, Vec<u8>), LocalApiError>) -> Result<
    (u16, Seq<u8>),
    ApiErrorView,
> {
    match r {
        Ok(p) => Ok((p.0, p.1@)),
        Err(e) => Err(e@),
    }
}

fn split_response(raw: &[u8]) -> (r: Result<(u16, &[u8]), LocalApiError>)
    ensures
        split_view(r) == response(raw@),
{
    let end: usize = match find_header_end(raw) {
        None => {
            return Err(protocol("response headers did not end within 8 KiB"));
        },
        Some(end) => end,
    };
    if end > HEADER_CAP {
        return Err(protocol("response headers did not end within 8 KiB"));
    }
    let head = slice_subrange(raw, 0, end);
    assert(head@ =~= raw@.take(end as int));
    match parse_headers(head) {
        Err(e) => Err(e),
        Ok((status, length)) => {
            if length > raw.len() - (end + 4) {
                return Err(protocol("response body is shorter than its length"));
            }
            Ok((status, slice_subrange(raw, end + 4, end + 4 + length)))
        },
    }
}

/// Splits and validates one response.
pub fn parse_http_response(raw: &[u8]) -> (r: Result<(u16, Vec<u8>), LocalApiError>)
    ensures
        response_view(r) == response(raw@),
{
    match split_response(raw) {
        Err(e) => Err(e),
        Ok((status, body)) => Ok((status, slice_to_vec(body))),
    }
}

/// Whether the bytes hold a whole response already. Headers over the cap are
/// refused, whether or not they end later.
pub open spec fn complete(raw: Seq<u8>) -> Result<bool, ApiErrorView> {
    match header_end(raw) {
        None => if raw.len() > HEADER_CAP {
            Err(ApiErrorView::Protocol("response headers exceed 8 KiB"@))
        } else {
            Ok(false)
        },
        Some(end) => if end > HEADER_CAP {
            Err(ApiErrorView::Protocol("response headers exceed 8 KiB"@))
        } else {
            match headers(raw.take(end)) {
                Err(e) => Err(e),
                Ok((_, length)) => Ok(raw.len() >= end + 4 + length),
            }
        },
    }
}

/// The outcome of asking whether a response is complete.
pub open spec fn complete_view(r: Result<bool, LocalApiError>) -> Result<bool, ApiErrorView> {
    match r {
        Ok(b) => Ok(b),
        Err(e) => Err(e@),
    }
}

/// Whether the bytes hold a whole response already, so that reading can stop
/// without waiting for the end of the stream.
pub fn response_is_complete(raw: &[u8]) -> (r: Result<bool, LocalApiError>)
    ensures
        complete_view(r) == complete(raw@),
{
    let end: usize = match find_header_end(raw) {
        None => {
            if raw.len() > HEADER_CAP {
                return Err(protocol("response headers exceed 8 KiB"));
            }
            return Ok(false);
        },
        Some(end) => end,
    };
    if end > HEADER_CAP {
        return Err(protocol("response headers exceed 8 KiB"));
    }
    let head = slice_subrange(raw, 0, end);
    assert(head@ =~= raw@.take(end as int));
    match parse_headers(head) {
        Err(e) => Err(e),
        Ok((_, length)) => Ok(raw.len() - (end + 4) >= length),
    }
}

proof fn lemma_header_end_from(raw: Seq<u8>, more: Seq<u8>, i: int)
    requires
        0 <= i,
        header_end_from(raw, i) is Some,
    ensures
        header_end_from(raw + more, i) == header_end_from(raw, i),
        0 <= header_end_from(raw, i)->0 <= raw.len() - 4,
    decreases raw.len() - i,
{
    assert((raw + more)[i] == raw[i]);
    assert((raw + more)[i + 1] == raw[i + 1]);
    assert((raw + more)[i + 2] == raw[i + 2]);
    assert((raw + more)[i + 3] == raw[i + 3]);
    if !(raw[i] == 13 && raw[i + 1] == 10 && raw[i + 2] == 13 && raw[i + 3] == 10) {
        lemma_header_end_from(raw, more, i + 1);
    }
}

/// A complete response is well-formed, and nothing that follows it on the
/// stream changes what it says: reading may stop there.
pub proof fn law_complete_responses_are_final(raw: Seq<u8>, more: Seq<u8>)
    requires
        complete(raw) == Ok::<bool, ApiErrorView>(true),
    ensures
        response(raw) is Ok,
        response(raw + more) == response(raw),
        complete(raw + more) == complete(raw),
{
    lemma_header_end_from(raw, more, 0);
    let end = header_end(raw)->0;
    assert((raw + more).take(end) =~= raw.take(end));
    let length = headers(raw.take(end))->Ok_0.1;
    assert((raw + more).subrange(end + 4, end + 4 + length) =~= raw.subrange(
        end + 4,
        end + 4 + length,
    ));
}

/// The blank line that ends the headers begins at `i`.
pub open spec fn headers_end_at(raw: Seq<u8>, i: int) -> bool {
    &&& 0 <= i <= raw.len() - 4
    &&& raw[i] == 13
    &&& raw[i + 1] == 10
    &&& raw[i + 2] == 13
    &&& raw[i + 3] == 10
}

proof fn lemma_header_end_is_an_end(raw: Seq<u8>, i: int)
    requires
        0 <= i,
        header_end_from(raw, i) is Some,
    ensures
        headers_end_at(raw, header_end_from(raw, i)->0),
    decreases raw.len() - i,
{
    if !headers_end_at(raw, i) {
        lemma_header_end_is_an_end(raw, i + 1);
    }
}

/// Headers over the cap are refused, whether or not they end later: neither is
/// such a response complete, nor is it read.
pub proof fn law_header_floods_are_refused(raw: Seq<u8>)
    requires
        raw.len() > HEADER_CAP,
        forall|i: int| 0 <= i <= HEADER_CAP ==> !headers_end_at(raw, i),
    ensures
        complete(raw) == Err::<bool, ApiErrorView>(
            ApiErrorView::Protocol("response headers exceed 8 KiB"@),
        ),
        response(raw) == Err::<(u16, Seq<u8>), ApiErrorView>(
            ApiErrorView::Protocol("response headers did not end within 8 KiB"@),
        ),
{
    if header_end(raw) is Some {
        lemma_header_end_is_an_end(raw, 0);
    }
}

/// A response that is accepted keeps the body cap.
pub proof fn law_bodies_are_bounded(raw: Seq<u8>)
    requires
        response(raw) is Ok,
    ensures
        response(raw)->Ok_0.1.len() <= BODY_CAP,
{
    let end = header_end(raw)->0;
    if header_end(raw) is Some {
        lemma_header_end_from(raw, Seq::empty(), 0);
        let bytes = raw.take(end);
        if headers(bytes) is Ok {
            lemma_lengths_bounded(split_on(decode_utf8(bytes), "\r\n"@), 1, None);
        }
    }
}

proof fn lemma_lengths_bounded(lines: Seq<Seq<char>>, i: int, found: Option<nat>)
    requires
        found matches Some(n) ==> n <= BODY_CAP,
    ensures
        header_lines(lines, i, found) matches Ok(Some(n)) ==> n <= BODY_CAP,
    decreases lines.len() - i,
{
    if 0 <= i < lines.len() {
        match header_line(lines[i], found) {
            Err(_) => {},
            Ok(next) => {
                lemma_lengths_bounded(lines, i + 1, next);
            },
        }
    }
}

/// The headers end at the first empty line: the first place where two line ends
/// follow one another.
pub proof fn law_headers_end_at_the_first_empty_line(raw: Seq<u8>, end: int)
    ensures
        headers_end_at(raw, end) && (forall|j: int| 0 <= j < end ==> !headers_end_at(raw, j))
            ==> header_end(raw) == Some(end),
        (forall|j: int| !headers_end_at(raw, j)) ==> header_end(raw) is None,
{
    if headers_end_at(raw, end) && forall|j: int| 0 <= j < end ==> !headers_end_at(raw, j) {
        lemma_first_end(raw, 0, end);
    }
    if forall|j: int| !headers_end_at(raw, j) {
        if header_end(raw) is Some {
            lemma_header_end_is_an_end(raw, 0);
        }
    }
}

proof fn lemma_first_end(raw: Seq<u8>, i: int, end: int)
    requires
        0 <= i <= end,
        headers_end_at(raw, end),
        forall|j: int| 0 <= j < end ==> !headers_end_at(raw, j),
    ensures
        header_end_from(raw, i) == Some(end),
    decreases end - i,
{
    if i < end {
        assert(!headers_end_at(raw, i));
        lemma_first_end(raw, i + 1, end);
    }
}

/// The status of a response is the number behind the first blank of a line that
/// begins with `HTTP/1.`; a line of another shape is refused with its own text.
pub proof fn law_status_lines_give_their_code(version: Seq<char>, code: nat, behind: Seq<char>)
    requires
        forall|i: int| 0 <= i < version.len() ==> #[trigger] version[i] != ' ',
        behind.len() > 0 ==> behind[0] == ' ',
    ensures
        ({
            let line = "HTTP/1."@ + version + " "@ + decimal(code) + behind;
            &&& code <= 65535 ==> status_code(line) == Ok::<u16, ApiErrorView>(code as u16)
            &&& code > 65535 ==> status_code(line) == Err::<u16, ApiErrorView>(
                ApiErrorView::Protocol("unexpected status line "@ + debug_quoted(line)),
            )
        }),
        status_code("HTTP/1."@ + version) == Err::<u16, ApiErrorView>(
            ApiErrorView::Protocol(
                "unexpected status line "@ + debug_quoted("HTTP/1."@ + version),
            ),
        ),
{
    reveal_strlit("HTTP/1.");
    reveal_strlit(" ");
    let head = "HTTP/1."@ + version;
    let rest = decimal(code) + behind;
    let line = "HTTP/1."@ + version + " "@ + decimal(code) + behind;
    assert(" "@ =~= seq![' ']);
    assert forall|i: int| 0 <= i < head.len() implies #[trigger] head[i] != ' ' by {
        if i >= 7 {
            assert(head[i] == version[i - 7]);
        }
    }
    lemma_split_first(head, ' ', rest);
    assert(line =~= head + seq![' '] + rest);
    law_decimals_read_back(code);
    assert forall|i: int| 0 <= i < decimal(code).len() implies #[trigger] decimal(code)[i] != ' ' by {
        assert(is_digit(decimal(code)[i]));
    }
    if behind.len() > 0 {
        lemma_split_first(decimal(code), ' ', behind.skip(1));
        assert(rest =~= decimal(code) + seq![' '] + behind.skip(1));
    } else {
        lemma_split_first(decimal(code), ' ', behind);
        assert(rest =~= decimal(code));
    }
    assert(split_on(line, " "@)[1] == decimal(code));
    assert(split_on(line, " "@)[0] == head);
    assert(head.take(7) =~= "HTTP/1."@);
    law_unsigned_numbers_are_read_from_digits(code, 65535, head, 0);
}

/// A first line that does not begin with `HTTP/1.` is refused with its own text.
pub proof fn law_other_protocols_are_refused(line: Seq<char>)
    requires
        line.len() < 7 || line.take(7) != "HTTP/1."@,
    ensures
        status_code(line) == Err::<u16, ApiErrorView>(
            ApiErrorView::Protocol("unexpected status line "@ + debug_quoted(line)),
        ),
{
    reveal_strlit("HTTP/1.");
    reveal_strlit(" ");
    law_splitting_takes_the_separators_out(line, " "@);
    let first = split_on(line, " "@)[0];
    lemma_find_word(line, " "@, 0);
    if first.len() >= 7 {
        assert(first.take(7) =~= line.take(7));
    }
}

/// A header line is a name and a value at its first colon. Only two names count,
/// in any case: a transfer encoding is refused, and a content length of at most
/// 65,536 is taken in place of an earlier one.
pub proof fn law_header_lines_are_read_by_their_names(
    name: Seq<char>,
    value: Seq<char>,
    length: nat,
    found: Option<nat>,
)
    requires
        forall|i: int| 0 <= i < name.len() ==> #[trigger] name[i] != ':',
    ensures
        ({
            let line = name + ":"@ + value;
            let key = ascii_lower(trim(name, CharClass::White));
            let held = trim(value, CharClass::White);
            &&& key == "transfer-encoding"@ ==> header_line(line, found) == Err::<
                Option<nat>,
                ApiErrorView,
            >(ApiErrorView::Protocol("chunked responses are refused"@))
            &&& key == "content-length"@ && held == decimal(length) && length <= 65536
                ==> header_line(line, found) == Ok::<Option<nat>, ApiErrorView>(Some(length))
            &&& key == "content-length"@ && held == decimal(length) && 65536 < length <= usize::MAX
                ==> header_line(line, found) == Err::<Option<nat>, ApiErrorView>(
                ApiErrorView::Protocol(
                    "Content-Length "@ + decimal(length) + " exceeds the 64 KiB body cap"@,
                ),
            )
            &&& key == "content-length"@ && unsigned(held, usize::MAX as nat) is None
                ==> header_line(line, found) == Err::<Option<nat>, ApiErrorView>(
                ApiErrorView::Protocol("invalid Content-Length "@ + debug_quoted(held)),
            )
            &&& key != "transfer-encoding"@ && key != "content-length"@ ==> header_line(line, found)
                == Ok::<Option<nat>, ApiErrorView>(found)
            &&& name.len() == 0 ==> header_line(name, found) == Ok::<Option<nat>, ApiErrorView>(
                found,
            )
            &&& name.len() > 0 ==> header_line(name, found) == Err::<Option<nat>, ApiErrorView>(
                ApiErrorView::Protocol("malformed header "@ + debug_quoted(name)),
            )
        }),
{
    reveal_strlit(":");
    reveal_strlit("transfer-encoding");
    reveal_strlit("content-length");
    assert(":"@ =~= seq![':']);
    lemma_split_first(name, ':', value);
    let line = name + ":"@ + value;
    assert(line.take(name.len() as int) =~= name);
    assert(line.skip(name.len() as int + 1) =~= value);
    law_unsigned_numbers_are_read_from_digits(length, usize::MAX as nat, name, 0);
    assert("transfer-encoding"@.len() != "content-length"@.len());
}

/// Header lines are read one after the other: the first refusal ends it, and the
/// last length counts.
pub proof fn law_header_lines_are_read_in_their_order(
    lines: Seq<Seq<char>>,
    line: Seq<char>,
    from: int,
    found: Option<nat>,
)
    requires
        0 <= from <= lines.len(),
    ensures
        header_lines(lines.push(line), from, found) == match header_lines(lines, from, found) {
            Err(e) => Err(e),
            Ok(length) => header_line(line, length),
        },
        header_lines(lines, lines.len() as int, found) == Ok::<Option<nat>, ApiErrorView>(found),
    decreases lines.len() - from,
{
    let all = lines.push(line);
    if from == lines.len() {
        assert(all[from] == line);
        reveal_with_fuel(header_lines, 2);
    } else {
        assert(all[from] == lines[from]);
        if let Ok(next) = header_line(lines[from], found) {
            law_header_lines_are_read_in_their_order(lines, line, from + 1, next);
        }
    }
}

/// The headers are the status line and the header lines behind it, apart at the
/// line ends; they must be UTF-8 and give a length.
pub proof fn law_headers_give_status_and_length(
    bytes: Seq<u8>,
    first: Seq<char>,
    rest: Seq<Seq<char>>,
)
    requires
        valid_utf8(bytes),
        split_on(decode_utf8(bytes), "\r\n"@) == seq![first] + rest,
    ensures
        status_code(first) is Err ==> (headers(bytes) matches Err(e) && e == status_code(
            first,
        )->Err_0),
        status_code(first) is Ok && header_lines(rest, 0, None) is Err ==> (headers(
            bytes,
        ) matches Err(e) && e == header_lines(rest, 0, None)->Err_0),
        status_code(first) is Ok && header_lines(rest, 0, None) == Ok::<Option<nat>, ApiErrorView>(
            None,
        ) ==> headers(bytes) == Err::<(u16, nat), ApiErrorView>(
            ApiErrorView::Protocol("response has no Content-Length"@),
        ),
        status_code(first) matches Ok(status) ==> (header_lines(rest, 0, None) matches Ok(
            Some(length),
        ) ==> headers(bytes) == Ok::<(u16, nat), ApiErrorView>((status, length))),
{
    let lines = seq![first] + rest;
    assert(lines[0] == first);
    lemma_lines_behind(first, rest, 0, None);
}

proof fn lemma_lines_behind(first: Seq<char>, rest: Seq<Seq<char>>, i: int, found: Option<nat>)
    requires
        0 <= i <= rest.len(),
    ensures
        header_lines(seq![first] + rest, i + 1, found) == header_lines(rest, i, found),
    decreases rest.len() - i,
{
    if i < rest.len() {
        assert((seq![first] + rest)[i + 1] == rest[i]);
        if let Ok(next) = header_line(rest[i], found) {
            lemma_lines_behind(first, rest, i + 1, next);
        }
    }
}

/// A response is its head, an empty line and as many bytes as the head says: with
/// fewer it is not complete and is refused, and what follows them is left out.
pub proof fn law_responses_have_the_length_they_say(
    head: Seq<u8>,
    body: Seq<u8>,
    status: u16,
    length: nat,
)
    requires
        head.len() <= 8192,
        headers(head) == Ok::<(u16, nat), ApiErrorView>((status, length)),
        header_end(head + seq![13u8, 10, 13, 10] + body) == Some(head.len() as int),
    ensures
        ({
            let raw = head + seq![13u8, 10, 13, 10] + body;
            &&& length <= body.len() ==> response(raw) == Ok::<(u16, Seq<u8>), ApiErrorView>(
                (status, body.take(length as int)),
            ) && complete(raw) == Ok::<bool, ApiErrorView>(true)
            &&& length > body.len() ==> response(raw) == Err::<(u16, Seq<u8>), ApiErrorView>(
                ApiErrorView::Protocol("response body is shorter than its length"@),
            ) && complete(raw) == Ok::<bool, ApiErrorView>(false)
        }),
{
    let raw = head + seq![13u8, 10, 13, 10] + body;
    assert(raw.take(head.len() as int) =~= head);
    let end = head.len() as int;
    if length <= body.len() {
        assert(raw.subrange(end + 4, end + 4 + length) =~= body.take(length as int));
    }
}

/// A response whose headers are refused is refused with the same words, while it
/// is read and when it is taken apart.
pub proof fn law_refused_headers_refuse_the_response(raw: Seq<u8>, end: int)
    requires
        header_end(raw) == Some(end),
        0 <= end <= raw.len(),
    ensures
        end <= 8192 ==> (headers(raw.take(end)) matches Err(e) ==> response(raw) == Err::<
            (u16, Seq<u8>),
            ApiErrorView,
        >(e) && complete(raw) == Err::<bool, ApiErrorView>(e)),
{
}

/// Every error says in words what went wrong and carries its cause.
pub proof fn law_errors_carry_their_cause(cause: Seq<char>, code: u16)
    ensures
        api_error_text(ApiErrorView::Unsupported(cause)) == "tailscale localapi unsupported: "@
            + cause,
        api_error_text(ApiErrorView::Absent(cause)) == "tailscale is not running: "@ + cause,
        api_error_text(ApiErrorView::Transport(cause)) == "tailscale localapi transport: "@ + cause,
        api_error_text(ApiErrorView::Timeout) == "tailscale localapi timed out"@,
        api_error_text(ApiErrorView::Status(code)) == "tailscale localapi answered HTTP "@
            + decimal(code as nat),
        api_error_text(ApiErrorView::Protocol(cause)) == "tailscale localapi protocol: "@ + cause,
        api_error_text(ApiErrorView::Parse(cause)) == "tailscale localapi json: "@ + cause,
{
}

/// Headers that are no UTF-8 are refused as that.
pub proof fn law_headers_must_be_utf8(bytes: Seq<u8>)
    requires
        !valid_utf8(bytes),
    ensures
        headers(bytes) == Err::<(u16, nat), ApiErrorView>(
            ApiErrorView::Protocol("response headers are not UTF-8"@),
        ),
{
}

} // verus!
