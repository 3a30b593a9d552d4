//! Tailscale's LocalAPI: which node and login own an address, and who this node
//! is.
//!
//! The transport, the clock and the JSON reader are outside. The library says
//! where to connect, what to send, when a read is over, and what an answer
//! means.
use crate::json::{json_null, json_rendered, json_str, rendered};
pub use crate::platform::Platform;
use crate::tailscale_http::{
    complete, parse_http_response, response, response_is_complete, ApiErrorView, LocalApiError,
    BODY_CAP, HEADER_CAP,
};
use crate::text::{chars_of, find_text, find_word, lemma_split_first, same_text, text_of, texts_of};
use crate::transport::ERROR_PIPE_BUSY;
use crate::wire::{text3, text_view};
use crate::workspace_create::str_view;
use vstd::prelude::*;
use vstd::slice::slice_subrange;

verus! {

/// The pipe that tailscaled listens on.
pub const LOCALAPI_PIPE: &'static str =
    "\\\\.\\pipe\\ProtectedPrefix\\Administrators\\Tailscale\\tailscaled";

/// The socket that a standalone tailscaled listens on elsewhere.
pub const DEFAULT_UNIX_SOCKET: &'static str = "/var/run/tailscaled.socket";

/// The environment variable that overrides the pipe's name or the socket's path.
pub const ENDPOINT_ENV: &'static str = "DEVBOULE_TAILSCALE_ENDPOINT";

/// The time that one exchange may take, in milliseconds.
pub const DEFAULT_TIMEOUT_MS: u64 = 2000;

/// Where the LocalAPI listens.
#[derive(Debug, PartialEq, Eq)]
pub enum Endpoint {
    Pipe(String),
    UnixSocket(String),
}

/// `Endpoint` over the characters of its text.
pub ghost enum EndpointView {
    Pipe(Seq<char>),
    UnixSocket(Seq<char>),
}

impl View for Endpoint {
    type V = EndpointView;

    open spec fn view(&self) -> EndpointView {
        match self {
            Endpoint::Pipe(name) => EndpointView::Pipe(name@),
            Endpoint::UnixSocket(path) => EndpointView::UnixSocket(path@),
        }
    }
}

/// A place on a platform.
pub open spec fn endpoint_at(platform: Platform, place: Seq<char>) -> EndpointView {
    match platform {
        Platform::Windows => EndpointView::Pipe(place),
        Platform::Unix => EndpointView::UnixSocket(place),
    }
}

/// The configured endpoint, where it is set and not empty; else the platform's
/// own.
pub open spec fn chosen_endpoint(
    platform: Platform,
    configured: Option<Seq<char>>,
) -> EndpointView {
    match configured {
        Some(place) if place.len() > 0 => endpoint_at(platform, place),
        _ => match platform {
            Platform::Windows => EndpointView::Pipe(LOCALAPI_PIPE@),
            Platform::Unix => EndpointView::UnixSocket(DEFAULT_UNIX_SOCKET@),
        },
    }
}

fn default_endpoint(platform: Platform, configured: Option<&str>) -> (r: Endpoint)
    ensures
        r@ == chosen_endpoint(platform, str_view(configured)),
{
    if let Some(place) = configured {
        if !place.is_empty() {
            return match platform {
                Platform::Windows => Endpoint::Pipe(place.to_owned()),
                Platform::Unix => Endpoint::UnixSocket(place.to_owned()),
            };
        }
    }
    match platform {
        Platform::Windows => Endpoint::Pipe(LOCALAPI_PIPE.to_owned()),
        Platform::Unix => Endpoint::UnixSocket(DEFAULT_UNIX_SOCKET.to_owned()),
    }
}

/// A client of the LocalAPI.
#[derive(Debug)]
pub struct LocalApiClient {
    pub endpoint: Endpoint,
    pub timeout_ms: u64,
}

impl LocalApiClient {
    /// A client for the default endpoint; `configured` is what the environment
    /// says.
    pub fn new(platform: Platform, configured: Option<&str>) -> (r: LocalApiClient)
        ensures
            r.endpoint@ == chosen_endpoint(platform, str_view(configured)),
            r.timeout_ms == DEFAULT_TIMEOUT_MS,
    {
        LocalApiClient::with_endpoint(default_endpoint(platform, configured), DEFAULT_TIMEOUT_MS)
    }

    /// A client for the default endpoint with a time of its own.
    pub fn with_timeout(platform: Platform, configured: Option<&str>, timeout_ms: u64) -> (r:
        LocalApiClient)
        ensures
            r.endpoint@ == chosen_endpoint(platform, str_view(configured)),
            r.timeout_ms == timeout_ms,
    {
        LocalApiClient::with_endpoint(default_endpoint(platform, configured), timeout_ms)
    }

    /// A client for the given endpoint.
    pub fn with_endpoint(endpoint: Endpoint, timeout_ms: u64) -> (r: LocalApiClient)
        ensures
            r.endpoint == endpoint,
            r.timeout_ms == timeout_ms,
    {
        LocalApiClient { endpoint, timeout_ms }
    }

    /// A client for the given pipe.
    pub fn with_pipe_name(pipe_name: &str, timeout_ms: u64) -> (r: LocalApiClient)
        ensures
            r.endpoint@ == EndpointView::Pipe(pipe_name@),
            r.timeout_ms == timeout_ms,
    {
        LocalApiClient { endpoint: Endpoint::Pipe(pipe_name.to_owned()), timeout_ms }
    }
}

/// The request for a path.
pub open spec fn get_request(path_and_query: Seq<char>) -> Seq<char> {
    "GET "@ + path_and_query
        + " HTTP/1.1\r\nHost: local-tailscaled.sock\r\nConnection: close\r\n\r\n"@
}

/// The bytes to send for a path, as text.
pub fn request_text(path_and_query: &str) -> (r: String)
    ensures
        r@ == get_request(path_and_query@),
{
    text3(
        "GET ",
        path_and_query,
        " HTTP/1.1\r\nHost: local-tailscaled.sock\r\nConnection: close\r\n\r\n",
    )
}

/// The path that asks who owns an address and port.
pub fn whois_path(addr: &str) -> (r: String)
    ensures
        r@ == "/localapi/v0/whois?addr="@ + addr@,
{
    let mut r = "/localapi/v0/whois?addr=".to_owned();
    r.append(addr);
    r
}

/// The path that asks who this node is.
pub fn status_path() -> (r: String)
    ensures
        r@ == "/localapi/v0/status"@,
{
    "/localapi/v0/status".to_owned()
}

/// The body of a response, where its status is 200.
pub open spec fn body_of(raw: Seq<u8>) -> Result<Seq<u8>, ApiErrorView> {
    match response(raw) {
        Err(e) => Err(e),
        Ok((status, body)) => if status != 200 {
            Err(ApiErrorView::Status(status))
        } else {
            Ok(body)
        },
    }
}

/// The outcome of a request.
pub open spec fn body_view(r: Result<Vec<u8>, LocalApiError>) -> Result<Seq<u8>, ApiErrorView> {
    match r {
        Ok(body) => Ok(body@),
        Err(e) => Err(e@),
    }
}

/// The answer to a request, from the bytes that came back.
pub fn response_body(raw: &[u8]) -> (r: Result<Vec<u8>, LocalApiError>)
    ensures
        body_view(r) == body_of(raw@),
{
    match parse_http_response(raw) {
        Err(e) => Err(e),
        Ok((status, body)) => if status != 200 {
            Err(LocalApiError::Status(status))
        } else {
            Ok(body)
        },
    }
}

/// What happened when the pipe could not be opened.
#[derive(Clone, Copy, Debug, PartialEq, Eq, Structural)]
pub enum OpenFailure {
    /// All its instances are taken for this instant.
    Busy,
    /// There is no such pipe.
    NotFound,
    /// Another error of the operating system.
    Other(u32),
}

/// What to do about a pipe that could not be opened.
#[derive(Debug)]
pub enum OpenStep {
    /// Wait until an instance is free, then try again.
    WaitForInstance,
    /// Sleep for a moment, then try again.
    Sleep,
    Fail(LocalApiError),
}

/// A busy or missing pipe is tried again while there is time. When time is up, a
/// missing pipe means that Tailscale is not running.
pub fn open_pipe_step(pipe_name: &str, failure: OpenFailure, before_deadline: bool) -> (r: OpenStep)
    ensures
        match failure {
            OpenFailure::Busy => if before_deadline {
                r is WaitForInstance
            } else {
                r matches OpenStep::Fail(e) && e@ == open_failed(pipe_name@, ERROR_PIPE_BUSY)
            },
            OpenFailure::NotFound => if before_deadline {
                r is Sleep
            } else {
                r matches OpenStep::Fail(e) && e@ == ApiErrorView::Absent(
                    pipe_name@ + " does not exist"@,
                )
            },
            OpenFailure::Other(code) => r matches OpenStep::Fail(e) && e@ == open_failed(
                pipe_name@,
                code,
            ),
        },
{
    match failure {
        OpenFailure::Busy => if before_deadline {
            OpenStep::WaitForInstance
        } else {
            OpenStep::Fail(open_failure(pipe_name, ERROR_PIPE_BUSY))
        },
        OpenFailure::NotFound => if before_deadline {
            OpenStep::Sleep
        } else {
            let mut message = pipe_name.to_owned();
            message.append(" does not exist");
            OpenStep::Fail(LocalApiError::Absent(message))
        },
        OpenFailure::Other(code) => OpenStep::Fail(open_failure(pipe_name, code)),
    }
}

pub open spec fn open_failed(pipe_name: Seq<char>, code: u32) -> ApiErrorView {
    ApiErrorView::Transport(
        "CreateFileW("@ + pipe_name + ") failed with os error "@ + crate::numbers::decimal(
            code as nat,
        ),
    )
}

fn open_failure(pipe_name: &str, code: u32) -> (r: LocalApiError)
    ensures
        r@ == open_failed(pipe_name@, code),
{
    let mut message = text3("CreateFileW(", pipe_name, ") failed with os error ");
    message.append(crate::numbers::decimal_text(code as u64).as_str());
    LocalApiError::Transport(message)
}

/// The error of a failed read or write.
pub open spec fn io_error(timed_out: bool, step: Seq<char>, error: Seq<char>) -> ApiErrorView {
    if timed_out {
        ApiErrorView::Timeout
    } else {
        ApiErrorView::Transport(step + ": "@ + error)
    }
}

/// The error of a failed read or write; `timed_out` says that it timed out or
/// would have blocked.
pub fn map_io(timed_out: bool, step: &str, error: &str) -> (r: LocalApiError)
    ensures
        r@ == io_error(timed_out, step@, error@),
{
    if timed_out {
        LocalApiError::Timeout
    } else {
        LocalApiError::Transport(text3(step, ": ", error))
    }
}

/// The answer where tailscaled runs in the macOS sandbox, whose transport is not
/// there.
pub fn macos_sandbox_is_a_later_slice() -> (r: LocalApiError)
    ensures
        r@ == ApiErrorView::Unsupported(
            "the macOS App Store tailscaled transport (loopback port plus a same-user token) is slice 6"@,
        ),
{
    LocalApiError::Unsupported(
        "the macOS App Store tailscaled transport (loopback port plus a same-user token) is slice 6".to_owned(),
    )
}

/// What a read gave.
#[derive(Debug)]
pub enum ReadEvent {
    /// Bytes; none of them means the end of the stream.
    Bytes(Vec<u8>),
    /// The deadline passed.
    Deadline,
    Failed { timed_out: bool, error: String },
}

/// What to do after a read.
#[derive(Debug)]
pub enum ReadStep {
    More,
    /// The bytes so far are the response.
    Done,
    Fail(LocalApiError),
}

/// `ReadStep` over the characters of its texts.
pub ghost enum ReadStepView {
    More,
    Done,
    Fail(ApiErrorView),
}

impl View for ReadStep {
    type V = ReadStepView;

    open spec fn view(&self) -> ReadStepView {
        match self {
            ReadStep::More => ReadStepView::More,
            ReadStep::Done => ReadStepView::Done,
            ReadStep::Fail(e) => ReadStepView::Fail(e@),
        }
    }
}

/// The bytes so far after a read.
pub open spec fn raw_after(raw: Seq<u8>, event: ReadEvent) -> Seq<u8> {
    match event {
        ReadEvent::Bytes(bytes) => raw + bytes@,
        _ => raw,
    }
}

/// What to do after a read: the stream's end or a complete response is the end,
/// and a response over the caps is refused.
pub open spec fn read_step(raw: Seq<u8>, event: ReadEvent) -> ReadStepView {
    match event {
        ReadEvent::Deadline => ReadStepView::Fail(ApiErrorView::Timeout),
        ReadEvent::Failed { timed_out, error } => ReadStepView::Fail(
            io_error(timed_out, "reading the response"@, error@),
        ),
        ReadEvent::Bytes(bytes) => if bytes@.len() == 0 {
            ReadStepView::Done
        } else if raw.len() + bytes@.len() > HEADER_CAP + BODY_CAP {
            ReadStepView::Fail(
                ApiErrorView::Protocol("response exceeds the 64 KiB body cap"@),
            )
        } else {
            match complete(raw + bytes@) {
                Err(e) => ReadStepView::Fail(e),
                Ok(true) => ReadStepView::Done,
                Ok(false) => ReadStepView::More,
            }
        },
    }
}

/// Takes in what a read gave and says what to do next.
pub fn read_response(raw: &mut Vec<u8>, event: ReadEvent) -> (r: ReadStep)
    ensures
        r@ == read_step(old(raw)@, event),
        final(raw)@ == raw_after(old(raw)@, event),
{
    match event {
        ReadEvent::Deadline => ReadStep::Fail(LocalApiError::Timeout),
        ReadEvent::Failed { timed_out, error } => ReadStep::Fail(
            map_io(timed_out, "reading the response", error.as_str()),
        ),
        ReadEvent::Bytes(bytes) => {
            if bytes.len() == 0 {
                assert(raw@ + bytes@ =~= raw@);
                return ReadStep::Done;
            }
            let mut more = bytes;
            raw.append(&mut more);
            if raw.len() > HEADER_CAP + BODY_CAP {
                return ReadStep::Fail(
                    LocalApiError::Protocol("response exceeds the 64 KiB body cap".to_owned()),
                );
            }
            match response_is_complete(raw.as_slice()) {
                Err(e) => ReadStep::Fail(e),
                Ok(true) => ReadStep::Done,
                Ok(false) => ReadStep::More,
            }
        },
    }
}

/// Reading goes on only while the bytes are within the caps, and it goes on only
/// while no whole response is there.
pub proof fn law_reading_is_bounded(raw: Seq<u8>, event: ReadEvent)
    requires
        read_step(raw, event) is More,
    ensures
        raw_after(raw, event).len() <= HEADER_CAP + BODY_CAP,
        complete(raw_after(raw, event)) == Ok::<bool, ApiErrorView>(false),
{
}

/// An IP address by its bits.
#[derive(Clone, Copy, Debug, PartialEq, Eq, Structural)]
pub enum Address {
    V4(u32),
    V6(u128),
}

/// What `whois` proves about a connection.
#[derive(Debug)]
pub struct WhoIs {
    pub stable_id: String,
    pub node_name: String,
    pub login_name: String,
    pub user_id: String,
    pub addresses: Vec<Address>,
    /// The response carried a `CapMap` that is not null.
    pub cap_map_present: bool,
}

/// This node's own identity on the tailnet.
#[derive(Debug)]
pub struct SelfNode {
    pub stable_id: String,
    pub node_name: String,
    pub addresses: Vec<Address>,
}

/// A node as a response names it.
#[derive(Debug)]
pub struct ApiNode {
    pub stable_id: Option<String>,
    pub name: Option<String>,
    pub dns_name: Option<String>,
    pub addresses: Vec<String>,
    pub tailscale_ips: Vec<String>,
}

/// A user as a response names it.
#[derive(Debug)]
pub struct WhoIsUser {
    pub id: Option<serde_json::Value>,
    pub login_name: Option<String>,
}

/// The response to `whois`.
#[derive(Debug)]
pub struct WhoIsResponse {
    pub node: Option<ApiNode>,
    pub user_profile: Option<WhoIsUser>,
    pub cap_map: serde_json::Value,
}

/// The response to `status`.
#[derive(Debug)]
pub struct StatusResponse {
    pub self_node: Option<ApiNode>,
}

/// An address without its prefix length.
pub open spec fn bare_address(entry: Seq<char>) -> Seq<char> {
    match find_word(entry, "/"@, 0) {
        Some(i) => entry.take(i),
        None => entry,
    }
}

/// The addresses of a node without their prefix lengths, `Addresses` first, then
/// `TailscaleIPs`.
pub open spec fn bare_addresses_of(node: ApiNode) -> Seq<Seq<char>> {
    (texts_of(node.addresses@) + texts_of(node.tailscale_ips@)).map_values(
        |e: Seq<char>| bare_address(e),
    )
}

fn bare(entry: &str) -> (r: String)
    ensures
        r@ == bare_address(entry@),
{
    proof {
        reveal_strlit("/");
    }
    let s = chars_of(entry);
    match find_text(s.as_slice(), "/", 0) {
        Some(i) => {
            let head = slice_subrange(s.as_slice(), 0, i);
            assert(head@ =~= entry@.take(i as int));
            text_of(head)
        },
        None => text_of(s.as_slice()),
    }
}

/// The addresses of a node as they are to be read.
pub fn bare_addresses(node: &ApiNode) -> (r: Vec<String>)
    ensures
        texts_of(r@) == bare_addresses_of(*node),
{
    let mut r: Vec<String> = Vec::new();
    let ghost wanted = bare_addresses_of(*node);
    let mut i: usize = 0;
    while i < node.addresses.len()
        invariant
            i <= node.addresses@.len(),
            wanted == bare_addresses_of(*node),
            texts_of(r@) == wanted.take(i as int),
        decreases node.addresses@.len() - i,
    {
        let ghost before = r@;
        r.push(bare(node.addresses[i].as_str()));
        i = i + 1;
        assert(texts_of(r@) =~= texts_of(before).push(wanted[i - 1]));
        assert(texts_of(r@) =~= wanted.take(i as int));
    }
    let mut j: usize = 0;
    while j < node.tailscale_ips.len()
        invariant
            j <= node.tailscale_ips@.len(),
            i == node.addresses@.len(),
            wanted == bare_addresses_of(*node),
            texts_of(r@) == wanted.take(i + j),
        decreases node.tailscale_ips@.len() - j,
    {
        let ghost before = r@;
        r.push(bare(node.tailscale_ips[j].as_str()));
        j = j + 1;
        assert(texts_of(r@) =~= texts_of(before).push(wanted[i + j - 1]));
        assert(texts_of(r@) =~= wanted.take(i + j));
    }
    assert(wanted.take(i + j) =~= wanted);
    r
}

/// The addresses that could be read, each once, in the order in which they were
/// first seen.
pub open spec fn distinct_addresses(read: Seq<Option<Address>>) -> Seq<Address>
    decreases read.len(),
{
    if read.len() == 0 {
        Seq::empty()
    } else {
        let before = distinct_addresses(read.drop_last());
        match read.last() {
            Some(a) if !before.contains(a) => before.push(a),
            _ => before,
        }
    }
}

/// Keeps the addresses that could be read; `read` has what each entry reads as.
pub fn parse_addresses(read: &[Option<Address>]) -> (r: Vec<Address>)
    ensures
        r@ == distinct_addresses(read@),
{
    let mut r: Vec<Address> = Vec::new();
    let mut i: usize = 0;
    while i < read.len()
        invariant
            i <= read@.len(),
            r@ == distinct_addresses(read@.take(i as int)),
        decreases read@.len() - i,
    {
        assert(read@.take(i + 1).drop_last() =~= read@.take(i as int));
        if let Some(a) = read[i] {
            let mut known = false;
            let mut k: usize = 0;
            while k < r.len()
                invariant
                    k <= r@.len(),
                    known == r@.take(k as int).contains(a),
                decreases r@.len() - k,
            {
                assert(r@.take(k + 1) =~= r@.take(k as int).push(r@[k as int]));
                if r[k] == a {
                    known = true;
                    assert(r@.take(k + 1)[k as int] == a);
                } else if known {
                    proof {
                        let w = choose|w: int| 0 <= w < k && r@.take(k as int)[w] == a;
                        assert(r@.take(k + 1)[w] == a);
                    }
                }
                k = k + 1;
            }
            assert(r@.take(k as int) =~= r@);
            if !known {
                r.push(a);
            }
        }
        i = i + 1;
    }
    assert(read@.take(i as int) =~= read@);
    r
}

/// What the text of an address reads as; nothing where it is no address.
#[derive(Debug)]
pub struct ReadAddress {
    pub text: String,
    pub address: Option<Address>,
}

/// What a text reads as, by the first reading of it.
pub open spec fn reads_as(readings: Seq<ReadAddress>, text: Seq<char>) -> Option<Address>
    decreases readings.len(),
{
    if readings.len() == 0 {
        None
    } else if readings[0].text@ == text {
        readings[0].address
    } else {
        reads_as(readings.skip(1), text)
    }
}

/// What each of a node's addresses reads as.
pub open spec fn node_readings(node: ApiNode, readings: Seq<ReadAddress>) -> Seq<Option<Address>> {
    bare_addresses_of(node).map_values(|text: Seq<char>| reads_as(readings, text))
}

fn look_up(readings: &[ReadAddress], text: &str) -> (r: Option<Address>)
    ensures
        r == reads_as(readings@, text@),
{
    let mut i: usize = 0;
    assert(readings@.skip(0) =~= readings@);
    while i < readings.len()
        invariant
            i <= readings@.len(),
            reads_as(readings@, text@) == reads_as(readings@.skip(i as int), text@),
        decreases readings@.len() - i,
    {
        assert(readings@.skip(i as int)[0] == readings@[i as int]);
        assert(readings@.skip(i as int).skip(1) =~= readings@.skip(i + 1));
        if same_text(readings[i].text.as_str(), text) {
            return readings[i].address;
        }
        i = i + 1;
    }
    None
}

fn node_addresses(node: &ApiNode, readings: &[ReadAddress]) -> (r: Vec<Address>)
    ensures
        r@ == distinct_addresses(node_readings(*node, readings@)),
{
    let texts = bare_addresses(node);
    let ghost wanted = node_readings(*node, readings@);
    let mut read: Vec<Option<Address>> = Vec::new();
    let mut i: usize = 0;
    assert(read@ =~= wanted.take(0));
    while i < texts.len()
        invariant
            i <= texts@.len(),
            texts_of(texts@) == bare_addresses_of(*node),
            wanted == node_readings(*node, readings@),
            read@ == wanted.take(i as int),
        decreases texts@.len() - i,
    {
        read.push(look_up(readings, texts[i].as_str()));
        i = i + 1;
        assert(texts_of(texts@)[i - 1] == texts@[i - 1]@);
        assert(read@ =~= wanted.take(i as int));
    }
    assert(texts_of(texts@).len() == texts@.len());
    assert(wanted.take(i as int) =~= wanted);
    parse_addresses(read.as_slice())
}

/// No address is reported twice.
pub proof fn law_addresses_are_distinct(read: Seq<Option<Address>>)
    ensures
        distinct_addresses(read).no_duplicates(),
        forall|a: Address|
            distinct_addresses(read).contains(a) <==> #[trigger] read.contains(Some(a)),
    decreases read.len(),
{
    if read.len() > 0 {
        law_addresses_are_distinct(read.drop_last());
        let before = distinct_addresses(read.drop_last());
        let rest = read.drop_last();
        assert(read =~= rest.push(read.last()));
        assert forall|a: Address|
            distinct_addresses(read).contains(a) <==> #[trigger] read.contains(Some(a)) by {
            assert(rest.contains(Some(a)) <==> before.contains(a));
            if distinct_addresses(read).contains(a) {
                let i = choose|i: int|
                    0 <= i < distinct_addresses(read).len() && distinct_addresses(read)[i] == a;
                if i < before.len() {
                    assert(before[i] == a);
                    let k = choose|k: int| 0 <= k < rest.len() && rest[k] == Some(a);
                    assert(read[k] == Some(a));
                } else {
                    assert(read[read.len() - 1] == Some(a));
                }
            }
            if read.contains(Some(a)) {
                let k = choose|k: int| 0 <= k < read.len() && read[k] == Some(a);
                if k < rest.len() {
                    assert(rest[k] == Some(a));
                    let i = choose|i: int| 0 <= i < before.len() && before[i] == a;
                    assert(distinct_addresses(read)[i] == a);
                } else if !before.contains(a) {
                    assert(distinct_addresses(read)[before.len() as int] == a);
                } else {
                    let i = choose|i: int| 0 <= i < before.len() && before[i] == a;
                    assert(distinct_addresses(read)[i] == a);
                }
            }
        }
    }
}

/// The text, or "" where it is missing.
pub open spec fn or_empty(t: Option<Seq<char>>) -> Seq<char> {
    match t {
        Some(t) => t,
        None => ""@,
    }
}

fn string_or_empty(value: &Option<String>) -> (r: String)
    ensures
        r@ == or_empty(text_view(*value)),
{
    match value {
        Some(t) => t.clone(),
        None => "".to_owned(),
    }
}

/// A node's name: `Name`, else `DNSName`, else "".
pub open spec fn node_title(node: ApiNode) -> Seq<char> {
    match node.name {
        Some(n) => n@,
        None => or_empty(text_view(node.dns_name)),
    }
}

fn node_name(node: &ApiNode) -> (r: String)
    ensures
        r@ == node_title(*node),
{
    match &node.name {
        Some(n) => n.clone(),
        None => string_or_empty(&node.dns_name),
    }
}

/// What stands where a user's id is expected.
#[derive(Debug)]
pub enum IdValue {
    Missing,
    Null,
    Text(String),
    /// Anything else, in its JSON writing.
    Other(String),
}

/// `IdValue` over the characters of its texts.
pub ghost enum IdValueView {
    Missing,
    Null,
    Text(Seq<char>),
    Other(Seq<char>),
}

impl View for IdValue {
    type V = IdValueView;

    open spec fn view(&self) -> IdValueView {
        match self {
            IdValue::Missing => IdValueView::Missing,
            IdValue::Null => IdValueView::Null,
            IdValue::Text(t) => IdValueView::Text(t@),
            IdValue::Other(t) => IdValueView::Other(t@),
        }
    }
}

/// What a JSON value is as a user's id.
pub open spec fn id_value(value: Option<serde_json::Value>) -> IdValueView {
    match value {
        None => IdValueView::Missing,
        Some(v) => match json_str(v) {
            Some(t) => IdValueView::Text(t),
            None => if json_null(v) {
                IdValueView::Null
            } else {
                IdValueView::Other(json_rendered(v))
            },
        },
    }
}

/// A user's id as text: a missing or null one is "", and any other stays as it
/// is written.
pub open spec fn id_text(value: IdValueView) -> Seq<char> {
    match value {
        IdValueView::Text(t) => t,
        IdValueView::Other(t) => t,
        _ => ""@,
    }
}

/// A user's id as text.
pub fn id_value_text(value: IdValue) -> (r: String)
    ensures
        r@ == id_text(value@),
{
    match value {
        IdValue::Text(t) => t,
        IdValue::Other(t) => t,
        _ => "".to_owned(),
    }
}

fn json_id(value: &Option<serde_json::Value>) -> (r: String)
    ensures
        r@ == id_text(id_value(*value)),
{
    let found = match value {
        None => IdValue::Missing,
        Some(v) => match v.as_str() {
            Some(t) => IdValue::Text(t.to_owned()),
            None => if v.is_null() {
                IdValue::Null
            } else {
                IdValue::Other(rendered(v))
            },
        },
    };
    id_value_text(found)
}

/// `WhoIs` over the characters of its texts.
pub ghost struct WhoIsView {
    pub stable_id: Seq<char>,
    pub node_name: Seq<char>,
    pub login_name: Seq<char>,
    pub user_id: Seq<char>,
    pub addresses: Seq<Address>,
    pub cap_map_present: bool,
}

impl View for WhoIs {
    type V = WhoIsView;

    open spec fn view(&self) -> WhoIsView {
        WhoIsView {
            stable_id: self.stable_id@,
            node_name: self.node_name@,
            login_name: self.login_name@,
            user_id: self.user_id@,
            addresses: self.addresses@,
            cap_map_present: self.cap_map_present,
        }
    }
}

/// `SelfNode` over the characters of its texts.
pub ghost struct SelfNodeView {
    pub stable_id: Seq<char>,
    pub node_name: Seq<char>,
    pub addresses: Seq<Address>,
}

impl View for SelfNode {
    type V = SelfNodeView;

    open spec fn view(&self) -> SelfNodeView {
        SelfNodeView {
            stable_id: self.stable_id@,
            node_name: self.node_name@,
            addresses: self.addresses@,
        }
    }
}

/// The outcome of `whois`.
pub open spec fn whois_view(r: Result<WhoIs, LocalApiError>) -> Result<WhoIsView, ApiErrorView> {
    match r {
        Ok(w) => Ok(w@),
        Err(e) => Err(e@),
    }
}

/// The outcome of `status`.
pub open spec fn self_node_view(r: Result<SelfNode, LocalApiError>) -> Result<
    SelfNodeView,
    ApiErrorView,
> {
    match r {
        Ok(n) => Ok(n@),
        Err(e) => Err(e@),
    }
}

/// What a `whois` response proves: a node with a stable id is required, and a
/// missing user has neither login nor id.
pub open spec fn whois_of(
    parsed: Result<WhoIsResponse, String>,
    readings: Seq<ReadAddress>,
) -> Result<WhoIsView, ApiErrorView> {
    match parsed {
        Err(error) => Err(ApiErrorView::Parse(error@)),
        Ok(response) => match response.node {
            None => Err(ApiErrorView::Parse("whois response has no Node"@)),
            Some(node) => if or_empty(text_view(node.stable_id)).len() == 0 {
                Err(ApiErrorView::Parse("whois Node has no StableID"@))
            } else {
                Ok(
                    WhoIsView {
                        stable_id: or_empty(text_view(node.stable_id)),
                        node_name: node_title(node),
                        login_name: match response.user_profile {
                            Some(user) => or_empty(text_view(user.login_name)),
                            None => ""@,
                        },
                        user_id: match response.user_profile {
                            Some(user) => id_text(id_value(user.id)),
                            None => ""@,
                        },
                        addresses: distinct_addresses(node_readings(node, readings)),
                        cap_map_present: !json_null(response.cap_map),
                    },
                )
            },
        },
    }
}

/// Reads the answer to `whois`. `parsed` is what the body reads as, and
/// `readings` what the texts of the node's addresses read as.
pub fn parse_whois(parsed: &Result<WhoIsResponse, String>, readings: &[ReadAddress]) -> (r: Result<
    WhoIs,
    LocalApiError,
>)
    ensures
        whois_view(r) == whois_of(*parsed, readings@),
{
    let response = match parsed {
        Err(error) => {
            return Err(LocalApiError::Parse(error.clone()));
        },
        Ok(response) => response,
    };
    let node = match &response.node {
        None => {
            return Err(LocalApiError::Parse("whois response has no Node".to_owned()));
        },
        Some(node) => node,
    };
    let stable_id = string_or_empty(&node.stable_id);
    if stable_id.as_str().is_empty() {
        return Err(LocalApiError::Parse("whois Node has no StableID".to_owned()));
    }
    let none: Option<String> = None;
    let no_id: Option<serde_json::Value> = None;
    let (login_name, user_id) = match &response.user_profile {
        Some(user) => (string_or_empty(&user.login_name), json_id(&user.id)),
        None => (string_or_empty(&none), json_id(&no_id)),
    };
    Ok(
        WhoIs {
            stable_id,
            node_name: node_name(node),
            login_name,
            user_id,
            addresses: node_addresses(node, readings),
            cap_map_present: !response.cap_map.is_null(),
        },
    )
}

/// What a `status` response says of this node.
pub open spec fn self_node_of(
    parsed: Result<StatusResponse, String>,
    readings: Seq<ReadAddress>,
) -> Result<SelfNodeView, ApiErrorView> {
    match parsed {
        Err(error) => Err(ApiErrorView::Parse(error@)),
        Ok(response) => match response.self_node {
            None => Err(ApiErrorView::Parse("status response has no Self"@)),
            Some(node) => Ok(
                SelfNodeView {
                    stable_id: or_empty(text_view(node.stable_id)),
                    node_name: node_title(node),
                    addresses: distinct_addresses(node_readings(node, readings)),
                },
            ),
        },
    }
}

/// Reads the answer to `status`. `parsed` is what the body reads as, and
/// `readings` what the texts of the node's addresses read as.
pub fn parse_self_node(parsed: &Result<StatusResponse, String>, readings: &[ReadAddress]) -> (r:
    Result<SelfNode, LocalApiError>)
    ensures
        self_node_view(r) == self_node_of(*parsed, readings@),
{
    let response = match parsed {
        Err(error) => {
            return Err(LocalApiError::Parse(error.clone()));
        },
        Ok(response) => response,
    };
    match &response.self_node {
        None => Err(LocalApiError::Parse("status response has no Self".to_owned())),
        Some(node) => Ok(
            SelfNode {
                stable_id: string_or_empty(&node.stable_id),
                node_name: node_name(node),
                addresses: node_addresses(node, readings),
            },
        ),
    }
}

/// A configured place that is not empty is where the LocalAPI listens: a pipe on
/// Windows, a socket elsewhere. Else it listens where Tailscale puts it.
pub proof fn law_the_configured_place_counts(place: Seq<char>)
    ensures
        place.len() > 0 ==> chosen_endpoint(Platform::Windows, Some(place)) == EndpointView::Pipe(
            place,
        ),
        place.len() > 0 ==> chosen_endpoint(Platform::Unix, Some(place))
            == EndpointView::UnixSocket(place),
        place.len() == 0 ==> forall|p: Platform|
            #[trigger] chosen_endpoint(p, Some(place)) == chosen_endpoint(p, None),
        chosen_endpoint(Platform::Windows, None) == EndpointView::Pipe(
            "\\\\.\\pipe\\ProtectedPrefix\\Administrators\\Tailscale\\tailscaled"@,
        ),
        chosen_endpoint(Platform::Unix, None) == EndpointView::UnixSocket(
            "/var/run/tailscaled.socket"@,
        ),
{
}

/// A request asks for its path by name, behind `GET ` and before the rest of one
/// fixed head that ends in an empty line.
pub proof fn law_requests_ask_for_their_path(path: Seq<char>)
    ensures
        get_request(path).take(4) == "GET "@,
        get_request(path).subrange(4, 4 + path.len() as int) == path,
        get_request(path).skip(4 + path.len() as int)
            == " HTTP/1.1\r\nHost: local-tailscaled.sock\r\nConnection: close\r\n\r\n"@,
{
    reveal_strlit("GET ");
    assert(get_request(path).take(4) =~= "GET "@);
    assert(get_request(path).subrange(4, 4 + path.len() as int) =~= path);
    assert(get_request(path).skip(4 + path.len() as int)
        =~= " HTTP/1.1\r\nHost: local-tailscaled.sock\r\nConnection: close\r\n\r\n"@);
}

/// Only a response with the status 200 has a body for the caller.
pub proof fn law_only_success_has_a_body(raw: Seq<u8>, status: u16, body: Seq<u8>)
    ensures
        response(raw) == Ok::<(u16, Seq<u8>), ApiErrorView>((200u16, body)) ==> body_of(raw) == Ok::<
            Seq<u8>,
            ApiErrorView,
        >(body),
        status != 200 && response(raw) == Ok::<(u16, Seq<u8>), ApiErrorView>((status, body))
            ==> body_of(raw) == Err::<Seq<u8>, ApiErrorView>(ApiErrorView::Status(status)),
        response(raw) matches Err(e) ==> body_of(raw) == Err::<Seq<u8>, ApiErrorView>(e),
{
}

/// Reading goes on until the response is complete or the stream ends; over
/// 73,728 bytes, at the deadline and on a failure it is given up.
pub proof fn law_reading_ends_with_the_response(
    raw: Seq<u8>,
    bytes: Vec<u8>,
    timed_out: bool,
    error: String,
)
    ensures
        bytes@.len() == 0 ==> read_step(raw, ReadEvent::Bytes(bytes)) == ReadStepView::Done,
        bytes@.len() > 0 && raw.len() + bytes@.len() > 73728 ==> read_step(
            raw,
            ReadEvent::Bytes(bytes),
        ) == ReadStepView::Fail(ApiErrorView::Protocol("response exceeds the 64 KiB body cap"@)),
        bytes@.len() > 0 && raw.len() + bytes@.len() <= 73728 ==> {
            let step = read_step(raw, ReadEvent::Bytes(bytes));
            &&& step == ReadStepView::Done <==> complete(raw + bytes@) == Ok::<bool, ApiErrorView>(
                true,
            )
            &&& step == ReadStepView::More <==> complete(raw + bytes@) == Ok::<bool, ApiErrorView>(
                false,
            )
            &&& (complete(raw + bytes@) matches Err(e) ==> step == ReadStepView::Fail(e))
        },
        read_step(raw, ReadEvent::Deadline) == ReadStepView::Fail(ApiErrorView::Timeout),
        read_step(raw, ReadEvent::Failed { timed_out, error }) == ReadStepView::Fail(
            if timed_out {
                ApiErrorView::Timeout
            } else {
                ApiErrorView::Transport("reading the response: "@ + error@)
            },
        ),
        raw_after(raw, ReadEvent::Bytes(bytes)) == raw + bytes@,
        raw_after(raw, ReadEvent::Deadline) == raw,
        raw_after(raw, ReadEvent::Failed { timed_out, error }) == raw,
{
    reveal_strlit("reading the response");
    reveal_strlit(": ");
    reveal_strlit("reading the response: ");
    assert("reading the response"@ + ": "@ =~= "reading the response: "@);
}

/// An address is what stands before the first slash of its entry, and the whole
/// entry where there is none.
pub proof fn law_addresses_end_at_the_slash(address: Seq<char>, bits: Seq<char>)
    requires
        forall|i: int| 0 <= i < address.len() ==> #[trigger] address[i] != '/',
    ensures
        bare_address(address) == address,
        bare_address(address + "/"@ + bits) == address,
{
    reveal_strlit("/");
    assert("/"@ =~= seq!['/']);
    lemma_split_first(address, '/', bits);
    assert((address + "/"@ + bits).take(address.len() as int) =~= address);
}

/// A node's own addresses come first and its Tailscale addresses behind them, each
/// in its place.
pub proof fn law_nodes_keep_all_their_addresses(node: ApiNode, i: int)
    ensures
        bare_addresses_of(node).len() == node.addresses@.len() + node.tailscale_ips@.len(),
        0 <= i < node.addresses@.len() ==> bare_addresses_of(node)[i] == bare_address(
            node.addresses@[i]@,
        ),
        0 <= i < node.tailscale_ips@.len() ==> bare_addresses_of(node)[node.addresses@.len() + i]
            == bare_address(node.tailscale_ips@[i]@),
{
}

/// Addresses come in the order in which they first appear: what is read later
/// changes nothing of what is there.
pub proof fn law_addresses_come_in_their_order(
    first: Seq<Option<Address>>,
    second: Seq<Option<Address>>,
)
    ensures
        distinct_addresses(first).len() <= distinct_addresses(first + second).len(),
        distinct_addresses(first + second).take(distinct_addresses(first).len() as int)
            == distinct_addresses(first),
    decreases second.len(),
{
    let all = first + second;
    if second.len() == 0 {
        assert(all =~= first);
        assert(distinct_addresses(first).take(distinct_addresses(first).len() as int)
            =~= distinct_addresses(first));
    } else {
        law_addresses_come_in_their_order(first, second.drop_last());
        assert(all.drop_last() =~= first + second.drop_last());
        assert(distinct_addresses(all).take(distinct_addresses(first).len() as int)
            =~= distinct_addresses(all.drop_last()).take(distinct_addresses(first).len() as int));
    }
}

/// A text reads as the first reading under it says.
pub proof fn law_readings_are_looked_up_by_text(
    readings: Seq<ReadAddress>,
    text: Seq<char>,
    at: int,
)
    requires
        0 <= at <= readings.len(),
        forall|k: int| 0 <= k < at ==> (#[trigger] readings[k]).text@ != text,
        at < readings.len() ==> readings[at].text@ == text,
    ensures
        at < readings.len() ==> reads_as(readings, text) == readings[at].address,
        at == readings.len() ==> reads_as(readings, text) is None,
    decreases readings.len(),
{
    if readings.len() > 0 && at > 0 {
        assert(readings[0].text@ != text);
        let rest = readings.skip(1);
        assert forall|k: int| 0 <= k < at - 1 implies (#[trigger] rest[k]).text@ != text by {
            assert(rest[k] == readings[k + 1]);
        }
        law_readings_are_looked_up_by_text(rest, text, at - 1);
    }
}

/// A node is answered with its own id, its name or else its DNS name, and the
/// distinct addresses that its entries read as; one without an id is refused.
pub proof fn law_whois_answers_describe_the_node(
    response: WhoIsResponse,
    node: ApiNode,
    error: String,
    readings: Seq<ReadAddress>,
)
    requires
        response.node == Some(node),
    ensures
        ({
            let answer = whois_of(Ok(response), readings);
            let named = text_view(node.stable_id) matches Some(id) && id.len() > 0;
            &&& named <==> answer is Ok
            &&& !named ==> answer == Err::<WhoIsView, ApiErrorView>(
                ApiErrorView::Parse("whois Node has no StableID"@),
            )
            &&& (answer matches Ok(w) ==> {
                &&& Some(w.stable_id) == text_view(node.stable_id)
                &&& node.name is Some ==> w.node_name == node.name->0@
                &&& node.name is None && node.dns_name is Some ==> w.node_name == node.dns_name->0@
                &&& node.name is None && node.dns_name is None ==> w.node_name.len() == 0
                &&& w.cap_map_present == !json_null(response.cap_map)
                &&& w.addresses == distinct_addresses(
                    Seq::new(
                        bare_addresses_of(node).len(),
                        |i: int| reads_as(readings, bare_addresses_of(node)[i]),
                    ),
                )
            })
        }),
        whois_of(Err(error), readings) == Err::<WhoIsView, ApiErrorView>(
            ApiErrorView::Parse(error@),
        ),
        whois_of(Ok(WhoIsResponse { node: None, ..response }), readings) == Err::<
            WhoIsView,
            ApiErrorView,
        >(ApiErrorView::Parse("whois response has no Node"@)),
{
    reveal_strlit("");
    assert(node_readings(node, readings) =~= Seq::new(
        bare_addresses_of(node).len(),
        |i: int| reads_as(readings, bare_addresses_of(node)[i]),
    ));
}

/// The user of a node is answered with their login name and with their id, which
/// may be text or any other value in its JSON writing; without a profile both are
/// empty.
pub proof fn law_whois_answers_name_the_user(
    response: WhoIsResponse,
    user: WhoIsUser,
    readings: Seq<ReadAddress>,
)
    requires
        whois_of(Ok(response), readings) is Ok,
    ensures
        ({
            let w = whois_of(Ok(response), readings)->Ok_0;
            &&& response.user_profile is None ==> w.login_name.len() == 0 && w.user_id.len() == 0
            &&& response.user_profile == Some(user) ==> {
                &&& user.login_name is Some ==> w.login_name == user.login_name->0@
                &&& user.login_name is None ==> w.login_name.len() == 0
                &&& user.id is None ==> w.user_id.len() == 0
                &&& (user.id matches Some(id) ==> {
                    &&& json_str(id) is Some ==> w.user_id == json_str(id)->0
                    &&& json_str(id) is None && json_null(id) ==> w.user_id.len() == 0
                    &&& json_str(id) is None && !json_null(id) ==> w.user_id == json_rendered(id)
                })
            }
        }),
{
    reveal_strlit("");
}

/// The daemon's own node is answered like any other, and may be without an id.
pub proof fn law_status_answers_describe_this_node(
    node: ApiNode,
    error: String,
    readings: Seq<ReadAddress>,
)
    ensures
        self_node_of(Ok(StatusResponse { self_node: Some(node) }), readings) matches Ok(n) && {
            &&& node.stable_id is Some ==> n.stable_id == node.stable_id->0@
            &&& node.stable_id is None ==> n.stable_id.len() == 0
            &&& node.name is Some ==> n.node_name == node.name->0@
            &&& node.name is None && node.dns_name is Some ==> n.node_name == node.dns_name->0@
            &&& node.name is None && node.dns_name is None ==> n.node_name.len() == 0
            &&& n.addresses == distinct_addresses(
                Seq::new(
                    bare_addresses_of(node).len(),
                    |i: int| reads_as(readings, bare_addresses_of(node)[i]),
                ),
            )
        },
        self_node_of(Ok(StatusResponse { self_node: None }), readings) == Err::<
            SelfNodeView,
            ApiErrorView,
        >(ApiErrorView::Parse("status response has no Self"@)),
        self_node_of(Err(error), readings) == Err::<SelfNodeView, ApiErrorView>(
            ApiErrorView::Parse(error@),
        ),
{
    reveal_strlit("");
    assert(node_readings(node, readings) =~= Seq::new(
        bare_addresses_of(node).len(),
        |i: int| reads_as(readings, bare_addresses_of(node)[i]),
    ));
}

/// A pipe that does not open is named with the system's code.
pub proof fn law_failed_opens_name_the_pipe(pipe: Seq<char>, code: u32)
    ensures
        open_failed(pipe, code) == ApiErrorView::Transport(
            "CreateFileW("@ + pipe + ") failed with os error "@ + crate::numbers::decimal(
                code as nat,
            ),
        ),
{
}

} // verus!
