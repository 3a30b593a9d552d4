//! What goes back to a client: rows, errors and their sentences.
use vstd::prelude::*;

verus! {

/// Why a request failed.
#[derive(Clone, Copy, Debug, PartialEq, Eq, Structural)]
pub enum ErrorCode {
    InvalidRequest,
    Unauthorized,
    WorkspaceUnavailable,
    CapabilityNotSupported,
    Journal,
    Io,
}

/// What a client can act on besides the sentence.
#[derive(Debug)]
pub enum ErrorDetails {
    WorktreeNotConfined { path: String, root: String },
    WorktreeLocked { path: String },
    WorktreeMismatch {
        path: String,
        expected_branch: String,
        observed_branch: Option<String>,
    },
    WorktreeDirty { path: String, force_required: bool },
    WorktreeGitState { recorded: String, observed: String },
}

/// An error as it goes over the wire.
#[derive(Debug)]
pub struct WireError {
    pub code: ErrorCode,
    pub message: String,
    pub details: Option<ErrorDetails>,
}

/// `ErrorDetails` over the characters of its texts.
pub ghost enum DetailsView {
    WorktreeNotConfined { path: Seq<char>, root: Seq<char> },
    WorktreeLocked { path: Seq<char> },
    WorktreeMismatch {
        path: Seq<char>,
        expected_branch: Seq<char>,
        observed_branch: Option<Seq<char>>,
    },
    WorktreeDirty { path: Seq<char>, force_required: bool },
    WorktreeGitState { recorded: Seq<char>, observed: Seq<char> },
}

/// `WireError` over the characters of its texts.
pub ghost struct ErrorView {
    pub code: ErrorCode,
    pub message: Seq<char>,
    pub details: Option<DetailsView>,
}

/// The characters of a text that may be missing.
pub open spec fn text_view(t: Option<String>) -> Option<Seq<char>> {
    match t {
        Some(t) => Some(t@),
        None => None,
    }
}

impl View for ErrorDetails {
    type V = DetailsView;

    open spec fn view(&self) -> DetailsView {
        match self {
            ErrorDetails::WorktreeNotConfined { path, root } => DetailsView::WorktreeNotConfined {
                path: path@,
                root: root@,
            },
            ErrorDetails::WorktreeLocked { path } => DetailsView::WorktreeLocked { path: path@ },
            ErrorDetails::WorktreeMismatch { path, expected_branch, observed_branch } =>
                DetailsView::WorktreeMismatch {
                    path: path@,
                    expected_branch: expected_branch@,
                    observed_branch: text_view(*observed_branch),
                },
            ErrorDetails::WorktreeDirty { path, force_required } => DetailsView::WorktreeDirty {
                path: path@,
                force_required: *force_required,
            },
            ErrorDetails::WorktreeGitState { recorded, observed } =>
                DetailsView::WorktreeGitState { recorded: recorded@, observed: observed@ },
        }
    }
}

impl View for WireError {
    type V = ErrorView;

    open spec fn view(&self) -> ErrorView {
        ErrorView {
            code: self.code,
            message: self.message@,
            details: match self.details {
                Some(d) => Some(d@),
                None => None,
            },
        }
    }
}

/// An error with a sentence and no details.
pub open spec fn plain_error(code: ErrorCode, message: Seq<char>) -> ErrorView {
    ErrorView { code, message, details: None }
}

/// An error with a sentence and details.
pub open spec fn detailed_error(
    code: ErrorCode,
    message: Seq<char>,
    details: DetailsView,
) -> ErrorView {
    ErrorView { code, message, details: Some(details) }
}

impl WireError {
    pub fn new(code: ErrorCode, message: String) -> (r: WireError)
        ensures
            r@ == plain_error(code, message@),
    {
        WireError { code, message, details: None }
    }

    pub fn with_details(self, details: ErrorDetails) -> (r: WireError)
        ensures
            r@ == (ErrorView { details: Some(details@), ..self@ }),
    {
        WireError { code: self.code, message: self.message, details: Some(details) }
    }
}

/// The outcome of a request that answers nothing.
pub open spec fn unit_view(r: Result<(), WireError>) -> Result<(), ErrorView> {
    match r {
        Ok(()) => Ok(()),
        Err(e) => Err(e@),
    }
}

/// The outcome of a request that answers a text.
pub open spec fn string_view(r: Result<String, WireError>) -> Result<Seq<char>, ErrorView> {
    match r {
        Ok(t) => Ok(t@),
        Err(e) => Err(e@),
    }
}

/// An error with a fixed sentence.
pub fn fixed_error(code: ErrorCode, message: &str) -> (r: WireError)
    ensures
        r@ == plain_error(code, message@),
{
    WireError::new(code, message.to_owned())
}

/// Three texts in a row.
pub fn text3(a: &str, b: &str, c: &str) -> (r: String)
    ensures
        r@ == a@ + b@ + c@,
{
    let mut r = a.to_owned();
    r.append(b);
    r.append(c);
    r
}

/// Five texts in a row.
pub fn text5(a: &str, b: &str, c: &str, d: &str, e: &str) -> (r: String)
    ensures
        r@ == a@ + b@ + c@ + d@ + e@,
{
    let mut r = text3(a, b, c);
    r.append(d);
    r.append(e);
    r
}

/// Seven texts in a row.
pub fn text7(a: &str, b: &str, c: &str, d: &str, e: &str, f: &str, g: &str) -> (r: String)
    ensures
        r@ == a@ + b@ + c@ + d@ + e@ + f@ + g@,
{
    let mut r = text5(a, b, c, d, e);
    r.append(f);
    r.append(g);
    r
}

} // verus!
