//! The full-size preview: one workspace file is staged as a copy that the panel
//! can read, and revoked by deleting the copy.
//!
//! A file is staged only after everything a read would check, only where the
//! panel draws files of its kind, and only from a handle that told that it is a
//! regular file inside the workspace. Its copy is named after the file's own
//! identity.
use crate::numbers::digit_char;
use crate::paths::{file_name, file_name_of, join_name, path_join};
use crate::platform::Platform;
use crate::text::{ascii_lower, chars_of, join, lower_chars, same_chars, spells, text_of, texts_of};
use crate::wire::text_view;
use crate::workspace_entries::{
    are_plain_names, entry_at, is_plain_root, law_requests_lead_to_what_they_name, mark_of,
    sentence_of, spelled, vouched, vouched_entry, EntryStat, Refusal, Walked,
};
use crate::workspace_file_delete::{final_path_inside, location_verdict};
use crate::workspace_file_duplicate::{extension_of, find_extension_dot};
use vstd::prelude::*;
use vstd::slice::slice_subrange;
use vstd::utf8::encode_utf8;

verus! {

/// The folder inside the runtime directory that copies rest in.
pub const PREVIEWS_DIR: &'static str = "previews";

pub const NOT_SHOWABLE: &'static str = "this file's type is not shown in the preview";

pub const PREVIEW_COPY_FAILED: &'static str = "the preview copy could not be written";

pub const REMOVE_FAILED: &'static str = "the preview copy could not be removed";

pub const OPEN_FAILED: &'static str = "the file could not be opened for the preview";

pub const FILE_LOCATION_UNCONFIRMED: &'static str =
    "the file's location could not be confirmed inside the workspace";

pub const REPLACED_WHILE_STAGED: &'static str =
    "the file changed after it was checked; nothing was copied";

/// Why a file is not staged.
#[derive(Clone, Copy, Debug, PartialEq, Eq, Structural)]
pub enum PreviewRefusal {
    /// What a read would be refused for.
    Entry(Refusal),
    NotShowable,
    CopyFailed,
    OpenFailed,
    LocationUnconfirmed,
    ReplacedWhileStaged,
}

/// The sentence of a refusal.
pub open spec fn preview_sentence(refusal: PreviewRefusal) -> Seq<char> {
    match refusal {
        PreviewRefusal::Entry(r) => sentence_of(r),
        PreviewRefusal::NotShowable => NOT_SHOWABLE@,
        PreviewRefusal::CopyFailed => PREVIEW_COPY_FAILED@,
        PreviewRefusal::OpenFailed => OPEN_FAILED@,
        PreviewRefusal::LocationUnconfirmed => FILE_LOCATION_UNCONFIRMED@,
        PreviewRefusal::ReplacedWhileStaged => REPLACED_WHILE_STAGED@,
    }
}

impl PreviewRefusal {
    /// The sentence that a client is shown.
    pub fn sentence(&self) -> (r: &'static str)
        ensures
            r@ == preview_sentence(*self),
    {
        match self {
            PreviewRefusal::Entry(r) => r.sentence(),
            PreviewRefusal::NotShowable => NOT_SHOWABLE,
            PreviewRefusal::CopyFailed => PREVIEW_COPY_FAILED,
            PreviewRefusal::OpenFailed => OPEN_FAILED,
            PreviewRefusal::LocationUnconfirmed => FILE_LOCATION_UNCONFIRMED,
            PreviewRefusal::ReplacedWhileStaged => REPLACED_WHILE_STAGED,
        }
    }
}

/// No sentence of a refusal has a character of a path in it.
pub proof fn law_preview_sentences_carry_no_path(refusal: PreviewRefusal)
    ensures
        forall|i: int|
            0 <= i < preview_sentence(refusal).len() ==> !crate::workspace_entries::path_shaped(
                #[trigger] preview_sentence(refusal)[i],
            ),
{
    match refusal {
        PreviewRefusal::Entry(r) => {
            crate::workspace_entries::law_sentences_carry_no_path(r);
        },
        _ => {
            reveal_strlit("this file's type is not shown in the preview");
            reveal_strlit("the preview copy could not be written");
            reveal_strlit("the file could not be opened for the preview");
            reveal_strlit("the file's location could not be confirmed inside the workspace");
            reveal_strlit("the file changed after it was checked; nothing was copied");
        },
    }
}

/// The kinds of files that the panel draws besides images: videos and PDF.
pub open spec fn is_drawn(extension: Seq<char>, images: Seq<Seq<char>>) -> bool {
    ||| images.contains(extension)
    ||| extension == "m4v"@
    ||| extension == "mp4"@
    ||| extension == "webm"@
    ||| extension == "pdf"@
}

/// The extension of a spelling in lower case, where the panel draws files of
/// that kind; `images` are the extensions that it draws as images.
pub open spec fn drawn_extension(
    platform: Platform,
    requested: Seq<char>,
    images: Seq<Seq<char>>,
) -> Option<Seq<char>> {
    match file_name_of(platform, requested) {
        None => None,
        Some(name) => match extension_of(name) {
            None => None,
            Some(e) => if is_drawn(ascii_lower(e), images) {
                Some(ascii_lower(e))
            } else {
                None
            },
        },
    }
}

fn is_among(texts: &[String], t: &[char]) -> (r: bool)
    ensures
        r == texts_of(texts@).contains(t@),
{
    let ghost all = texts_of(texts@);
    let mut i: usize = 0;
    while i < texts.len()
        invariant
            i <= texts@.len(),
            all == texts_of(texts@),
            forall|k: int| 0 <= k < i ==> #[trigger] all[k] != t@,
        decreases texts@.len() - i,
    {
        assert(all[i as int] == texts@[i as int]@);
        let word = chars_of(texts[i].as_str());
        if same_chars(word.as_slice(), t) {
            return true;
        }
        i = i + 1;
    }
    false
}

/// The extension that the copy of a file keeps, where the panel draws files of
/// that kind.
pub fn showable_extension(
    platform: Platform,
    requested: &str,
    images: &[String],
) -> (r: Option<String>)
    ensures
        text_view(r) == drawn_extension(platform, requested@, texts_of(images@)),
{
    let chars = chars_of(requested);
    let name = match file_name(platform, chars.as_slice()) {
        None => {
            return None;
        },
        Some(name) => name,
    };
    let total: usize = name.len();
    match find_extension_dot(name) {
        None => None,
        Some(i) => {
            let extension = slice_subrange(name, i + 1, total);
            assert(extension@ =~= name@.skip(i + 1));
            let lower = lower_chars(extension);
            let l = lower.as_slice();
            if is_among(images, l) || spells(l, "m4v") || spells(l, "mp4") || spells(l, "webm")
                || spells(l, "pdf") {
                Some(text_of(l))
            } else {
                None
            }
        },
    }
}

/// The bytes of a number, the lowest first.
pub open spec fn little_endian(n: u64) -> Seq<u8> {
    Seq::new(8, |i: int| ((n as int / pow256(i as nat)) % 256) as u8)
}

pub open spec fn pow256(i: nat) -> int
    decreases i,
{
    if i == 0 {
        1
    } else {
        256 * pow256((i - 1) as nat)
    }
}

/// The time of the last change as it goes into a copy's name.
pub open spec fn stamp_of(modified_at: Option<i64>) -> u64 {
    match modified_at {
        Some(t) => t as u64,
        None => 0,
    }
}

/// What a copy's name is made of: the workspace's folder, the requested
/// spelling, the file's size and the time of its last change.
pub open spec fn identity_bytes(
    root: Seq<char>,
    requested: Seq<char>,
    size: u64,
    modified_at: Option<i64>,
) -> Seq<u8> {
    encode_utf8(root) + seq![0u8] + encode_utf8(requested) + seq![0u8] + little_endian(size)
        + little_endian(stamp_of(modified_at))
}

/// The SHA-256 digest of bytes, as `sha2` computes it.
pub uninterp spec fn sha256(bytes: Seq<u8>) -> Seq<u8>;

/// `sha2::Sha256::digest`: the 32 bytes of the SHA-256 digest.
#[verifier::external_body]
fn digest_of(bytes: &[u8]) -> (r: Vec<u8>)
    ensures
        r@ == sha256(bytes@),
        r@.len() == 32,
{
    <sha2::Sha256 as sha2::Digest>::digest(bytes).to_vec()
}

/// Bytes in lower-case hexadecimal, two digits each.
pub open spec fn hex_bytes(bytes: Seq<u8>) -> Seq<char>
    decreases bytes.len(),
{
    if bytes.len() == 0 {
        Seq::empty()
    } else {
        hex_bytes(bytes.drop_last()).push(digit_char(bytes.last() as nat / 16)).push(
            digit_char(bytes.last() as nat % 16),
        )
    }
}

/// The name of a copy by a digest: its first 16 bytes and the extension.
pub open spec fn digest_name(digest: Seq<u8>, extension: Seq<char>) -> Seq<char> {
    hex_bytes(digest.take(16)) + "."@ + extension
}

fn hex_digit(d: u8) -> (r: char)
    requires
        d < 16,
    ensures
        r == digit_char(d as nat),
{
    if d < 10 {
        (48 + d) as char
    } else {
        (87 + d) as char
    }
}

/// The name of a copy by a digest.
pub fn name_by_digest(digest: &[u8], extension: &str) -> (r: String)
    requires
        digest@.len() >= 16,
    ensures
        r@ == digest_name(digest@, extension@),
{
    let mut r = String::new();
    let mut i: usize = 0;
    assert(r@ =~= hex_bytes(digest@.take(0)));
    while i < 16
        invariant
            i <= 16 <= digest@.len(),
            r@ == hex_bytes(digest@.take(i as int)),
        decreases 16 - i,
    {
        let b: u8 = digest[i];
        r.push(hex_digit(b / 16));
        r.push(hex_digit(b % 16));
        i = i + 1;
        assert(digest@.take(i as int).drop_last() =~= digest@.take(i - 1));
    }
    r.append(".");
    r.append(extension);
    r
}

fn push_number(out: &mut Vec<u8>, n: u64)
    ensures
        final(out)@ == old(out)@ + little_endian(n),
{
    let ghost start = out@;
    let mut rest: u64 = n;
    let mut i: usize = 0;
    assert(pow256(0) == 1);
    while i < 8
        invariant
            i <= 8,
            pow256(i as nat) > 0,
            rest as int == n as int / pow256(i as nat),
            out@ == start + little_endian(n).take(i as int),
        decreases 8 - i,
    {
        out.push((rest % 256) as u8);
        proof {
            let p = pow256(i as nat);
            assert(pow256((i + 1) as nat) == 256 * p);
            vstd::arithmetic::div_mod::lemma_div_denominator(n as int, p, 256);
            assert(n as int / (p * 256) == (n as int / p) / 256);
            assert(p * 256 == 256 * p) by (nonlinear_arith);
        }
        rest = rest / 256;
        i = i + 1;
        assert(out@ =~= start + little_endian(n).take(i as int));
    }
    assert(little_endian(n).take(8) =~= little_endian(n));
}

fn push_bytes(out: &mut Vec<u8>, more: &[u8])
    ensures
        final(out)@ == old(out)@ + more@,
{
    let ghost start = out@;
    let mut i: usize = 0;
    while i < more.len()
        invariant
            i <= more@.len(),
            out@ == start + more@.take(i as int),
        decreases more@.len() - i,
    {
        out.push(more[i]);
        i = i + 1;
        assert(out@ =~= start + more@.take(i as int));
    }
    assert(more@.take(i as int) =~= more@);
}

#[verifier::truncate]
fn stamp_bits(modified_at: Option<i64>) -> (r: u64)
    ensures
        r == stamp_of(modified_at),
{
    match modified_at {
        Some(t) => t as u64,
        None => 0,
    }
}

/// The file name of a copy: the digest of the file's identity and the shown
/// extension.
pub fn copy_name(
    root: &str,
    requested: &str,
    extension: &str,
    size: u64,
    modified_at: Option<i64>,
) -> (r: String)
    ensures
        r@ == digest_name(
            sha256(identity_bytes(root@, requested@, size, modified_at)),
            extension@,
        ),
{
    let mut bytes: Vec<u8> = Vec::new();
    push_bytes(&mut bytes, root.as_bytes());
    bytes.push(0);
    push_bytes(&mut bytes, requested.as_bytes());
    bytes.push(0);
    push_number(&mut bytes, size);
    push_number(&mut bytes, stamp_bits(modified_at));
    assert(bytes@ =~= identity_bytes(root@, requested@, size, modified_at));
    let digest = digest_of(bytes.as_slice());
    name_by_digest(digest.as_slice(), extension)
}

proof fn lemma_pow256_positive(i: nat)
    ensures
        pow256(i) > 0,
    decreases i,
{
    if i > 0 {
        lemma_pow256_positive((i - 1) as nat);
    }
}

proof fn lemma_little_endian_injective_from(a: u64, b: u64, i: nat)
    requires
        i <= 8,
        little_endian(a) == little_endian(b),
    ensures
        a as int / pow256(i) == b as int / pow256(i),
    decreases 8 - i,
{
    lemma_pow256_positive(i);
    let p = pow256(i);
    if i == 8 {
        reveal_with_fuel(pow256, 9);
        assert(p == 0x1_0000_0000_0000_0000);
        assert(a as int / p == 0);
        assert(b as int / p == 0);
    } else {
        lemma_little_endian_injective_from(a, b, i + 1);
        assert(pow256(i + 1) == 256 * p);
        vstd::arithmetic::div_mod::lemma_div_denominator(a as int, p, 256);
        vstd::arithmetic::div_mod::lemma_div_denominator(b as int, p, 256);
        assert(p * 256 == 256 * p) by (nonlinear_arith);
        let x = a as int / p;
        let y = b as int / p;
        assert(x / 256 == y / 256);
        assert(little_endian(a)[i as int] == (x % 256) as u8);
        assert(little_endian(b)[i as int] == (y % 256) as u8);
        assert(x % 256 == y % 256);
        vstd::arithmetic::div_mod::lemma_fundamental_div_mod(x, 256);
        vstd::arithmetic::div_mod::lemma_fundamental_div_mod(y, 256);
    }
}

/// An edit that changes a file's size or the time of its last change changes
/// what the name of its copy is made of.
pub proof fn law_edits_change_the_identity(
    root: Seq<char>,
    requested: Seq<char>,
    size: u64,
    modified_at: Option<i64>,
    new_size: u64,
    new_modified_at: Option<i64>,
)
    requires
        size != new_size || stamp_of(modified_at) != stamp_of(new_modified_at),
    ensures
        identity_bytes(root, requested, size, modified_at) != identity_bytes(
            root,
            requested,
            new_size,
            new_modified_at,
        ),
{
    let x = identity_bytes(root, requested, size, modified_at);
    let y = identity_bytes(root, requested, new_size, new_modified_at);
    let n: int = encode_utf8(root).len() + 1 + encode_utf8(requested).len() + 1int;
    if x == y {
        assert(little_endian(size) =~= x.subrange(n, n + 8));
        assert(little_endian(new_size) =~= y.subrange(n, n + 8));
        assert(little_endian(stamp_of(modified_at)) =~= x.subrange(n + 8, n + 16));
        assert(little_endian(stamp_of(new_modified_at)) =~= y.subrange(n + 8, n + 16));
        lemma_little_endian_injective_from(size, new_size, 0);
        lemma_little_endian_injective_from(stamp_of(modified_at), stamp_of(new_modified_at), 0);
        assert(pow256(0) == 1);
    }
}

/// Whether a stage answered with a copy.
#[derive(Clone, Copy, Debug, PartialEq, Eq, Structural)]
pub enum PreviewStatus {
    Staged,
    Refused,
}

/// What a stage answers: the copy's path and the source's own stat, or why it
/// was refused.
#[derive(Debug, PartialEq, Eq)]
pub struct WorkspaceFilePreview {
    pub status: PreviewStatus,
    pub path: Option<String>,
    pub size: Option<u64>,
    pub modified_at: Option<i64>,
    pub error: Option<String>,
}

/// A stage that answered with a copy.
pub fn staged_copy(path: String, size: u64, modified_at: Option<i64>) -> (r: WorkspaceFilePreview)
    ensures
        r.status == PreviewStatus::Staged,
        r.path == Some(path),
        r.size == Some(size),
        r.modified_at == modified_at,
        r.error is None,
{
    WorkspaceFilePreview {
        status: PreviewStatus::Staged,
        path: Some(path),
        size: Some(size),
        modified_at,
        error: None,
    }
}

/// A refusal to stage: nothing travels with the sentence.
pub fn preview_refused(sentence: String) -> (r: WorkspaceFilePreview)
    ensures
        r.status == PreviewStatus::Refused,
        r.path is None,
        r.size is None,
        r.modified_at is None,
        r.error == Some(sentence),
{
    WorkspaceFilePreview {
        status: PreviewStatus::Refused,
        path: None,
        size: None,
        modified_at: None,
        error: Some(sentence),
    }
}

/// What opening the source gave.
#[derive(Clone, Copy, Debug, PartialEq, Eq, Structural)]
pub enum OpenedSource {
    Failed,
    /// It is open, but its handle has no stat.
    NoStat,
    Opened { is_link: bool, is_file: bool, len: u64, modified_at: Option<i64> },
}

/// What stands at the source's path, looked at only to find the words for a
/// stage that is refused already.
#[derive(Clone, Copy, Debug, PartialEq, Eq, Structural)]
pub enum PathStat {
    Link,
    Other,
    NotFound,
    Unreadable,
}

/// The words for a source that would not open.
pub open spec fn open_failure(stat: PathStat) -> PreviewRefusal {
    match stat {
        PathStat::Link => PreviewRefusal::Entry(Refusal::LinkFinal),
        PathStat::Other => PreviewRefusal::OpenFailed,
        PathStat::NotFound => PreviewRefusal::Entry(Refusal::DoesNotExist),
        PathStat::Unreadable => PreviewRefusal::LocationUnconfirmed,
    }
}

pub fn open_failure_sentence(stat: PathStat) -> (r: PreviewRefusal)
    ensures
        r == open_failure(stat),
{
    match stat {
        PathStat::Link => PreviewRefusal::Entry(Refusal::LinkFinal),
        PathStat::Other => PreviewRefusal::OpenFailed,
        PathStat::NotFound => PreviewRefusal::Entry(Refusal::DoesNotExist),
        PathStat::Unreadable => PreviewRefusal::LocationUnconfirmed,
    }
}

/// What the handle says of itself.
#[derive(Debug)]
pub enum Binding {
    /// The workspace's canonical folder and where the handle really is.
    Location { root: Option<String>, resolved: Option<String> },
    /// The handle's identity, where it has one, and that of the entry that the
    /// walk found.
    Identity { opened: Option<(u64, u64)>, walked: (u64, u64) },
}

/// Whether the handle holds what was vouched for.
pub open spec fn binding_verdict(binding: Binding) -> Result<(), PreviewRefusal> {
    match binding {
        Binding::Location { root, resolved } => match location_verdict(
            text_view(root),
            text_view(resolved),
        ) {
            Ok(()) => Ok(()),
            Err(Refusal::Outside) => Err(PreviewRefusal::Entry(Refusal::Outside)),
            Err(_) => Err(PreviewRefusal::LocationUnconfirmed),
        },
        Binding::Identity { opened, walked } => match opened {
            None => Err(PreviewRefusal::LocationUnconfirmed),
            Some(id) => if id == walked {
                Ok(())
            } else {
                Err(PreviewRefusal::ReplacedWhileStaged)
            },
        },
    }
}

/// Whether the handle holds what was vouched for.
pub fn confirm_binding(binding: &Binding) -> (r: Result<(), PreviewRefusal>)
    ensures
        r == binding_verdict(*binding),
{
    match binding {
        Binding::Location { root, resolved } => match final_path_inside(root, resolved) {
            Ok(()) => Ok(()),
            Err(Refusal::Outside) => Err(PreviewRefusal::Entry(Refusal::Outside)),
            Err(_) => Err(PreviewRefusal::LocationUnconfirmed),
        },
        Binding::Identity { opened, walked } => match opened {
            None => Err(PreviewRefusal::LocationUnconfirmed),
            Some(id) => if id.0 == walked.0 && id.1 == walked.1 {
                Ok(())
            } else {
                Err(PreviewRefusal::ReplacedWhileStaged)
            },
        },
    }
}

/// What became of the folder of copies.
#[derive(Clone, Copy, Debug, PartialEq, Eq, Structural)]
pub enum FolderRemoval {
    Removed,
    Absent,
    Failed,
}

/// Whether nothing of the folder is left: there may have been nothing.
pub fn clear(removal: FolderRemoval) -> (r: bool)
    ensures
        r == (removal != FolderRemoval::Failed),
{
    match removal {
        FolderRemoval::Failed => false,
        _ => true,
    }
}

/// Whether the folder is empty and there: everything in it could be removed, and
/// it could be made anew.
pub fn reset_folder(removal: FolderRemoval, created: bool) -> (r: bool)
    ensures
        r == (removal != FolderRemoval::Failed && created),
{
    clear(removal) && created
}

/// What is known so far about a stage.
#[derive(Debug)]
pub struct PreviewFacts {
    /// What the walk over the disk found.
    pub walked: Option<Walked>,
    pub opened: Option<OpenedSource>,
    /// What stands at the source's path, where it would not open.
    pub path_stat: Option<PathStat>,
    pub binding: Option<Binding>,
    /// Whether the folder of copies is empty and there.
    pub folder_reset: Option<bool>,
    /// Whether the copy's name could be made.
    pub created: Option<bool>,
    /// Whether the bytes came over.
    pub copied: Option<bool>,
    /// The half of a copy that failed was removed.
    pub half_removed: bool,
}

/// What a stage asks for next.
#[derive(Debug)]
pub enum PreviewStep {
    Walk,
    OpenSource { target: String },
    StatPath { target: String },
    Bind,
    ResetFolder,
    Create { destination: String },
    CopyBytes { destination: String },
    RemoveHalf { destination: String },
    /// The copy stands at this path; this is the source's own stat.
    Staged { destination: String, size: u64, modified_at: Option<i64> },
    Refused(PreviewRefusal),
}

/// `PreviewStep` over the characters of its texts.
pub ghost enum PreviewView {
    Walk,
    OpenSource { target: Seq<char> },
    StatPath { target: Seq<char> },
    Bind,
    ResetFolder,
    Create { destination: Seq<char> },
    CopyBytes { destination: Seq<char> },
    RemoveHalf { destination: Seq<char> },
    Staged { destination: Seq<char>, size: u64, modified_at: Option<i64> },
    Refused(PreviewRefusal),
}

impl View for PreviewStep {
    type V = PreviewView;

    open spec fn view(&self) -> PreviewView {
        match self {
            PreviewStep::Walk => PreviewView::Walk,
            PreviewStep::OpenSource { target } => PreviewView::OpenSource { target: target@ },
            PreviewStep::StatPath { target } => PreviewView::StatPath { target: target@ },
            PreviewStep::Bind => PreviewView::Bind,
            PreviewStep::ResetFolder => PreviewView::ResetFolder,
            PreviewStep::Create { destination } => PreviewView::Create {
                destination: destination@,
            },
            PreviewStep::CopyBytes { destination } => PreviewView::CopyBytes {
                destination: destination@,
            },
            PreviewStep::RemoveHalf { destination } => PreviewView::RemoveHalf {
                destination: destination@,
            },
            PreviewStep::Staged { destination, size, modified_at } => PreviewView::Staged {
                destination: destination@,
                size: *size,
                modified_at: *modified_at,
            },
            PreviewStep::Refused(refusal) => PreviewView::Refused(*refusal),
        }
    }
}

/// What the spelling of a request says before the disk is asked. The folder
/// itself is not a file.
pub open spec fn previewed(
    platform: Platform,
    root: Seq<char>,
    requested: Seq<char>,
) -> Result<Seq<char>, Refusal> {
    match spelled(platform, root, requested) {
        Err(Refusal::TheRoot) => Err(Refusal::NotAFile),
        other => other,
    }
}

/// Writing the copy: the folder is emptied, the name is made, the bytes come
/// over, and the half of a copy that failed is removed.
pub open spec fn write_step(
    destination: Seq<char>,
    size: u64,
    modified_at: Option<i64>,
    facts: PreviewFacts,
) -> PreviewView {
    match facts.folder_reset {
        None => PreviewView::ResetFolder,
        Some(false) => PreviewView::Refused(PreviewRefusal::CopyFailed),
        Some(true) => match facts.created {
            None => PreviewView::Create { destination },
            Some(false) => PreviewView::Refused(PreviewRefusal::CopyFailed),
            Some(true) => match facts.copied {
                None => PreviewView::CopyBytes { destination },
                Some(true) => PreviewView::Staged { destination, size, modified_at },
                Some(false) => if facts.half_removed {
                    PreviewView::Refused(PreviewRefusal::CopyFailed)
                } else {
                    PreviewView::RemoveHalf { destination }
                },
            },
        },
    }
}

/// Opening the source once and proving on its handle what was proved on its
/// path, then writing.
pub open spec fn stage_step(
    platform: Platform,
    root: Seq<char>,
    requested: Seq<char>,
    previews: Seq<char>,
    target: Seq<char>,
    extension: Seq<char>,
    facts: PreviewFacts,
) -> PreviewView {
    match facts.opened {
        None => PreviewView::OpenSource { target },
        Some(OpenedSource::Opened { is_link, is_file, len, modified_at }) => if is_link {
            PreviewView::Refused(PreviewRefusal::Entry(Refusal::LinkFinal))
        } else if !is_file {
            PreviewView::Refused(PreviewRefusal::Entry(Refusal::NotAFile))
        } else {
            match facts.binding {
                None => PreviewView::Bind,
                Some(binding) => match binding_verdict(binding) {
                    Err(refusal) => PreviewView::Refused(refusal),
                    Ok(()) => write_step(
                        path_join(
                            platform,
                            previews,
                            digest_name(
                                sha256(identity_bytes(root, requested, len, modified_at)),
                                extension,
                            ),
                        ),
                        len,
                        modified_at,
                        facts,
                    ),
                },
            }
        },
        Some(_) => match facts.path_stat {
            None => PreviewView::StatPath { target },
            Some(stat) => PreviewView::Refused(open_failure(stat)),
        },
    }
}

/// What a stage does next, from what is known.
pub open spec fn preview_step(
    platform: Platform,
    root: Seq<char>,
    requested: Seq<char>,
    previews: Seq<char>,
    images: Seq<Seq<char>>,
    facts: PreviewFacts,
) -> PreviewView {
    match (previewed(platform, root, requested), facts.walked) {
        (Err(refusal), _) => PreviewView::Refused(PreviewRefusal::Entry(refusal)),
        (Ok(_), None) => PreviewView::Walk,
        (Ok(_), Some(walked)) => match vouched(platform, root, requested, walked) {
            Err(refusal) => PreviewView::Refused(PreviewRefusal::Entry(refusal)),
            Ok((target, stat)) => if !stat.is_file {
                PreviewView::Refused(PreviewRefusal::Entry(Refusal::NotAFile))
            } else {
                match drawn_extension(platform, requested, images) {
                    None => PreviewView::Refused(PreviewRefusal::NotShowable),
                    Some(extension) => stage_step(
                        platform,
                        root,
                        requested,
                        previews,
                        target,
                        extension,
                        facts,
                    ),
                }
            },
        },
    }
}

fn decide_write(destination: String, size: u64, modified_at: Option<i64>, facts: &PreviewFacts) -> (r:
    PreviewStep)
    ensures
        r@ == write_step(destination@, size, modified_at, *facts),
{
    match facts.folder_reset {
        None => PreviewStep::ResetFolder,
        Some(false) => PreviewStep::Refused(PreviewRefusal::CopyFailed),
        Some(true) => match facts.created {
            None => PreviewStep::Create { destination },
            Some(false) => PreviewStep::Refused(PreviewRefusal::CopyFailed),
            Some(true) => match facts.copied {
                None => PreviewStep::CopyBytes { destination },
                Some(true) => PreviewStep::Staged { destination, size, modified_at },
                Some(false) => if facts.half_removed {
                    PreviewStep::Refused(PreviewRefusal::CopyFailed)
                } else {
                    PreviewStep::RemoveHalf { destination }
                },
            },
        },
    }
}

fn stage_file(
    platform: Platform,
    root: &str,
    requested: &str,
    previews: &str,
    target: String,
    extension: &str,
    facts: &PreviewFacts,
) -> (r: PreviewStep)
    ensures
        r@ == stage_step(platform, root@, requested@, previews@, target@, extension@, *facts),
{
    match facts.opened {
        None => PreviewStep::OpenSource { target },
        Some(OpenedSource::Opened { is_link, is_file, len, modified_at }) => {
            if is_link {
                return PreviewStep::Refused(PreviewRefusal::Entry(Refusal::LinkFinal));
            }
            if !is_file {
                return PreviewStep::Refused(PreviewRefusal::Entry(Refusal::NotAFile));
            }
            match &facts.binding {
                None => PreviewStep::Bind,
                Some(binding) => match confirm_binding(binding) {
                    Err(refusal) => PreviewStep::Refused(refusal),
                    Ok(()) => {
                        let name = copy_name(root, requested, extension, len, modified_at);
                        let folder = chars_of(previews);
                        let file = chars_of(name.as_str());
                        let destination = join_name(platform, folder.as_slice(), file.as_slice());
                        decide_write(text_of(destination.as_slice()), len, modified_at, facts)
                    },
                },
            }
        },
        Some(_) => match facts.path_stat {
            None => PreviewStep::StatPath { target },
            Some(stat) => PreviewStep::Refused(open_failure_sentence(stat)),
        },
    }
}

/// What staging a file does next, from what is known. `previews` is the folder
/// of copies, and `images` are the extensions that the panel draws as images.
pub fn copy_of(
    platform: Platform,
    root: &str,
    requested: &str,
    previews: &str,
    images: &[String],
    facts: &PreviewFacts,
) -> (r: PreviewStep)
    ensures
        r@ == preview_step(platform, root@, requested@, previews@, texts_of(images@), *facts),
{
    match entry_at(platform, root, requested) {
        Err(Refusal::TheRoot) => {
            return PreviewStep::Refused(PreviewRefusal::Entry(Refusal::NotAFile));
        },
        Err(refusal) => {
            return PreviewStep::Refused(PreviewRefusal::Entry(refusal));
        },
        Ok(_) => {},
    }
    let walked = match facts.walked {
        None => {
            return PreviewStep::Walk;
        },
        Some(walked) => walked,
    };
    match vouched_entry(platform, root, requested, walked) {
        Err(refusal) => PreviewStep::Refused(PreviewRefusal::Entry(refusal)),
        Ok((target, stat)) => {
            if !stat.is_file {
                return PreviewStep::Refused(PreviewRefusal::Entry(Refusal::NotAFile));
            }
            match showable_extension(platform, requested, images) {
                None => PreviewStep::Refused(PreviewRefusal::NotShowable),
                Some(extension) => stage_file(
                    platform,
                    root,
                    requested,
                    previews,
                    target,
                    extension.as_str(),
                    facts,
                ),
            }
        },
    }
}

/// The folder of copies inside a runtime directory.
pub fn previews_of(platform: Platform, runtime_dir: &str) -> (r: String)
    ensures
        r@ == path_join(platform, runtime_dir@, PREVIEWS_DIR@),
{
    let base = chars_of(runtime_dir);
    let name = chars_of(PREVIEWS_DIR);
    text_of(join_name(platform, base.as_slice(), name.as_slice()).as_slice())
}

/// The folder of copies is touched only once the source was vouched for, is of a
/// kind that the panel draws, and its handle proved to hold it: a refusal
/// destroys no copy.
pub proof fn law_refusals_leave_the_folder_alone(
    platform: Platform,
    root: Seq<char>,
    requested: Seq<char>,
    previews: Seq<char>,
    images: Seq<Seq<char>>,
    facts: PreviewFacts,
)
    requires
        preview_step(platform, root, requested, previews, images, facts) is ResetFolder || preview_step(
            platform,
            root,
            requested,
            previews,
            images,
            facts,
        ) is Create || preview_step(platform, root, requested, previews, images, facts) is CopyBytes
            || preview_step(platform, root, requested, previews, images, facts) is Staged,
    ensures
        facts.walked is Some && vouched(platform, root, requested, facts.walked->0) is Ok,
        drawn_extension(platform, requested, images) is Some,
        facts.opened is Some && facts.opened->0 is Opened && !facts.opened->0->is_link
            && facts.opened->0->is_file,
        facts.binding is Some && binding_verdict(facts.binding->0) is Ok,
{
}

/// Nothing is asked for that is known already, so a caller that answers every
/// question gets to an end.
pub proof fn law_no_question_is_asked_twice(
    platform: Platform,
    root: Seq<char>,
    requested: Seq<char>,
    previews: Seq<char>,
    images: Seq<Seq<char>>,
    facts: PreviewFacts,
)
    ensures
        match preview_step(platform, root, requested, previews, images, facts) {
            PreviewView::Walk => facts.walked is None,
            PreviewView::OpenSource { .. } => facts.opened is None,
            PreviewView::StatPath { .. } => facts.path_stat is None,
            PreviewView::Bind => facts.binding is None,
            PreviewView::ResetFolder => facts.folder_reset is None,
            PreviewView::Create { .. } => facts.created is None,
            PreviewView::CopyBytes { .. } => facts.copied is None,
            PreviewView::RemoveHalf { .. } => !facts.half_removed,
            _ => true,
        },
{
}

/// The panel draws videos, PDF and the images it was given, by the extension in
/// any case; a file of another kind, or without an extension, is not shown.
pub proof fn law_files_are_shown_by_their_extension(
    extension: Seq<char>,
    images: Seq<Seq<char>>,
)
    ensures
        is_drawn(extension, images) <==> images.contains(extension) || extension == seq![
            'm',
            '4',
            'v',
        ] || extension == seq!['m', 'p', '4'] || extension == seq!['w', 'e', 'b', 'm'] || extension
            == seq!['p', 'd', 'f'],
{
    reveal_strlit("m4v");
    reveal_strlit("mp4");
    reveal_strlit("webm");
    reveal_strlit("pdf");
    assert("m4v"@ =~= seq!['m', '4', 'v']);
    assert("mp4"@ =~= seq!['m', 'p', '4']);
    assert("webm"@ =~= seq!['w', 'e', 'b', 'm']);
    assert("pdf"@ =~= seq!['p', 'd', 'f']);
}

/// A file is staged step by step: vouched for, a file, of a kind that is shown,
/// opened, proved to be what was vouched for, and only then the folder is
/// emptied and the copy written under a name in it. The reply is that copy with
/// the size and the time of the opened file.
pub proof fn law_files_are_staged_in_this_order(
    platform: Platform,
    root: Seq<char>,
    names: Seq<Seq<char>>,
    previews: Seq<char>,
    images: Seq<Seq<char>>,
    facts: PreviewFacts,
    stat: EntryStat,
    is_link: bool,
    is_file: bool,
    len: u64,
    modified_at: Option<i64>,
    path_stat: PathStat,
    binding: Binding,
    why: PreviewRefusal,
)
    requires
        is_plain_root(platform, root),
        are_plain_names(names),
    ensures
        ({
            let requested = join(names, "/"@);
            let step = preview_step(platform, root, requested, previews, images, facts);
            let target = join(seq![root] + names, mark_of(platform));
            let refused = |refusal: PreviewRefusal| PreviewView::Refused(refusal);
            let shown = drawn_extension(platform, requested, images);
            let opened = OpenedSource::Opened { is_link, is_file, len, modified_at };
            &&& facts.walked is None ==> step == PreviewView::Walk
            &&& facts.walked == Some(Walked::Inside(stat)) && !stat.is_file ==> step == refused(
                PreviewRefusal::Entry(Refusal::NotAFile),
            )
            &&& facts.walked == Some(Walked::Inside(stat)) && stat.is_file && shown is None ==> step
                == refused(PreviewRefusal::NotShowable)
            &&& facts.walked == Some(Walked::Inside(stat)) && stat.is_file && shown is Some ==> {
                &&& facts.opened is None ==> step == (PreviewView::OpenSource { target })
                &&& (facts.opened == Some(OpenedSource::Failed) || facts.opened == Some(
                    OpenedSource::NoStat,
                )) && facts.path_stat is None ==> step == (PreviewView::StatPath { target })
                &&& (facts.opened == Some(OpenedSource::Failed) || facts.opened == Some(
                    OpenedSource::NoStat,
                )) && facts.path_stat == Some(path_stat) ==> step == refused(
                    match path_stat {
                        PathStat::Link => PreviewRefusal::Entry(Refusal::LinkFinal),
                        PathStat::Other => PreviewRefusal::OpenFailed,
                        PathStat::NotFound => PreviewRefusal::Entry(Refusal::DoesNotExist),
                        PathStat::Unreadable => PreviewRefusal::LocationUnconfirmed,
                    },
                )
                &&& facts.opened == Some(opened) && is_link ==> step == refused(
                    PreviewRefusal::Entry(Refusal::LinkFinal),
                )
                &&& facts.opened == Some(opened) && !is_link && !is_file ==> step == refused(
                    PreviewRefusal::Entry(Refusal::NotAFile),
                )
                &&& facts.opened == Some(opened) && !is_link && is_file ==> {
                    &&& facts.binding is None ==> step == PreviewView::Bind
                    &&& facts.binding == Some(binding) && binding_verdict(binding) == Err::<
                        (),
                        PreviewRefusal,
                    >(why) ==> step == refused(why)
                    &&& facts.binding == Some(binding) && binding_verdict(binding) is Ok ==> {
                        &&& facts.folder_reset is None ==> step == PreviewView::ResetFolder
                        &&& facts.folder_reset == Some(false) ==> step == refused(
                            PreviewRefusal::CopyFailed,
                        )
                        &&& facts.folder_reset == Some(true) ==> {
                            &&& facts.created is None ==> step is Create
                            &&& facts.created == Some(false) ==> step == refused(
                                PreviewRefusal::CopyFailed,
                            )
                            &&& facts.created == Some(true) && facts.copied is None ==> step is CopyBytes
                            &&& facts.created == Some(true) && facts.copied == Some(false)
                                && !facts.half_removed ==> step is RemoveHalf
                            &&& facts.created == Some(true) && facts.copied == Some(false)
                                && facts.half_removed ==> step == refused(
                                PreviewRefusal::CopyFailed,
                            )
                            &&& facts.created == Some(true) && facts.copied == Some(true) ==> (
                            step matches PreviewView::Staged {
                                destination,
                                size,
                                modified_at: time,
                            } && size == len && time == modified_at)
                        }
                    }
                }
            }
        }),
{
    law_requests_lead_to_what_they_name(platform, root, names);
}

/// Every copy is written, removed and answered under one and the same name: in
/// the folder of copies, by the digest of what was opened, with the shown
/// extension.
pub proof fn law_copies_keep_one_name(
    platform: Platform,
    root: Seq<char>,
    requested: Seq<char>,
    previews: Seq<char>,
    images: Seq<Seq<char>>,
    facts: PreviewFacts,
    is_link: bool,
    is_file: bool,
    len: u64,
    modified_at: Option<i64>,
    extension: Seq<char>,
)
    requires
        facts.opened == Some(OpenedSource::Opened { is_link, is_file, len, modified_at }),
        drawn_extension(platform, requested, images) == Some(extension),
    ensures
        ({
            let stamp = match modified_at {
                Some(t) => t as u64,
                None => 0u64,
            };
            let digest = sha256(
                encode_utf8(root) + seq![0u8] + encode_utf8(requested) + seq![0u8] + little_endian(
                    len,
                ) + little_endian(stamp),
            );
            let named = path_join(
                platform,
                previews,
                hex_bytes(digest.take(16)) + seq!['.'] + extension,
            );
            match preview_step(platform, root, requested, previews, images, facts) {
                PreviewView::Create { destination } => destination == named,
                PreviewView::CopyBytes { destination } => destination == named,
                PreviewView::RemoveHalf { destination } => destination == named,
                PreviewView::Staged { destination, .. } => destination == named,
                _ => true,
            }
        }),
{
    reveal_strlit(".");
    assert("."@ =~= seq!['.']);
}

/// What the handle says decides: a place that cannot be told is refused, a place
/// outside as outside, another file than the walk's as replaced.
pub proof fn law_handles_prove_their_files(
    root: Option<String>,
    resolved: Option<String>,
    opened: Option<(u64, u64)>,
    walked: (u64, u64),
)
    ensures
        binding_verdict(Binding::Location { root, resolved }) == (if root is None || resolved is None {
            Err::<(), PreviewRefusal>(PreviewRefusal::LocationUnconfirmed)
        } else if crate::tool_paths::is_below(Platform::Windows, resolved->0@, root->0@) {
            Ok(())
        } else {
            Err(PreviewRefusal::Entry(Refusal::Outside))
        }),
        binding_verdict(Binding::Identity { opened, walked }) == (match opened {
            None => Err::<(), PreviewRefusal>(PreviewRefusal::LocationUnconfirmed),
            Some(id) => if id.0 == walked.0 && id.1 == walked.1 {
                Ok(())
            } else {
                Err(PreviewRefusal::ReplacedWhileStaged)
            },
        }),
{
}

/// Bytes are written as two lower-case hexadecimal digits each, the high one
/// first.
pub proof fn law_digests_are_written_in_hexadecimal(bytes: Seq<u8>, b: u8)
    ensures
        hex_bytes(Seq::empty()).len() == 0,
        hex_bytes(bytes.push(b)).len() == hex_bytes(bytes).len() + 2,
        hex_bytes(bytes.push(b)).take(hex_bytes(bytes).len() as int) == hex_bytes(bytes),
        ({
            let digit = |c: char|
                if '0' <= c <= '9' {
                    c as u32 - 48
                } else {
                    c as u32 - 87
                };
            let written = hex_bytes(bytes.push(b));
            digit(written[written.len() - 2]) * 16 + digit(written.last()) == b
        }),
{
    let all = bytes.push(b);
    assert(all.drop_last() =~= bytes);
    assert(hex_bytes(all).take(hex_bytes(bytes).len() as int) =~= hex_bytes(bytes));
    let high = b as nat / 16;
    let low = b as nat % 16;
    assert(high < 16 && low < 16 && high * 16 + low == b);
    assert(digit_char(high) as u32 == if high < 10 {
        48 + high
    } else {
        87 + high
    });
    assert(digit_char(low) as u32 == if low < 10 {
        48 + low
    } else {
        87 + low
    });
}

/// A file that could not be opened is refused by what stands at its path.
pub proof fn law_failed_opens_are_told_by_the_path()
    ensures
        open_failure(PathStat::Link) == PreviewRefusal::Entry(Refusal::LinkFinal),
        open_failure(PathStat::Other) == PreviewRefusal::OpenFailed,
        open_failure(PathStat::NotFound) == PreviewRefusal::Entry(Refusal::DoesNotExist),
        open_failure(PathStat::Unreadable) == PreviewRefusal::LocationUnconfirmed,
{
}

/// A number is written in eight bytes, the lowest first: together they are the
/// number again.
pub proof fn law_numbers_are_written_lowest_byte_first(n: u64)
    ensures
        ({
            let b = little_endian(n);
            &&& b.len() == 8
            &&& n == b[0] + 256 * (b[1] + 256 * (b[2] + 256 * (b[3] + 256 * (b[4] + 256 * (b[5] + 256
                * (b[6] + 256 * b[7]))))))
        }),
{
    let b = little_endian(n);
    let q0 = n as int;
    let q1 = q0 / 256;
    let q2 = q1 / 256;
    let q3 = q2 / 256;
    let q4 = q3 / 256;
    let q5 = q4 / 256;
    let q6 = q5 / 256;
    let q7 = q6 / 256;
    lemma_byte(n, 0);
    lemma_byte(n, 1);
    lemma_byte(n, 2);
    lemma_byte(n, 3);
    lemma_byte(n, 4);
    lemma_byte(n, 5);
    lemma_byte(n, 6);
    lemma_byte(n, 7);
    reveal_with_fuel(pow256, 2);
    assert(q0 / pow256(0) == q0);
    assert(q7 < 256);
}

proof fn lemma_byte(n: u64, i: nat)
    requires
        i < 8,
    ensures
        little_endian(n)[i as int] == (n as int / pow256(i)) % 256,
        n as int / pow256(i + 1) == (n as int / pow256(i)) / 256,
        pow256(i) > 0,
    decreases i,
{
    if i > 0 {
        lemma_byte(n, (i - 1) as nat);
    }
    reveal_with_fuel(pow256, 2);
    vstd::arithmetic::div_mod::lemma_div_denominator(n as int, pow256(i), 256);
    assert(pow256(i + 1) == pow256(i) * 256) by (nonlinear_arith)
        requires
            pow256(i + 1) == 256 * pow256(i),
    ;
}

} // verus!
