//! Renaming an entry of a workspace folder, decision by decision.
//!
//! An entry that git tracks is renamed through git, so that the act is staged.
//! Any other entry is renamed on the disk, and the new name is claimed before it
//! is taken: a name that appeared in the meantime is refused, never replaced.
use crate::paths::{join_name, path_join, pieces, Piece, PieceKind};
use crate::platform::Platform;
use crate::text::{
    ascii_lower, chars_of, is_white, join, lower_chars, same_chars, text_of, words_of,
};
use crate::workspace_entries::{
    are_plain_names, below, collect_names, entry_at, is_git_name, is_plain_root, is_simple_name,
    join_names, judged_name, law_new_names_are_judged_one_rule_after_the_other,
    law_requests_lead_to_what_they_name, leads_down, lemma_below, mark_of, names_in,
    names_the_root, spelled, usable_name, vouched, vouched_entry, wire_join, wire_path, EntryStat,
    Refusal, Walked,
};
use vstd::prelude::*;
use vstd::slice::slice_subrange;

verus! {

/// Why a rename is refused: a rule of this library, or git's own sentence.
#[derive(Debug)]
pub enum RenameError {
    Refused(Refusal),
    Git(String),
}

/// `RenameError` over the characters of its text.
pub ghost enum RenameErrorView {
    Refused(Refusal),
    Git(Seq<char>),
}

impl View for RenameError {
    type V = RenameErrorView;

    open spec fn view(&self) -> RenameErrorView {
        match self {
            RenameError::Refused(refusal) => RenameErrorView::Refused(*refusal),
            RenameError::Git(t) => RenameErrorView::Git(t@),
        }
    }
}

impl RenameError {
    /// The sentence that a client is shown.
    pub fn sentence(&self) -> (r: String)
        ensures
            r@ == match self {
                RenameError::Refused(refusal) => crate::workspace_entries::sentence_of(*refusal),
                RenameError::Git(t) => t@,
            },
    {
        match self {
            RenameError::Refused(refusal) => refusal.sentence().to_owned(),
            RenameError::Git(t) => t.clone(),
        }
    }
}

/// What is known so far about a rename.
#[derive(Debug)]
pub struct RenameFacts {
    /// What the walk over the disk found.
    pub walked: Option<Walked>,
    /// Whether something stands at the new name.
    pub destination_exists: Option<bool>,
    /// Whether one canonical path stands behind both names.
    pub same_entry: Option<bool>,
    /// Whether the workspace is a repository's root.
    pub repository: Option<bool>,
    /// Whether git tracks the entry, or git's sentence.
    pub in_index: Option<Result<bool, String>>,
    /// The outcome of `git mv`.
    pub moved_by_git: Option<Result<(), String>>,
    /// The outcome of the move on the disk.
    pub moved: Option<Result<(), Refusal>>,
}

/// What a rename asks for next.
#[derive(Debug)]
pub enum RenameStep {
    Walk,
    StatDestination { destination: String },
    CompareCanonical { source: String, destination: String },
    ProbeRepository,
    ListTracked { path: String },
    GitMove { old_path: String, new_path: String },
    /// Rename the entry onto its own name in another case.
    RenameCase { source: String, destination: String },
    /// Claim the new name, then move.
    ClaimThenMove { source: String, destination: String },
    /// Nothing: this is the answer, the entry's new spelling.
    Done(Result<String, RenameError>),
}

/// `RenameStep` over the characters of its texts.
pub ghost enum RenameView {
    Walk,
    StatDestination { destination: Seq<char> },
    CompareCanonical { source: Seq<char>, destination: Seq<char> },
    ProbeRepository,
    ListTracked { path: Seq<char> },
    GitMove { old_path: Seq<char>, new_path: Seq<char> },
    RenameCase { source: Seq<char>, destination: Seq<char> },
    ClaimThenMove { source: Seq<char>, destination: Seq<char> },
    Done(Result<Seq<char>, RenameErrorView>),
}

impl View for RenameStep {
    type V = RenameView;

    open spec fn view(&self) -> RenameView {
        match self {
            RenameStep::Walk => RenameView::Walk,
            RenameStep::StatDestination { destination } => RenameView::StatDestination {
                destination: destination@,
            },
            RenameStep::CompareCanonical { source, destination } => RenameView::CompareCanonical {
                source: source@,
                destination: destination@,
            },
            RenameStep::ProbeRepository => RenameView::ProbeRepository,
            RenameStep::ListTracked { path } => RenameView::ListTracked { path: path@ },
            RenameStep::GitMove { old_path, new_path } => RenameView::GitMove {
                old_path: old_path@,
                new_path: new_path@,
            },
            RenameStep::RenameCase { source, destination } => RenameView::RenameCase {
                source: source@,
                destination: destination@,
            },
            RenameStep::ClaimThenMove { source, destination } => RenameView::ClaimThenMove {
                source: source@,
                destination: destination@,
            },
            RenameStep::Done(r) => RenameView::Done(
                match r {
                    Ok(path) => Ok(path@),
                    Err(e) => Err(e@),
                },
            ),
        }
    }
}

pub open spec fn rename_refused(refusal: Refusal) -> RenameView {
    RenameView::Done(Err(RenameErrorView::Refused(refusal)))
}

/// Two names differ in their ASCII case and in nothing else.
pub open spec fn differs_in_case(a: Seq<char>, b: Seq<char>) -> bool {
    a != b && ascii_lower(a) == ascii_lower(b)
}

/// Where a rename lands: nowhere that is taken, unless the name is the entry's
/// own in another case.
#[derive(Clone, Copy, Debug, PartialEq, Eq, Structural)]
pub enum Landing {
    Free,
    CaseOnly,
}

/// The move on the disk, where git has nothing to stage.
pub open spec fn disk_step(
    source: Seq<char>,
    destination: Seq<char>,
    new_path: Seq<char>,
    landing: Landing,
    facts: RenameFacts,
) -> RenameView {
    match facts.moved {
        Some(Ok(())) => RenameView::Done(Ok(new_path)),
        Some(Err(refusal)) => rename_refused(refusal),
        None => match landing {
            Landing::CaseOnly => RenameView::RenameCase { source, destination },
            Landing::Free => RenameView::ClaimThenMove { source, destination },
        },
    }
}

/// The act: through git where git tracks the entry, else on the disk.
pub open spec fn move_step(
    source: Seq<char>,
    destination: Seq<char>,
    old_path: Seq<char>,
    new_path: Seq<char>,
    landing: Landing,
    facts: RenameFacts,
) -> RenameView {
    match facts.repository {
        None => RenameView::ProbeRepository,
        Some(false) => disk_step(source, destination, new_path, landing, facts),
        Some(true) => match facts.in_index {
            None => RenameView::ListTracked { path: old_path },
            Some(Err(sentence)) => RenameView::Done(Err(RenameErrorView::Git(sentence@))),
            Some(Ok(false)) => disk_step(source, destination, new_path, landing, facts),
            Some(Ok(true)) => match facts.moved_by_git {
                None => RenameView::GitMove { old_path, new_path },
                Some(Err(sentence)) => RenameView::Done(Err(RenameErrorView::Git(sentence@))),
                Some(Ok(())) => RenameView::Done(Ok(new_path)),
            },
        },
    }
}

/// What stands at the new name decides where the rename lands.
pub open spec fn landing_step(
    platform: Platform,
    root: Seq<char>,
    names: Seq<Seq<char>>,
    source: Seq<char>,
    new_name: Seq<char>,
    facts: RenameFacts,
) -> RenameView {
    let destination = path_join(platform, below(platform, root, names.drop_last()), new_name);
    let old_path = wire_path(names);
    let new_path = wire_path(names.drop_last().push(new_name));
    match facts.destination_exists {
        None => RenameView::StatDestination { destination },
        Some(false) => move_step(source, destination, old_path, new_path, Landing::Free, facts),
        Some(true) => if !differs_in_case(new_name, names.last()) {
            rename_refused(Refusal::NameTaken)
        } else {
            match facts.same_entry {
                None => RenameView::CompareCanonical { source, destination },
                Some(false) => rename_refused(Refusal::NameTaken),
                Some(true) => move_step(
                    source,
                    destination,
                    old_path,
                    new_path,
                    Landing::CaseOnly,
                    facts,
                ),
            }
        },
    }
}

/// What a rename does next, from what is known.
pub open spec fn rename_step(
    platform: Platform,
    root: Seq<char>,
    requested: Seq<char>,
    name: Seq<char>,
    facts: RenameFacts,
) -> RenameView {
    match (spelled(platform, root, requested), facts.walked) {
        (Err(refusal), _) => rename_refused(refusal),
        (Ok(_), None) => RenameView::Walk,
        (Ok(_), Some(walked)) => match vouched(platform, root, requested, walked) {
            Err(refusal) => rename_refused(refusal),
            Ok((source, _)) => match judged_name(platform, name) {
                Err(refusal) => rename_refused(refusal),
                Ok(new_name) => landing_step(
                    platform,
                    root,
                    names_in(requested, pieces(platform, requested)),
                    source,
                    new_name,
                    facts,
                ),
            },
        },
    }
}

proof fn lemma_names_in_some(s: Seq<char>, v: Seq<Piece>, i: int)
    requires
        0 <= i < v.len(),
        v[i].kind == PieceKind::Normal,
    ensures
        names_in(s, v).len() > 0,
    decreases v.len(),
{
    if i < v.len() - 1 {
        lemma_names_in_some(s, v.drop_last(), i);
    }
}

/// A spelling that leads down and is not the root has a name in it.
pub proof fn lemma_spelled_has_a_name(platform: Platform, requested: Seq<char>)
    requires
        !names_the_root(platform, requested),
        leads_down(platform, requested),
    ensures
        names_in(requested, pieces(platform, requested)).len() > 0,
{
    let v = pieces(platform, requested);
    let i = choose|i: int| 0 <= i < v.len() && (#[trigger] v[i]).kind != PieceKind::CurDir;
    assert(v[i].kind == PieceKind::CurDir || v[i].kind == PieceKind::Normal);
    lemma_names_in_some(requested, v, i);
}

fn refuse(refusal: Refusal) -> (r: RenameStep)
    ensures
        r@ == rename_refused(refusal),
{
    RenameStep::Done(Err(RenameError::Refused(refusal)))
}

fn decide_disk(
    source: String,
    destination: String,
    new_path: String,
    landing: Landing,
    facts: &RenameFacts,
) -> (r: RenameStep)
    ensures
        r@ == disk_step(source@, destination@, new_path@, landing, *facts),
{
    match facts.moved {
        Some(Ok(())) => RenameStep::Done(Ok(new_path)),
        Some(Err(refusal)) => refuse(refusal),
        None => match landing {
            Landing::CaseOnly => RenameStep::RenameCase { source, destination },
            Landing::Free => RenameStep::ClaimThenMove { source, destination },
        },
    }
}

fn rename_on_disk(
    source: String,
    destination: String,
    old_path: String,
    new_path: String,
    landing: Landing,
    facts: &RenameFacts,
) -> (r: RenameStep)
    ensures
        r@ == move_step(source@, destination@, old_path@, new_path@, landing, *facts),
{
    match facts.repository {
        None => RenameStep::ProbeRepository,
        Some(false) => decide_disk(source, destination, new_path, landing, facts),
        Some(true) => match &facts.in_index {
            None => RenameStep::ListTracked { path: old_path },
            Some(Err(sentence)) => RenameStep::Done(Err(RenameError::Git(sentence.clone()))),
            Some(Ok(false)) => decide_disk(source, destination, new_path, landing, facts),
            Some(Ok(true)) => match &facts.moved_by_git {
                None => RenameStep::GitMove { old_path, new_path },
                Some(Err(sentence)) => RenameStep::Done(Err(RenameError::Git(sentence.clone()))),
                Some(Ok(())) => RenameStep::Done(Ok(new_path)),
            },
        },
    }
}

/// Whether an existing name can be the entry's own in another case.
fn case_only_of(source_name: &[char], new_name: &[char]) -> (r: bool)
    ensures
        r == differs_in_case(new_name@, source_name@),
{
    let a = lower_chars(new_name);
    let b = lower_chars(source_name);
    !same_chars(new_name, source_name) && same_chars(a.as_slice(), b.as_slice())
}

/// What renaming an entry does next, from what is known.
pub fn renamed(
    platform: Platform,
    root: &str,
    requested: &str,
    name: &str,
    facts: &RenameFacts,
) -> (r: RenameStep)
    ensures
        r@ == rename_step(platform, root@, requested@, name@, *facts),
{
    if let Err(refusal) = entry_at(platform, root, requested) {
        return refuse(refusal);
    }
    let walked = match facts.walked {
        None => {
            return RenameStep::Walk;
        },
        Some(walked) => walked,
    };
    let source = match vouched_entry(platform, root, requested, walked) {
        Err(refusal) => {
            return refuse(refusal);
        },
        Ok((source, _)) => source,
    };
    let new_name = match usable_name(platform, name) {
        Err(refusal) => {
            return refuse(refusal);
        },
        Ok(new_name) => new_name,
    };
    proof {
        lemma_spelled_has_a_name(platform, requested@);
    }
    let base = chars_of(root);
    let spelling = chars_of(requested);
    let names = collect_names(platform, spelling.as_slice());
    let ghost all = words_of(names@);
    assert(all.len() == names@.len());
    let last: usize = names.len() - 1;
    let parents = slice_subrange(names.as_slice(), 0, last);
    assert(words_of(parents@) =~= all.drop_last());
    let fresh = chars_of(new_name.as_str());
    let folder = join_names(platform, base.as_slice(), parents);
    let destination = text_of(join_name(platform, folder.as_slice(), fresh.as_slice()).as_slice());
    let old_path = wire_join(names.as_slice());
    let mut new_names: Vec<Vec<char>> = Vec::new();
    let mut i: usize = 0;
    while i < last
        invariant
            i <= last,
            last < names@.len(),
            all == words_of(names@),
            words_of(new_names@) == all.take(i as int),
        decreases last - i,
    {
        let ghost before = new_names@;
        new_names.push(crate::text::owned(names[i].as_slice()));
        i = i + 1;
        assert(words_of(new_names@) =~= words_of(before).push(all[i - 1]));
        assert(words_of(new_names@) =~= all.take(i as int));
    }
    let ghost before = new_names@;
    new_names.push(chars_of(new_name.as_str()));
    assert(all.take(i as int) =~= all.drop_last());
    assert(words_of(new_names@) =~= all.drop_last().push(new_name@));
    let new_path = wire_join(new_names.as_slice());
    assert(all.last() == names@[last as int]@);
    match facts.destination_exists {
        None => RenameStep::StatDestination { destination },
        Some(false) => rename_on_disk(
            source,
            destination,
            old_path,
            new_path,
            Landing::Free,
            facts,
        ),
        Some(true) => {
            if !case_only_of(names[last].as_slice(), fresh.as_slice()) {
                return refuse(Refusal::NameTaken);
            }
            match facts.same_entry {
                None => RenameStep::CompareCanonical { source, destination },
                Some(false) => refuse(Refusal::NameTaken),
                Some(true) => rename_on_disk(
                    source,
                    destination,
                    old_path,
                    new_path,
                    Landing::CaseOnly,
                    facts,
                ),
            }
        },
    }
}

/// A name that something else has is never taken: an act follows an existing
/// name only where it is the entry's own in another case.
pub proof fn law_taken_names_are_refused(
    platform: Platform,
    root: Seq<char>,
    requested: Seq<char>,
    name: Seq<char>,
    facts: RenameFacts,
)
    requires
        facts.destination_exists == Some(true),
        rename_step(platform, root, requested, name, facts) is GitMove || rename_step(
            platform,
            root,
            requested,
            name,
            facts,
        ) is RenameCase || rename_step(platform, root, requested, name, facts) is ClaimThenMove,
    ensures
        facts.same_entry == Some(true),
        !(rename_step(platform, root, requested, name, facts) is ClaimThenMove),
        judged_name(platform, name) is Ok && differs_in_case(
            judged_name(platform, name)->Ok_0,
            names_in(requested, pieces(platform, requested)).last(),
        ),
{
}

/// What is known so far about a move that claims its name first.
#[derive(Debug)]
pub struct ClaimFacts {
    /// Whether the source is a folder; nothing where it has no stat.
    pub source_is_dir: Option<Option<bool>>,
    /// Whether a folder could be made at the new name.
    pub made_dir: Option<bool>,
    /// Whether the first rename succeeded.
    pub renamed: Option<bool>,
    /// Whether the folder at the new name could be taken back, being empty.
    pub released: Option<bool>,
    /// Whether the second rename succeeded.
    pub renamed_again: Option<bool>,
    /// Whether the file could be linked to the new name.
    pub linked: Option<bool>,
    /// Whether something stands at the new name now.
    pub destination_exists: Option<bool>,
    /// Whether a plain rename succeeded where no link could be made.
    pub fell_back: Option<bool>,
    /// Whether the source's own name could be dropped.
    pub source_removed: Option<bool>,
    /// The link at the new name was taken back.
    pub rolled_back: bool,
}

/// What a move that claims its name asks for next.
#[derive(Clone, Copy, Debug, PartialEq, Eq)]
pub enum ClaimStep {
    StatSource,
    /// Make a folder at the new name; this fails where the name is taken.
    MakeDir,
    /// Rename the folder onto the claimed, empty folder.
    Rename,
    /// Take the claim back; this fails unless the folder is empty.
    Release,
    /// Rename the folder once more.
    RenameAgain,
    /// Link the file to the new name; this fails where the name is taken.
    HardLink,
    StatDestination,
    /// Rename without a claim: no link could be made and the name is free.
    FallBack,
    RemoveSource,
    /// Remove the link at the new name again.
    RollBack,
    /// Nothing: this is the answer.
    Done(Result<(), Refusal>),
}

/// A claim that lost: the name exists now, or nothing moved.
pub open spec fn lost_step(facts: ClaimFacts) -> ClaimStep {
    match facts.destination_exists {
        None => ClaimStep::StatDestination,
        Some(true) => ClaimStep::Done(Err(Refusal::NameTaken)),
        Some(false) => ClaimStep::Done(Err(Refusal::RenameFailed)),
    }
}

/// The move of a folder.
pub open spec fn folder_claim(facts: ClaimFacts) -> ClaimStep {
    match facts.made_dir {
        None => ClaimStep::MakeDir,
        Some(false) => lost_step(facts),
        Some(true) => match facts.renamed {
            None => ClaimStep::Rename,
            Some(true) => ClaimStep::Done(Ok(())),
            Some(false) => match facts.released {
                None => ClaimStep::Release,
                Some(false) => lost_step(facts),
                Some(true) => match facts.renamed_again {
                    None => ClaimStep::RenameAgain,
                    Some(true) => ClaimStep::Done(Ok(())),
                    Some(false) => lost_step(facts),
                },
            },
        },
    }
}

/// The move of a file.
pub open spec fn file_claim(facts: ClaimFacts) -> ClaimStep {
    match facts.linked {
        None => ClaimStep::HardLink,
        Some(false) => match facts.destination_exists {
            None => ClaimStep::StatDestination,
            Some(true) => ClaimStep::Done(Err(Refusal::NameTaken)),
            Some(false) => match facts.fell_back {
                None => ClaimStep::FallBack,
                Some(true) => ClaimStep::Done(Ok(())),
                Some(false) => ClaimStep::Done(Err(Refusal::RenameFailed)),
            },
        },
        Some(true) => match facts.source_removed {
            None => ClaimStep::RemoveSource,
            Some(true) => ClaimStep::Done(Ok(())),
            Some(false) => if facts.rolled_back {
                ClaimStep::Done(Err(Refusal::RenameFailed))
            } else {
                ClaimStep::RollBack
            },
        },
    }
}

/// What a move that claims its name does next, from what is known.
pub open spec fn claim_step(facts: ClaimFacts) -> ClaimStep {
    match facts.source_is_dir {
        None => ClaimStep::StatSource,
        Some(None) => ClaimStep::Done(Err(Refusal::RenameFailed)),
        Some(Some(true)) => folder_claim(facts),
        Some(Some(false)) => file_claim(facts),
    }
}

fn claim_lost(facts: &ClaimFacts) -> (r: ClaimStep)
    ensures
        r == lost_step(*facts),
{
    match facts.destination_exists {
        None => ClaimStep::StatDestination,
        Some(true) => ClaimStep::Done(Err(Refusal::NameTaken)),
        Some(false) => ClaimStep::Done(Err(Refusal::RenameFailed)),
    }
}

fn claim_folder(facts: &ClaimFacts) -> (r: ClaimStep)
    ensures
        r == folder_claim(*facts),
{
    match facts.made_dir {
        None => ClaimStep::MakeDir,
        Some(false) => claim_lost(facts),
        Some(true) => match facts.renamed {
            None => ClaimStep::Rename,
            Some(true) => ClaimStep::Done(Ok(())),
            Some(false) => match facts.released {
                None => ClaimStep::Release,
                Some(false) => claim_lost(facts),
                Some(true) => match facts.renamed_again {
                    None => ClaimStep::RenameAgain,
                    Some(true) => ClaimStep::Done(Ok(())),
                    Some(false) => claim_lost(facts),
                },
            },
        },
    }
}

fn claim_file(facts: &ClaimFacts) -> (r: ClaimStep)
    ensures
        r == file_claim(*facts),
{
    match facts.linked {
        None => ClaimStep::HardLink,
        Some(false) => match facts.destination_exists {
            None => ClaimStep::StatDestination,
            Some(true) => ClaimStep::Done(Err(Refusal::NameTaken)),
            Some(false) => match facts.fell_back {
                None => ClaimStep::FallBack,
                Some(true) => ClaimStep::Done(Ok(())),
                Some(false) => ClaimStep::Done(Err(Refusal::RenameFailed)),
            },
        },
        Some(true) => match facts.source_removed {
            None => ClaimStep::RemoveSource,
            Some(true) => ClaimStep::Done(Ok(())),
            Some(false) => if facts.rolled_back {
                ClaimStep::Done(Err(Refusal::RenameFailed))
            } else {
                ClaimStep::RollBack
            },
        },
    }
}

/// What a move that claims its name does next, from what is known.
pub fn claim_then_move(facts: &ClaimFacts) -> (r: ClaimStep)
    ensures
        r == claim_step(*facts),
{
    match facts.source_is_dir {
        None => ClaimStep::StatSource,
        Some(None) => ClaimStep::Done(Err(Refusal::RenameFailed)),
        Some(Some(true)) => claim_folder(facts),
        Some(Some(false)) => claim_file(facts),
    }
}

/// A rename follows a claim that succeeded, or finds the name free: what stands
/// at a name is never replaced.
pub proof fn law_names_are_claimed_before_they_are_taken(facts: ClaimFacts)
    ensures
        claim_step(facts) == ClaimStep::Rename ==> facts.made_dir == Some(true),
        claim_step(facts) == ClaimStep::RenameAgain ==> facts.made_dir == Some(true)
            && facts.released == Some(true),
        claim_step(facts) == ClaimStep::RemoveSource ==> facts.linked == Some(true),
        claim_step(facts) == ClaimStep::FallBack ==> facts.linked == Some(false)
            && facts.destination_exists == Some(false),
        claim_step(facts) == ClaimStep::Release ==> facts.made_dir == Some(true),
{
}

/// A move that was refused moved nothing: every rename that was tried failed,
/// and a link to the new name was taken back while the source kept its own.
pub proof fn law_refused_moves_lose_nothing(facts: ClaimFacts, refusal: Refusal)
    requires
        claim_step(facts) == ClaimStep::Done(Err(refusal)),
    ensures
        facts.source_is_dir == Some(Some(false)) && facts.linked == Some(true)
            ==> facts.source_removed == Some(false) && facts.rolled_back,
        facts.source_is_dir == Some(Some(false)) && facts.linked == Some(false)
            && facts.destination_exists == Some(false) ==> facts.fell_back == Some(false),
        facts.source_is_dir == Some(Some(true)) && facts.made_dir == Some(true) ==> facts.renamed
            == Some(false),
        facts.source_is_dir == Some(Some(true)) && facts.made_dir == Some(true) && facts.released
            == Some(true) ==> facts.renamed_again == Some(false),
{
}

/// Nothing is asked for that is known already, so a caller that answers every
/// question gets to an end.
pub proof fn law_no_question_is_asked_twice(
    platform: Platform,
    root: Seq<char>,
    requested: Seq<char>,
    name: Seq<char>,
    facts: RenameFacts,
)
    ensures
        match rename_step(platform, root, requested, name, facts) {
            RenameView::Walk => facts.walked is None,
            RenameView::StatDestination { .. } => facts.destination_exists is None,
            RenameView::CompareCanonical { .. } => facts.same_entry is None,
            RenameView::ProbeRepository => facts.repository is None,
            RenameView::ListTracked { .. } => facts.in_index is None,
            RenameView::GitMove { .. } => facts.moved_by_git is None,
            RenameView::RenameCase { .. } => facts.moved is None,
            RenameView::ClaimThenMove { .. } => facts.moved is None,
            _ => true,
        },
{
}

/// The same of the move that claims its name first.
pub proof fn law_no_claim_is_asked_twice(facts: ClaimFacts)
    ensures
        match claim_step(facts) {
            ClaimStep::StatSource => facts.source_is_dir is None,
            ClaimStep::MakeDir => facts.made_dir is None,
            ClaimStep::Rename => facts.renamed is None,
            ClaimStep::Release => facts.released is None,
            ClaimStep::RenameAgain => facts.renamed_again is None,
            ClaimStep::HardLink => facts.linked is None,
            ClaimStep::StatDestination => facts.destination_exists is None,
            ClaimStep::FallBack => facts.fell_back is None,
            ClaimStep::RemoveSource => facts.source_removed is None,
            ClaimStep::RollBack => !facts.rolled_back,
            _ => true,
        },
{
}

/// A rename changes the last name of an entry and nothing before it: the source
/// is the entry's own place, the destination the new name beside it, and both
/// spellings go to git and to the client with `/` between their names.
pub proof fn law_renames_change_the_last_name_only(
    platform: Platform,
    root: Seq<char>,
    names: Seq<Seq<char>>,
    name: Seq<char>,
    facts: RenameFacts,
    stat: EntryStat,
    text: String,
    why: Refusal,
)
    requires
        is_plain_root(platform, root),
        are_plain_names(names),
        is_simple_name(name),
        !is_git_name(name),
        !is_white(name[0]) && !is_white(name.last()) && name.last() != '.',
        facts.walked == Some(Walked::Inside(stat)),
    ensures
        ({
            let step = rename_step(platform, root, join(names, "/"@), name, facts);
            let source = join(seq![root] + names, mark_of(platform));
            let renamed = names.drop_last().push(name);
            let destination = join(seq![root] + renamed, mark_of(platform));
            let old_path = join(names, "/"@);
            let new_path = join(renamed, "/"@);
            let refused = |refusal: Refusal|
                RenameView::Done(Err(RenameErrorView::Refused(refusal)));
            let case_only = name != names.last() && ascii_lower(name) == ascii_lower(names.last());
            let free = facts.destination_exists == Some(false);
            let own = facts.destination_exists == Some(true) && case_only && facts.same_entry == Some(
                true,
            );
            let untracked = facts.repository == Some(false) || (facts.repository == Some(true)
                && facts.in_index == Some(Ok::<bool, String>(false)));
            let listed = facts.repository == Some(true) && facts.in_index == Some(
                Ok::<bool, String>(true),
            );
            &&& facts.destination_exists is None ==> step == (RenameView::StatDestination {
                destination,
            })
            &&& facts.destination_exists == Some(true) && !case_only ==> step == refused(
                Refusal::NameTaken,
            )
            &&& facts.destination_exists == Some(true) && case_only && facts.same_entry is None ==> step
                == (RenameView::CompareCanonical { source, destination })
            &&& facts.destination_exists == Some(true) && case_only && facts.same_entry == Some(
                false,
            ) ==> step == refused(Refusal::NameTaken)
            &&& free || own ==> {
                &&& facts.repository is None ==> step == RenameView::ProbeRepository
                &&& facts.repository == Some(true) && facts.in_index is None ==> step == (
                RenameView::ListTracked { path: old_path })
                &&& facts.repository == Some(true) && facts.in_index == Some(
                    Err::<bool, String>(text),
                ) ==> step == RenameView::Done(Err(RenameErrorView::Git(text@)))
                &&& listed ==> {
                    &&& facts.moved_by_git is None ==> step == (RenameView::GitMove {
                        old_path,
                        new_path,
                    })
                    &&& facts.moved_by_git == Some(Err::<(), String>(text)) ==> step
                        == RenameView::Done(Err(RenameErrorView::Git(text@)))
                    &&& facts.moved_by_git == Some(Ok::<(), String>(())) ==> step
                        == RenameView::Done(Ok(new_path))
                }
                &&& untracked ==> {
                    &&& facts.moved is None && own ==> step == (RenameView::RenameCase {
                        source,
                        destination,
                    })
                    &&& facts.moved is None && free ==> step == (RenameView::ClaimThenMove {
                        source,
                        destination,
                    })
                    &&& facts.moved == Some(Ok::<(), Refusal>(())) ==> step == RenameView::Done(
                        Ok(new_path),
                    )
                    &&& facts.moved == Some(Err::<(), Refusal>(why)) ==> step == refused(why)
                }
            }
        }),
{
    law_requests_lead_to_what_they_name(platform, root, names);
    law_new_names_are_judged_one_rule_after_the_other(platform, name);
    lemma_sibling(platform, root, names, name);
    assert forall|i: int| 0 <= i < name.len() implies #[trigger] name[i] != '/' && name[i]
        != '\\' by {}
    reveal_strlit(".");
    reveal_strlit("..");
    assert("."@ =~= seq!['.']);
    assert(".."@ =~= seq!['.', '.']);
}

/// A name beside an entry: the entry's own path with its last name replaced.
pub proof fn lemma_sibling(
    platform: Platform,
    root: Seq<char>,
    names: Seq<Seq<char>>,
    name: Seq<char>,
)
    requires
        is_plain_root(platform, root),
        are_plain_names(names),
        is_simple_name(name),
    ensures
        path_join(platform, below(platform, root, names.drop_last()), name) == join(
            seq![root] + names.drop_last().push(name),
            mark_of(platform),
        ),
{
    let renamed = names.drop_last().push(name);
    assert forall|k: int| 0 <= k < renamed.len() implies is_simple_name(#[trigger] renamed[k]) by {
        if k < names.len() - 1 {
            assert(renamed[k] == names[k]);
        }
    }
    lemma_below(platform, root, renamed);
    assert(renamed.drop_last() =~= names.drop_last());
}

/// A rename refuses what is not vouched for before it looks at the new name, and
/// a bad name before it looks at the disk again.
pub proof fn law_renames_are_refused_before_anything_moves(
    platform: Platform,
    root: Seq<char>,
    requested: Seq<char>,
    name: Seq<char>,
    facts: RenameFacts,
    walked: Walked,
    why: Refusal,
    target: (Seq<char>, EntryStat),
)
    ensures
        ({
            let step = rename_step(platform, root, requested, name, facts);
            let refused = RenameView::Done(Err(RenameErrorView::Refused(why)));
            &&& spelled(platform, root, requested) == Err::<Seq<char>, Refusal>(why) ==> step
                == refused
            &&& spelled(platform, root, requested) is Ok && facts.walked is None ==> step
                == RenameView::Walk
            &&& spelled(platform, root, requested) is Ok && facts.walked == Some(walked) && vouched(
                platform,
                root,
                requested,
                walked,
            ) == Err::<(Seq<char>, EntryStat), Refusal>(why) ==> step == refused
            &&& spelled(platform, root, requested) is Ok && facts.walked == Some(walked) && vouched(
                platform,
                root,
                requested,
                walked,
            ) == Ok::<(Seq<char>, EntryStat), Refusal>(target) && judged_name(platform, name) == Err::<
                Seq<char>,
                Refusal,
            >(why) ==> step == refused
        }),
{
}

/// A claimed move goes from step to step: a folder is moved onto an empty folder
/// that was made for it, a file is linked to its new name before its old one is
/// dropped, and what is lost on the way is told from a name that was taken.
pub proof fn law_claims_are_made_in_this_order(facts: ClaimFacts)
    ensures
        ({
            let step = claim_step(facts);
            let failed = ClaimStep::Done(Err(Refusal::RenameFailed));
            let lost = match facts.destination_exists {
                None => ClaimStep::StatDestination,
                Some(true) => ClaimStep::Done(Err(Refusal::NameTaken)),
                Some(false) => failed,
            };
            &&& facts.source_is_dir is None ==> step == ClaimStep::StatSource
            &&& facts.source_is_dir == Some(None::<bool>) ==> step == failed
            &&& facts.source_is_dir == Some(Some(true)) ==> {
                &&& facts.made_dir is None ==> step == ClaimStep::MakeDir
                &&& facts.made_dir == Some(false) ==> step == lost
                &&& facts.made_dir == Some(true) && facts.renamed is None ==> step
                    == ClaimStep::Rename
                &&& facts.made_dir == Some(true) && facts.renamed == Some(true) ==> step
                    == ClaimStep::Done(Ok(()))
                &&& facts.made_dir == Some(true) && facts.renamed == Some(false) ==> {
                    &&& facts.released is None ==> step == ClaimStep::Release
                    &&& facts.released == Some(false) ==> step == lost
                    &&& facts.released == Some(true) && facts.renamed_again is None ==> step
                        == ClaimStep::RenameAgain
                    &&& facts.released == Some(true) && facts.renamed_again == Some(true) ==> step
                        == ClaimStep::Done(Ok(()))
                    &&& facts.released == Some(true) && facts.renamed_again == Some(false) ==> step
                        == lost
                }
            }
            &&& facts.source_is_dir == Some(Some(false)) ==> {
                &&& facts.linked is None ==> step == ClaimStep::HardLink
                &&& facts.linked == Some(true) && facts.source_removed is None ==> step
                    == ClaimStep::RemoveSource
                &&& facts.linked == Some(true) && facts.source_removed == Some(true) ==> step
                    == ClaimStep::Done(Ok(()))
                &&& facts.linked == Some(true) && facts.source_removed == Some(false)
                    && !facts.rolled_back ==> step == ClaimStep::RollBack
                &&& facts.linked == Some(true) && facts.source_removed == Some(false)
                    && facts.rolled_back ==> step == failed
                &&& facts.linked == Some(false) ==> {
                    &&& facts.destination_exists is None ==> step == ClaimStep::StatDestination
                    &&& facts.destination_exists == Some(true) ==> step == ClaimStep::Done(
                        Err(Refusal::NameTaken),
                    )
                    &&& facts.destination_exists == Some(false) && facts.fell_back is None ==> step
                        == ClaimStep::FallBack
                    &&& facts.destination_exists == Some(false) && facts.fell_back == Some(true)
                        ==> step == ClaimStep::Done(Ok(()))
                    &&& facts.destination_exists == Some(false) && facts.fell_back == Some(false)
                        ==> step == failed
                }
            }
        }),
{
}

} // verus!
