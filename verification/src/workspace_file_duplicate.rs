//! Duplicating an entry of a workspace folder, decision by decision.
//!
//! A copy is named after its original: `a copy.txt`, `a copy 2.txt`, and so on,
//! the first name that is free. Nothing is ever overwritten, no link is
//! followed, and a copy that fails half-way is removed whole.
use crate::numbers::{decimal, decimal_text, lemma_in_base_injective, lemma_only_digits};
use crate::paths::{join_name, path_join, pieces};
use crate::platform::Platform;
use crate::text::{chars_of, join, owned, push_all, spells, text_of, words_of};
use crate::workspace_entries::{
    are_plain_names, below, collect_names, entry_at, is_plain_root, is_simple_name, join_names,
    law_requests_lead_to_what_they_name, mark_of, names_in, spelled, vouched, vouched_entry,
    wire_join, wire_path, EntryStat, Refusal, Walked,
};
use crate::workspace_file_rename::lemma_spelled_has_a_name;
use vstd::prelude::*;
use vstd::slice::slice_subrange;

verus! {

/// The last place of a character.
pub open spec fn last_index(s: Seq<char>, c: char) -> Option<int>
    decreases s.len(),
{
    if s.len() == 0 {
        None
    } else if s.last() == c {
        Some(s.len() - 1)
    } else {
        last_index(s.drop_last(), c)
    }
}

/// Where a name's extension begins: at its last dot, unless that is its first
/// character or the name is `..`.
pub open spec fn extension_dot(name: Seq<char>) -> Option<int> {
    match last_index(name, '.') {
        Some(i) if i > 0 && name != ".."@ => Some(i),
        _ => None,
    }
}

/// A name without its extension.
pub open spec fn stem_of(name: Seq<char>) -> Seq<char> {
    match extension_dot(name) {
        Some(i) => name.take(i),
        None => name,
    }
}

/// A name's extension, without the dot.
pub open spec fn extension_of(name: Seq<char>) -> Option<Seq<char>> {
    match extension_dot(name) {
        Some(i) => Some(name.skip(i + 1)),
        None => None,
    }
}

/// Finds where a name's extension begins.
pub fn find_extension_dot(name: &[char]) -> (r: Option<usize>)
    ensures
        crate::text::position(r) == extension_dot(name@),
        r matches Some(i) ==> 0 < i < name@.len(),
{
    if spells(name, "..") {
        return None;
    }
    let mut i: usize = name.len();
    assert(name@.take(i as int) =~= name@);
    while i > 0
        invariant
            i <= name@.len(),
            name@ != ".."@,
            last_index(name@, '.') == last_index(name@.take(i as int), '.'),
        decreases i,
    {
        let ghost t = name@.take(i as int);
        assert(t.last() == name@[i - 1]);
        assert(t.drop_last() =~= name@.take(i - 1));
        if name[i - 1] == '.' {
            if i - 1 > 0 {
                return Some(i - 1);
            }
            return None;
        }
        i = i - 1;
    }
    None
}

/// The name of a copy on an attempt: ` copy` behind the stem, from the second
/// attempt on with its number, and the extension, if it says anything.
pub open spec fn copy_candidate(name: Seq<char>, attempt: nat) -> Seq<char> {
    let counted = if attempt <= 1 {
        " copy"@
    } else {
        " copy "@ + decimal(attempt)
    };
    match extension_of(name) {
        Some(e) if e.len() > 0 => stem_of(name) + counted + "."@ + e,
        _ => stem_of(name) + counted,
    }
}

/// The name of a copy on an attempt.
pub fn copy_name_for(name: &[char], attempt: u64) -> (r: Vec<char>)
    ensures
        r@ == copy_candidate(name@, attempt as nat),
{
    let dot = find_extension_dot(name);
    let total: usize = name.len();
    let stem_end: usize = match dot {
        Some(i) => i,
        None => total,
    };
    let stem = slice_subrange(name, 0, stem_end);
    assert(stem@ =~= stem_of(name@));
    let mut counted = chars_of(" copy");
    if attempt > 1 {
        counted = chars_of(" copy ");
        let number = chars_of(decimal_text(attempt).as_str());
        push_all(&mut counted, number.as_slice());
    }
    let mut r = owned(stem);
    push_all(&mut r, counted.as_slice());
    if let Some(i) = dot {
        let extension = slice_subrange(name, i + 1, total);
        assert(extension@ =~= name@.skip(i + 1));
        if extension.len() > 0 {
            let point = chars_of(".");
            push_all(&mut r, point.as_slice());
            push_all(&mut r, extension);
        }
    }
    r
}

/// Different attempts give different names, so one of them is free as long as
/// fewer names are taken.
pub proof fn law_copy_names_differ(name: Seq<char>, a: nat, b: nat)
    requires
        1 <= a,
        a < b,
    ensures
        copy_candidate(name, a) != copy_candidate(name, b),
{
    reveal_strlit(" copy");
    reveal_strlit(" copy ");
    reveal_strlit(".");
    let x = copy_candidate(name, a);
    let y = copy_candidate(name, b);
    let stem = stem_of(name);
    let n = stem.len() as int;
    lemma_only_digits(b, 10);
    if a == 1 {
        assert(y[n + 5] == ' ');
        match extension_of(name) {
            Some(e) if e.len() > 0 => {
                assert(x[n + 5] == '.');
            },
            _ => {
                assert(x.len() == n + 5);
            },
        }
    } else {
        lemma_only_digits(a, 10);
        let tail = match extension_of(name) {
            Some(e) if e.len() > 0 => "."@ + e,
            _ => Seq::empty(),
        };
        if x == y {
            assert(decimal(a).len() == decimal(b).len()) by {
                assert(x.len() == n + 6 + decimal(a).len() + tail.len());
                assert(y.len() == n + 6 + decimal(b).len() + tail.len());
            }
            assert(decimal(a) =~= decimal(b)) by {
                assert forall|i: int| 0 <= i < decimal(a).len() implies decimal(a)[i] == decimal(
                    b,
                )[i] by {
                    assert(x[n + 6 + i] == decimal(a)[i]);
                    assert(y[n + 6 + i] == decimal(b)[i]);
                }
            }
            lemma_in_base_injective(a, b, 10);
        }
    }
}

/// What is known so far about a duplicate.
#[derive(Debug)]
pub struct DuplicateFacts {
    /// What the walk over the disk found.
    pub walked: Option<Walked>,
    /// The attempt at a name, from 1 on.
    pub attempt: u64,
    /// Whether the attempt's name is taken.
    pub candidate_taken: Option<bool>,
    /// The outcome of the copy.
    pub copied: Option<Result<(), Refusal>>,
}

/// What a duplicate asks for next.
#[derive(Debug)]
pub enum DuplicateStep {
    Walk,
    StatCandidate { destination: String },
    /// The name is taken: go on with this attempt, of which nothing is known.
    NextAttempt { attempt: u64 },
    Copy { source: String, destination: String },
    /// Nothing: this is the answer, the copy's spelling.
    Done(Result<String, Refusal>),
}

/// `DuplicateStep` over the characters of its texts.
pub ghost enum DuplicateView {
    Walk,
    StatCandidate { destination: Seq<char> },
    NextAttempt { attempt: u64 },
    Copy { source: Seq<char>, destination: Seq<char> },
    Done(Result<Seq<char>, Refusal>),
}

impl View for DuplicateStep {
    type V = DuplicateView;

    open spec fn view(&self) -> DuplicateView {
        match self {
            DuplicateStep::Walk => DuplicateView::Walk,
            DuplicateStep::StatCandidate { destination } => DuplicateView::StatCandidate {
                destination: destination@,
            },
            DuplicateStep::NextAttempt { attempt } => DuplicateView::NextAttempt {
                attempt: *attempt,
            },
            DuplicateStep::Copy { source, destination } => DuplicateView::Copy {
                source: source@,
                destination: destination@,
            },
            DuplicateStep::Done(r) => DuplicateView::Done(
                match r {
                    Ok(path) => Ok(path@),
                    Err(refusal) => Err(*refusal),
                },
            ),
        }
    }
}

/// What a duplicate of a vouched entry does next.
pub open spec fn copy_step(
    platform: Platform,
    root: Seq<char>,
    names: Seq<Seq<char>>,
    source: Seq<char>,
    facts: DuplicateFacts,
) -> DuplicateView {
    let copy = copy_candidate(names.last(), facts.attempt as nat);
    let destination = path_join(platform, below(platform, root, names.drop_last()), copy);
    match facts.candidate_taken {
        None => DuplicateView::StatCandidate { destination },
        Some(true) => DuplicateView::NextAttempt { attempt: (facts.attempt + 1) as u64 },
        Some(false) => match facts.copied {
            None => DuplicateView::Copy { source, destination },
            Some(Err(refusal)) => DuplicateView::Done(Err(refusal)),
            Some(Ok(())) => DuplicateView::Done(Ok(wire_path(names.drop_last().push(copy)))),
        },
    }
}

/// What a duplicate does next, from what is known.
pub open spec fn duplicate_step(
    platform: Platform,
    root: Seq<char>,
    requested: Seq<char>,
    facts: DuplicateFacts,
) -> DuplicateView {
    match (spelled(platform, root, requested), facts.walked) {
        (Err(refusal), _) => DuplicateView::Done(Err(refusal)),
        (Ok(_), None) => DuplicateView::Walk,
        (Ok(_), Some(walked)) => match vouched(platform, root, requested, walked) {
            Err(refusal) => DuplicateView::Done(Err(refusal)),
            Ok((source, _)) => copy_step(
                platform,
                root,
                names_in(requested, pieces(platform, requested)),
                source,
                facts,
            ),
        },
    }
}

/// What duplicating an entry does next, from what is known. The last number that
/// an attempt can have has no next one.
pub fn duplicated(
    platform: Platform,
    root: &str,
    requested: &str,
    facts: &DuplicateFacts,
) -> (r: DuplicateStep)
    requires
        facts.attempt < u64::MAX,
    ensures
        r@ == duplicate_step(platform, root@, requested@, *facts),
{
    if let Err(refusal) = entry_at(platform, root, requested) {
        return DuplicateStep::Done(Err(refusal));
    }
    let walked = match facts.walked {
        None => {
            return DuplicateStep::Walk;
        },
        Some(walked) => walked,
    };
    let source = match vouched_entry(platform, root, requested, walked) {
        Err(refusal) => {
            return DuplicateStep::Done(Err(refusal));
        },
        Ok((source, _)) => source,
    };
    proof {
        lemma_spelled_has_a_name(platform, requested@);
    }
    let base = chars_of(root);
    let spelling = chars_of(requested);
    let mut names = collect_names(platform, spelling.as_slice());
    let ghost all = words_of(names@);
    assert(all.len() == names@.len());
    let last: usize = names.len() - 1;
    assert(all.last() == names@[last as int]@);
    let copy = copy_name_for(names[last].as_slice(), facts.attempt);
    let parents = slice_subrange(names.as_slice(), 0, last);
    assert(words_of(parents@) =~= all.drop_last());
    let folder = join_names(platform, base.as_slice(), parents);
    let destination = text_of(join_name(platform, folder.as_slice(), copy.as_slice()).as_slice());
    match facts.candidate_taken {
        None => DuplicateStep::StatCandidate { destination },
        Some(true) => DuplicateStep::NextAttempt { attempt: facts.attempt + 1 },
        Some(false) => match facts.copied {
            None => DuplicateStep::Copy { source, destination },
            Some(Err(refusal)) => DuplicateStep::Done(Err(refusal)),
            Some(Ok(())) => {
                let _ = names.pop();
                let ghost named = copy@;
                names.push(copy);
                assert(words_of(names@) =~= all.drop_last().push(named));
                DuplicateStep::Done(Ok(wire_join(names.as_slice())))
            },
        },
    }
}

/// What stands at a place that is to be copied.
#[derive(Clone, Copy, Debug, PartialEq, Eq, Structural)]
pub struct CopySource {
    pub is_link: bool,
    pub is_dir: bool,
    pub is_file: bool,
}

/// How one entry is copied.
#[derive(Clone, Copy, Debug, PartialEq, Eq, Structural)]
pub enum CopyRoad {
    /// Make a folder where nothing stands, then copy each child.
    Folder,
    /// Make a file where nothing stands, then copy the bytes.
    File,
    Refused(Refusal),
}

/// How one entry is copied: a link is refused, and so is what is neither a
/// folder nor a file, or has no stat.
pub fn copy_entry(source: Option<CopySource>) -> (r: CopyRoad)
    ensures
        r == match source {
            None => CopyRoad::Refused(Refusal::CopyFailed),
            Some(s) => if s.is_link {
                CopyRoad::Refused(Refusal::CopyMeetsALink)
            } else if s.is_dir {
                CopyRoad::Folder
            } else if s.is_file {
                CopyRoad::File
            } else {
                CopyRoad::Refused(Refusal::CopyFailed)
            },
        },
{
    match source {
        None => CopyRoad::Refused(Refusal::CopyFailed),
        Some(s) => {
            if s.is_link {
                return CopyRoad::Refused(Refusal::CopyMeetsALink);
            }
            if s.is_dir {
                return CopyRoad::Folder;
            }
            if !s.is_file {
                return CopyRoad::Refused(Refusal::CopyFailed);
            }
            CopyRoad::File
        },
    }
}

/// How a copy ended: its outcome, and whether what was made of it has to be
/// removed again.
#[derive(Debug)]
pub struct CopyEnd {
    pub outcome: Result<(), Refusal>,
    pub remove_copy: bool,
}

/// How the copy of a folder ended: `made` says whether the folder could be made,
/// `children` how its children went.
pub fn folder_copied(made: bool, children: Result<(), Refusal>) -> (r: CopyEnd)
    ensures
        r.outcome == if made {
            children
        } else {
            Err(Refusal::CopyFailed)
        },
        r.remove_copy == (made && children is Err),
{
    if !made {
        return CopyEnd { outcome: Err(Refusal::CopyFailed), remove_copy: false };
    }
    let failed = children.is_err();
    CopyEnd { outcome: children, remove_copy: failed }
}

/// How the copy of a file ended: whether the source could be opened, whether the
/// copy's name could be made, and whether the bytes came over.
pub fn file_copied(opened: bool, made: bool, written: bool) -> (r: CopyEnd)
    ensures
        r.outcome == if opened && made && written {
            Ok::<(), Refusal>(())
        } else {
            Err(Refusal::CopyFailed)
        },
        r.remove_copy == (opened && made && !written),
{
    if opened && made {
        if written {
            CopyEnd { outcome: Ok(()), remove_copy: false }
        } else {
            CopyEnd { outcome: Err(Refusal::CopyFailed), remove_copy: true }
        }
    } else {
        CopyEnd { outcome: Err(Refusal::CopyFailed), remove_copy: false }
    }
}

/// A copy is made only at a name that nothing has.
pub proof fn law_copies_never_overwrite(
    platform: Platform,
    root: Seq<char>,
    requested: Seq<char>,
    facts: DuplicateFacts,
)
    requires
        duplicate_step(platform, root, requested, facts) is Copy,
    ensures
        facts.candidate_taken == Some(false),
{
}

/// Nothing is asked for that is known already, and another name is tried only
/// where the last one was taken.
pub proof fn law_no_question_is_asked_twice(
    platform: Platform,
    root: Seq<char>,
    requested: Seq<char>,
    facts: DuplicateFacts,
)
    ensures
        match duplicate_step(platform, root, requested, facts) {
            DuplicateView::Walk => facts.walked is None,
            DuplicateView::StatCandidate { .. } => facts.candidate_taken is None,
            DuplicateView::NextAttempt { .. } => facts.candidate_taken == Some(true),
            DuplicateView::Copy { .. } => facts.copied is None,
            _ => true,
        },
{
}

/// What is known once a step was answered, and nothing else has changed.
pub open spec fn answered_step(
    step: DuplicateView,
    before: DuplicateFacts,
    after: DuplicateFacts,
) -> bool {
    match step {
        DuplicateView::Walk => {
            &&& after.walked is Some
            &&& after.attempt == before.attempt
            &&& after.candidate_taken == before.candidate_taken
            &&& after.copied == before.copied
        },
        DuplicateView::StatCandidate { .. } => {
            &&& after.walked == before.walked
            &&& after.attempt == before.attempt
            &&& after.candidate_taken is Some
            &&& after.copied == before.copied
        },
        DuplicateView::NextAttempt { attempt } => {
            &&& after.walked == before.walked
            &&& after.attempt == attempt
            &&& after.candidate_taken is None
            &&& after.copied == before.copied
        },
        DuplicateView::Copy { .. } => {
            &&& after.walked == before.walked
            &&& after.attempt == before.attempt
            &&& after.candidate_taken == before.candidate_taken
            &&& after.copied is Some
        },
        DuplicateView::Done(_) => false,
    }
}

/// A run of a duplicate: nothing is known at first, and each step is answered.
pub open spec fn duplicate_run(
    platform: Platform,
    root: Seq<char>,
    requested: Seq<char>,
    run: Seq<DuplicateFacts>,
) -> bool {
    &&& run.len() > 0
    &&& run[0].walked is None
    &&& run[0].attempt == 1
    &&& run[0].candidate_taken is None
    &&& run[0].copied is None
    &&& forall|i: int|
        0 <= i < run.len() - 1 ==> (#[trigger] run[i]).attempt < u64::MAX && answered_step(
            duplicate_step(platform, root, requested, run[i]),
            run[i],
            run[i + 1],
        )
}

/// In the run, the name of the attempt was looked at and found taken.
pub open spec fn found_taken(run: Seq<DuplicateFacts>, attempt: int) -> bool {
    exists|i: int|
        0 <= i < run.len() && (#[trigger] run[i]).attempt == attempt && run[i].candidate_taken
            == Some(true)
}

proof fn lemma_smaller_attempts_were_taken(
    platform: Platform,
    root: Seq<char>,
    requested: Seq<char>,
    run: Seq<DuplicateFacts>,
)
    requires
        duplicate_run(platform, root, requested, run),
    ensures
        run.last().attempt >= 1,
        forall|k: int| 1 <= k < run.last().attempt ==> #[trigger] found_taken(run, k),
    decreases run.len(),
{
    if run.len() > 1 {
        let rest = run.drop_last();
        let before = rest.last();
        assert(before == run[run.len() - 2]);
        assert(run[run.len() - 2 + 1] == run.last());
        assert forall|i: int| 0 <= i < rest.len() - 1 implies (#[trigger] rest[i]).attempt
            < u64::MAX && answered_step(
            duplicate_step(platform, root, requested, rest[i]),
            rest[i],
            rest[i + 1],
        ) by {
            assert(rest[i] == run[i]);
            assert(rest[i + 1] == run[i + 1]);
        }
        lemma_smaller_attempts_were_taken(platform, root, requested, rest);
        assert forall|k: int| 1 <= k < run.last().attempt implies #[trigger] found_taken(
            run,
            k,
        ) by {
            if k < before.attempt {
                assert(found_taken(rest, k));
                let i = choose|i: int|
                    0 <= i < rest.len() && (#[trigger] rest[i]).attempt == k
                        && rest[i].candidate_taken == Some(true);
                assert(run[i].attempt == k);
            } else {
                assert(run[run.len() - 2].attempt == k);
            }
        }
    }
}

/// A copy gets the least free number: it goes to the name of an attempt that was
/// found free, and the name of every smaller attempt was found taken.
pub proof fn law_copies_get_the_least_free_number(
    platform: Platform,
    root: Seq<char>,
    requested: Seq<char>,
    run: Seq<DuplicateFacts>,
)
    requires
        duplicate_run(platform, root, requested, run),
        duplicate_step(platform, root, requested, run.last()) is Copy,
    ensures
        run.last().attempt >= 1,
        run.last().candidate_taken == Some(false),
        forall|k: int| 1 <= k < run.last().attempt ==> #[trigger] found_taken(run, k),
        ({
            let names = names_in(requested, pieces(platform, requested));
            duplicate_step(platform, root, requested, run.last())->Copy_destination == path_join(
                platform,
                below(platform, root, names.drop_last()),
                copy_candidate(names.last(), run.last().attempt as nat),
            )
        }),
{
    lemma_smaller_attempts_were_taken(platform, root, requested, run);
}

proof fn lemma_last_index(s: Seq<char>, c: char, at: int)
    requires
        -1 <= at < s.len(),
        at >= 0 ==> s[at] == c,
        forall|i: int| at < i < s.len() ==> #[trigger] s[i] != c,
    ensures
        last_index(s, c) == if at >= 0 {
            Some(at)
        } else {
            None
        },
    decreases s.len(),
{
    if s.len() > 0 && at < s.len() - 1 {
        assert(s[s.len() - 1] != c);
        lemma_last_index(s.drop_last(), c, at);
    }
}

/// The name of a copy: ` copy` stands behind the stem and before the extension,
/// from the second copy on with its number; a name without an extension, or with
/// a dot only at its front, has it at the end.
pub proof fn law_copies_are_named_after_their_source(
    stem: Seq<char>,
    extension: Seq<char>,
    attempt: nat,
)
    requires
        stem.len() > 0,
        forall|i: int| 0 <= i < extension.len() ==> #[trigger] extension[i] != '.',
        attempt >= 1,
    ensures
        ({
            let counted = if attempt == 1 {
                " copy"@
            } else {
                " copy "@ + decimal(attempt)
            };
            &&& extension.len() > 0 ==> copy_candidate(stem + seq!['.'] + extension, attempt) == stem
                + counted + seq!['.'] + extension
            &&& (forall|i: int| 1 <= i < stem.len() ==> #[trigger] stem[i] != '.') ==> copy_candidate(
                stem,
                attempt,
            ) == stem + counted
        }),
{
    reveal_strlit(".");
    reveal_strlit("..");
    let name = stem + seq!['.'] + extension;
    let at = stem.len() as int;
    if extension.len() > 0 {
        assert forall|i: int| at < i < name.len() implies #[trigger] name[i] != '.' by {
            assert(name[i] == extension[i - at - 1]);
        }
        lemma_last_index(name, '.', at);
        assert(name.take(at) =~= stem);
        assert(name.skip(at + 1) =~= extension);
        assert(name != ".."@) by {
            assert(name[at + 1] == extension[0]);
        }
        assert("."@ =~= seq!['.']);
    }
    if forall|i: int| 1 <= i < stem.len() ==> #[trigger] stem[i] != '.' {
        let dot = if stem[0] == '.' {
            0int
        } else {
            -1int
        };
        lemma_last_index(stem, '.', dot);
    }
}

/// A duplicate copies the entry itself to a name beside it and answers with that
/// name's spelling; a taken name leads to the next number.
pub proof fn law_duplicates_are_made_beside_their_source(
    platform: Platform,
    root: Seq<char>,
    names: Seq<Seq<char>>,
    facts: DuplicateFacts,
    stat: EntryStat,
    why: Refusal,
)
    requires
        is_plain_root(platform, root),
        are_plain_names(names),
        is_simple_name(copy_candidate(names.last(), facts.attempt as nat)),
        facts.walked == Some(Walked::Inside(stat)),
        facts.attempt < u64::MAX,
    ensures
        ({
            let step = duplicate_step(platform, root, join(names, "/"@), facts);
            let beside = names.drop_last().push(
                copy_candidate(names.last(), facts.attempt as nat),
            );
            let source = join(seq![root] + names, mark_of(platform));
            let destination = join(seq![root] + beside, mark_of(platform));
            &&& facts.candidate_taken is None ==> step == (DuplicateView::StatCandidate {
                destination,
            })
            &&& facts.candidate_taken == Some(true) ==> (step matches DuplicateView::NextAttempt {
                attempt,
            } && attempt == facts.attempt + 1)
            &&& facts.candidate_taken == Some(false) && facts.copied is None ==> step == (
            DuplicateView::Copy { source, destination })
            &&& facts.candidate_taken == Some(false) && facts.copied == Some(Ok::<(), Refusal>(()))
                ==> step == DuplicateView::Done(Ok(join(beside, "/"@)))
            &&& facts.candidate_taken == Some(false) && facts.copied == Some(
                Err::<(), Refusal>(why),
            ) ==> step == DuplicateView::Done(Err(why))
        }),
{
    law_requests_lead_to_what_they_name(platform, root, names);
    crate::workspace_file_rename::lemma_sibling(
        platform,
        root,
        names,
        copy_candidate(names.last(), facts.attempt as nat),
    );
}

/// A duplicate refuses what is not vouched for.
pub proof fn law_duplicates_are_refused_before_anything_is_copied(
    platform: Platform,
    root: Seq<char>,
    requested: Seq<char>,
    facts: DuplicateFacts,
    walked: Walked,
    why: Refusal,
)
    ensures
        spelled(platform, root, requested) == Err::<Seq<char>, Refusal>(why) ==> duplicate_step(
            platform,
            root,
            requested,
            facts,
        ) == DuplicateView::Done(Err(why)),
        spelled(platform, root, requested) is Ok && facts.walked is None ==> duplicate_step(
            platform,
            root,
            requested,
            facts,
        ) == DuplicateView::Walk,
        spelled(platform, root, requested) is Ok && facts.walked == Some(walked) && vouched(
            platform,
            root,
            requested,
            walked,
        ) == Err::<(Seq<char>, EntryStat), Refusal>(why) ==> duplicate_step(
            platform,
            root,
            requested,
            facts,
        ) == DuplicateView::Done(Err(why)),
{
}

} // verus!
