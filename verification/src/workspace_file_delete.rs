//! Deleting an entry of a workspace folder, decision by decision.
//!
//! What is deleted was vouched for, was opened, and told from its own handle
//! that it lies inside the workspace; only then is it removed.
use crate::platform::Platform;
use crate::text::{chars_of, join};
use crate::tool_paths::{is_below, path_is_below};
use crate::wire::text_view;
use crate::workspace_entries::{
    are_plain_names, is_plain_root, law_requests_lead_to_what_they_name, mark_of, vouched,
    vouched_entry, EntryStat, Refusal, Walked,
};
use vstd::prelude::*;

verus! {

/// The most UTF-16 code units that the location of a handle may take.
pub const MAX_LOCATION_UNITS: u32 = 32_768;

/// What asking a handle for its location gave.
#[derive(Clone, Copy, Debug, PartialEq, Eq, Structural)]
pub enum LocationStep {
    /// The location stands in the first units of the buffer.
    Located { units: u64 },
    /// The buffer is too small: ask again with this many units.
    Retry { units: u64 },
    /// The location cannot be told.
    Unconfirmed,
}

/// What the system's answer means: fewer units than the buffer has are the
/// location, more are the size to ask again with, none is a failure.
pub open spec fn location_step(written: u32, buffer_len: u64) -> LocationStep {
    if written == 0 {
        LocationStep::Unconfirmed
    } else if (written as u64) < buffer_len {
        LocationStep::Located { units: written as u64 }
    } else if written > MAX_LOCATION_UNITS {
        LocationStep::Unconfirmed
    } else if written as u64 > buffer_len {
        LocationStep::Retry { units: written as u64 }
    } else {
        LocationStep::Retry { units: (buffer_len + 1) as u64 }
    }
}

pub fn read_location(written: u32, buffer_len: u64) -> (r: LocationStep)
    ensures
        r == location_step(written, buffer_len),
{
    if written == 0 {
        LocationStep::Unconfirmed
    } else if (written as u64) < buffer_len {
        LocationStep::Located { units: written as u64 }
    } else if written > MAX_LOCATION_UNITS {
        LocationStep::Unconfirmed
    } else if written as u64 > buffer_len {
        LocationStep::Retry { units: written as u64 }
    } else {
        LocationStep::Retry { units: buffer_len + 1 }
    }
}

/// Asking for a location comes to an end: each retry has a larger buffer, and
/// none has more than one unit over the largest location.
pub proof fn law_location_retries_end(written: u32, buffer_len: u64)
    ensures
        location_step(written, buffer_len) matches LocationStep::Retry { units } ==> buffer_len
            < units <= MAX_LOCATION_UNITS + 1,
{
}

/// Whether a handle's own location lies inside the workspace. A missing root or
/// a missing location is no confirmation.
pub open spec fn location_verdict(root: Option<Seq<char>>, resolved: Option<Seq<char>>) -> Result<
    (),
    Refusal,
> {
    match (root, resolved) {
        (Some(root), Some(resolved)) => if is_below(Platform::Windows, resolved, root) {
            Ok(())
        } else {
            Err(Refusal::Outside)
        },
        _ => Err(Refusal::LocationUnconfirmed),
    }
}

/// Whether a handle's own location lies inside the workspace: `root` is the
/// workspace's canonical folder, `resolved` where the handle says it is.
pub fn final_path_inside(root: &Option<String>, resolved: &Option<String>) -> (r: Result<
    (),
    Refusal,
>)
    ensures
        r == location_verdict(text_view(*root), text_view(*resolved)),
{
    match (root, resolved) {
        (Some(root), Some(resolved)) => {
            let base = chars_of(root.as_str());
            let path = chars_of(resolved.as_str());
            if path_is_below(Platform::Windows, path.as_slice(), base.as_slice()) {
                Ok(())
            } else {
                Err(Refusal::Outside)
            }
        },
        _ => Err(Refusal::LocationUnconfirmed),
    }
}

/// What is known so far about a delete.
#[derive(Debug)]
pub struct EntryDeleteFacts {
    /// What the walk over the disk found.
    pub walked: Option<Walked>,
    /// Whether the entry could be opened.
    pub opened: Option<bool>,
    /// The workspace's canonical folder, once asked for.
    pub root: Option<Option<String>>,
    /// Where the handle says it is, once asked.
    pub resolved: Option<Option<String>>,
    /// Whether the removal succeeded.
    pub removed: Option<bool>,
}

/// What a delete asks for next.
#[derive(Debug)]
pub enum EntryDeleteStep {
    Walk,
    /// Open the entry: a file for its removal, a folder only to be located.
    Open { target: String, folder: bool },
    /// Tell the workspace's canonical folder and where the handle is.
    Locate,
    /// Remove it: a file by its handle, a folder with everything in it.
    Remove { target: String, folder: bool },
    /// Nothing: this is the answer.
    Done(Result<(), Refusal>),
}

/// `EntryDeleteStep` over the characters of its texts.
pub ghost enum EntryDeleteView {
    Walk,
    Open { target: Seq<char>, folder: bool },
    Locate,
    Remove { target: Seq<char>, folder: bool },
    Done(Result<(), Refusal>),
}

impl View for EntryDeleteStep {
    type V = EntryDeleteView;

    open spec fn view(&self) -> EntryDeleteView {
        match self {
            EntryDeleteStep::Walk => EntryDeleteView::Walk,
            EntryDeleteStep::Open { target, folder } => EntryDeleteView::Open {
                target: target@,
                folder: *folder,
            },
            EntryDeleteStep::Locate => EntryDeleteView::Locate,
            EntryDeleteStep::Remove { target, folder } => EntryDeleteView::Remove {
                target: target@,
                folder: *folder,
            },
            EntryDeleteStep::Done(r) => EntryDeleteView::Done(*r),
        }
    }
}

/// The removal itself.
pub open spec fn remove_step(
    target: Seq<char>,
    folder: bool,
    facts: EntryDeleteFacts,
) -> EntryDeleteView {
    match facts.removed {
        None => EntryDeleteView::Remove { target, folder },
        Some(false) => EntryDeleteView::Done(Err(Refusal::DeleteFailed)),
        Some(true) => EntryDeleteView::Done(Ok(())),
    }
}

/// A vouched entry goes. On Windows it is opened, located, and only then
/// removed; elsewhere the walk's verdict is the only guard.
pub open spec fn act_step(
    platform: Platform,
    target: Seq<char>,
    folder: bool,
    facts: EntryDeleteFacts,
) -> EntryDeleteView {
    match platform {
        Platform::Windows => match facts.opened {
            None => EntryDeleteView::Open { target, folder },
            Some(false) => EntryDeleteView::Done(Err(Refusal::DeleteFailed)),
            Some(true) => match (facts.root, facts.resolved) {
                (Some(root), Some(resolved)) => match location_verdict(
                    text_view(root),
                    text_view(resolved),
                ) {
                    Err(refusal) => EntryDeleteView::Done(Err(refusal)),
                    Ok(()) => remove_step(target, folder, facts),
                },
                _ => EntryDeleteView::Locate,
            },
        },
        Platform::Unix => remove_step(target, folder, facts),
    }
}

/// What a delete does next, from what is known.
pub open spec fn entry_delete_step(
    platform: Platform,
    root: Seq<char>,
    requested: Seq<char>,
    facts: EntryDeleteFacts,
) -> EntryDeleteView {
    match (crate::workspace_entries::spelled(platform, root, requested), facts.walked) {
        (Err(refusal), _) => EntryDeleteView::Done(Err(refusal)),
        (Ok(_), None) => EntryDeleteView::Walk,
        (Ok(_), Some(walked)) => match vouched(platform, root, requested, walked) {
            Err(refusal) => EntryDeleteView::Done(Err(refusal)),
            Ok((target, stat)) => act_step(platform, target, stat.is_dir, facts),
        },
    }
}

fn decide_removal(target: String, folder: bool, facts: &EntryDeleteFacts) -> (r: EntryDeleteStep)
    ensures
        r@ == remove_step(target@, folder, *facts),
{
    match facts.removed {
        None => EntryDeleteStep::Remove { target, folder },
        Some(false) => EntryDeleteStep::Done(Err(Refusal::DeleteFailed)),
        Some(true) => EntryDeleteStep::Done(Ok(())),
    }
}

fn delete_vouched(
    platform: Platform,
    target: String,
    folder: bool,
    facts: &EntryDeleteFacts,
) -> (r: EntryDeleteStep)
    ensures
        r@ == act_step(platform, target@, folder, *facts),
{
    match platform {
        Platform::Windows => match facts.opened {
            None => EntryDeleteStep::Open { target, folder },
            Some(false) => EntryDeleteStep::Done(Err(Refusal::DeleteFailed)),
            Some(true) => match (&facts.root, &facts.resolved) {
                (Some(root), Some(resolved)) => match final_path_inside(root, resolved) {
                    Err(refusal) => EntryDeleteStep::Done(Err(refusal)),
                    Ok(()) => decide_removal(target, folder, facts),
                },
                _ => EntryDeleteStep::Locate,
            },
        },
        Platform::Unix => decide_removal(target, folder, facts),
    }
}

/// What deleting an entry does next, from what is known. The folder branch reads
/// the stat that vouched for the entry.
pub fn deleted(
    platform: Platform,
    root: &str,
    requested: &str,
    facts: &EntryDeleteFacts,
) -> (r: EntryDeleteStep)
    ensures
        r@ == entry_delete_step(platform, root@, requested@, *facts),
{
    if let Err(refusal) = crate::workspace_entries::entry_at(platform, root, requested) {
        return EntryDeleteStep::Done(Err(refusal));
    }
    match facts.walked {
        None => EntryDeleteStep::Walk,
        Some(walked) => match vouched_entry(platform, root, requested, walked) {
            Err(refusal) => EntryDeleteStep::Done(Err(refusal)),
            Ok((target, stat)) => delete_vouched(platform, target, stat.is_dir, facts),
        },
    }
}

/// Something is removed only where it was vouched for and, on Windows, was opened
/// and told that it lies inside the workspace.
pub proof fn law_deletions_are_anchored(
    platform: Platform,
    root: Seq<char>,
    requested: Seq<char>,
    facts: EntryDeleteFacts,
)
    requires
        entry_delete_step(platform, root, requested, facts) is Remove,
    ensures
        facts.walked is Some && vouched(platform, root, requested, facts.walked->0) is Ok,
        platform == Platform::Windows ==> facts.opened == Some(true) && facts.root is Some
            && facts.root->0 is Some && facts.resolved is Some && facts.resolved->0 is Some
            && is_below(Platform::Windows, facts.resolved->0->0@, facts.root->0->0@),
{
}

/// The workspace's own folder and the repository's metadata are never opened or
/// removed, whatever is known.
pub proof fn law_root_and_metadata_are_never_deleted(
    platform: Platform,
    root: Seq<char>,
    requested: Seq<char>,
    facts: EntryDeleteFacts,
)
    requires
        crate::workspace_entries::names_the_root(platform, requested) || crate::workspace_entries::names_git(
            requested,
        ),
    ensures
        entry_delete_step(platform, root, requested, facts) is Done,
        entry_delete_step(platform, root, requested, facts)->Done_0 is Err,
{
}

/// Nothing is asked for that is known already, so a caller that answers every
/// question gets to an end.
pub proof fn law_no_question_is_asked_twice(
    platform: Platform,
    root: Seq<char>,
    requested: Seq<char>,
    facts: EntryDeleteFacts,
)
    ensures
        match entry_delete_step(platform, root, requested, facts) {
            EntryDeleteView::Walk => facts.walked is None,
            EntryDeleteView::Open { .. } => facts.opened is None,
            EntryDeleteView::Locate => facts.root is None || facts.resolved is None,
            EntryDeleteView::Remove { .. } => facts.removed is None,
            _ => true,
        },
{
}

/// A delete refuses what is not vouched for; a vouched entry is opened, located
/// and removed under its own name, and off Windows it is removed at once. What
/// fails on the way ends it, with its own reason.
pub proof fn law_vouched_entries_are_deleted_step_by_step(
    platform: Platform,
    root: Seq<char>,
    names: Seq<Seq<char>>,
    facts: EntryDeleteFacts,
    stat: EntryStat,
    folder: String,
    place: String,
)
    requires
        is_plain_root(platform, root),
        are_plain_names(names),
    ensures
        ({
            let step = entry_delete_step(platform, root, join(names, "/"@), facts);
            let target = join(seq![root] + names, mark_of(platform));
            let refused = |why: Refusal| EntryDeleteView::Done(Err(why));
            let anchored = platform == Platform::Unix || (facts.opened == Some(true) && facts.root
                == Some(Some(folder)) && facts.resolved == Some(Some(place)) && is_below(
                Platform::Windows,
                place@,
                folder@,
            ));
            &&& facts.walked is None ==> step == EntryDeleteView::Walk
            &&& facts.walked == Some(Walked::LinkFinal) ==> step == refused(Refusal::LinkFinal)
            &&& facts.walked == Some(Walked::LinkCrossed) ==> step == refused(Refusal::LinkCrossed)
            &&& facts.walked == Some(Walked::Missing) ==> step == refused(Refusal::DoesNotExist)
            &&& facts.walked == Some(Walked::Inside(stat)) ==> {
                &&& platform == Platform::Windows ==> {
                    &&& facts.opened is None ==> step == (EntryDeleteView::Open {
                        target,
                        folder: stat.is_dir,
                    })
                    &&& facts.opened == Some(false) ==> step == refused(Refusal::DeleteFailed)
                    &&& facts.opened == Some(true) ==> {
                        &&& facts.root is None || facts.resolved is None ==> step
                            == EntryDeleteView::Locate
                        &&& facts.root is Some && facts.resolved is Some && (facts.root == Some(
                            None::<String>,
                        ) || facts.resolved == Some(None::<String>)) ==> step == refused(
                            Refusal::LocationUnconfirmed,
                        )
                        &&& facts.root == Some(Some(folder)) && facts.resolved == Some(Some(place))
                            && !is_below(Platform::Windows, place@, folder@) ==> step == refused(
                            Refusal::Outside,
                        )
                    }
                }
                &&& anchored ==> {
                    &&& facts.removed is None ==> step == (EntryDeleteView::Remove {
                        target,
                        folder: stat.is_dir,
                    })
                    &&& facts.removed == Some(true) ==> step == EntryDeleteView::Done(Ok(()))
                    &&& facts.removed == Some(false) ==> step == refused(Refusal::DeleteFailed)
                }
            }
        }),
{
    law_requests_lead_to_what_they_name(platform, root, names);
}

/// The system's answer is a location exactly where it is not empty and fits;
/// where it does not fit, it is asked for again with more room, up to a limit.
pub proof fn law_locations_fit_their_buffer(written: u32, buffer_len: u64)
    ensures
        location_step(written, buffer_len) == (LocationStep::Located { units: written as u64 })
            <==> 0 < written && (written as u64) < buffer_len,
        written == 0 ==> location_step(written, buffer_len) == LocationStep::Unconfirmed,
        written > 32768 && written as u64 >= buffer_len ==> location_step(written, buffer_len)
            == LocationStep::Unconfirmed,
        0 < written <= 32768 && written as u64 >= buffer_len ==> (location_step(
            written,
            buffer_len,
        ) matches LocationStep::Retry { units } && units > buffer_len && units >= written),
{
}

} // verus!
