//! The `PATH` that provider discovery and spawning agree on.
//!
//! A daemon inherits its launcher's `PATH`, which can be older than the
//! registry's. Discovery searches the inherited entries first and then the
//! registry's entries that they do not name already, and a program that was
//! found through a registry entry is started with the same merged `PATH`.
use crate::paths::{parent, parent_of};
use crate::platform::Platform;
use crate::std_text::lowercase;
use crate::text::{
    belongs, chars_of, join, joined, lemma_run_start, lemma_run_start_is, run_start, same_text,
    text_of, texts_of, trim_end, trimmed_end, words_of, CharClass,
};
use crate::wire::{text3, text_view};
use crate::windows_registry_path::{
    outcome_line, path_list, path_list_from, split_paths, PathReadView, RegistryPathRead,
};
use vstd::prelude::*;

verus! {

/// An entry of a `PATH` and the key under which it is compared: two spellings
/// of one folder have one key.
#[derive(Debug)]
pub struct PathEntry {
    pub text: String,
    pub key: String,
}

/// The text and the key of an entry.
pub open spec fn entry_view(e: PathEntry) -> (Seq<char>, Seq<char>) {
    (e.text@, e.key@)
}

pub open spec fn path_entries(v: Seq<PathEntry>) -> Seq<(Seq<char>, Seq<char>)> {
    v.map_values(|e: PathEntry| entry_view(e))
}

/// The key of a folder: its spelling in lower case, without separators at its
/// end.
pub open spec fn directory_key(path: Seq<char>) -> Seq<char> {
    lowercase(trim_end(path, CharClass::Separator))
}

/// Entries with their keys.
pub open spec fn keyed(list: Seq<Seq<char>>) -> Seq<(Seq<char>, Seq<char>)> {
    list.map_values(|t: Seq<char>| (t, directory_key(t)))
}

/// An entry with this key is there.
pub open spec fn names_key(entries: Seq<(Seq<char>, Seq<char>)>, key: Seq<char>) -> bool {
    exists|i: int| 0 <= i < entries.len() && (#[trigger] entries[i]).1 == key
}

/// The entries with more behind them: those of `more` that are not empty and
/// whose key is not there yet.
pub open spec fn merged(
    entries: Seq<(Seq<char>, Seq<char>)>,
    more: Seq<(Seq<char>, Seq<char>)>,
) -> Seq<(Seq<char>, Seq<char>)>
    decreases more.len(),
{
    if more.len() == 0 {
        entries
    } else {
        let before = merged(entries, more.drop_last());
        if more.last().0.len() == 0 || names_key(before, more.last().1) {
            before
        } else {
            before.push(more.last())
        }
    }
}

/// The texts of entries.
pub open spec fn entry_texts(entries: Seq<(Seq<char>, Seq<char>)>) -> Seq<Seq<char>> {
    entries.map_values(|e: (Seq<char>, Seq<char>)| e.0)
}

fn has_key(entries: &Vec<PathEntry>, key: &str) -> (r: bool)
    ensures
        r == names_key(path_entries(entries@), key@),
{
    let ghost all = path_entries(entries@);
    let mut i: usize = 0;
    while i < entries.len()
        invariant
            i <= entries@.len(),
            all == path_entries(entries@),
            forall|k: int| 0 <= k < i ==> (#[trigger] all[k]).1 != key@,
        decreases entries@.len() - i,
    {
        assert(all[i as int] == entry_view(entries@[i as int]));
        if same_text(entries[i].key.as_str(), key) {
            return true;
        }
        i = i + 1;
    }
    false
}

/// Puts the entries of `more` behind the entries, leaving out what is empty and
/// what is named already.
pub fn merge_entries(entries: &mut Vec<PathEntry>, more: &[PathEntry])
    ensures
        path_entries(final(entries)@) == merged(path_entries(old(entries)@), path_entries(more@)),
{
    let ghost start = path_entries(entries@);
    let ghost all = path_entries(more@);
    let mut i: usize = 0;
    assert(all.take(0) =~= Seq::empty());
    while i < more.len()
        invariant
            i <= more@.len(),
            all == path_entries(more@),
            path_entries(entries@) == merged(start, all.take(i as int)),
        decreases more@.len() - i,
    {
        assert(all.take(i + 1).drop_last() =~= all.take(i as int));
        assert(all[i as int] == entry_view(more@[i as int]));
        if !more[i].text.as_str().is_empty() && !has_key(entries, more[i].key.as_str()) {
            let ghost before = entries@;
            entries.push(PathEntry { text: more[i].text.clone(), key: more[i].key.clone() });
            assert(path_entries(entries@) =~= path_entries(before).push(all[i as int]));
        }
        i = i + 1;
    }
    assert(all.take(i as int) =~= all);
}

fn key_of(path: &[char]) -> (r: String)
    ensures
        r@ == directory_key(path@),
{
    let trimmed = text_of(trimmed_end(path, CharClass::Separator));
    trimmed.as_str().to_lowercase()
}

/// The entries of a `PATH` value with their keys.
fn entries_of_value(value: &str) -> (r: Vec<PathEntry>)
    ensures
        path_entries(r@) == keyed(path_list(value@)),
{
    let chars = chars_of(value);
    let list = split_paths(chars.as_slice());
    let ghost wanted = keyed(path_list(value@));
    let mut r: Vec<PathEntry> = Vec::new();
    let mut i: usize = 0;
    while i < list.len()
        invariant
            i <= list@.len(),
            words_of(list@) == path_list(value@),
            wanted == keyed(path_list(value@)),
            path_entries(r@) == wanted.take(i as int),
        decreases list@.len() - i,
    {
        let ghost before = r@;
        assert(words_of(list@)[i as int] == list@[i as int]@);
        r.push(PathEntry { text: text_of(list[i].as_slice()), key: key_of(list[i].as_slice()) });
        i = i + 1;
        assert(path_entries(r@) =~= path_entries(before).push(wanted[i - 1]));
        assert(path_entries(r@) =~= wanted.take(i as int));
    }
    assert(words_of(list@).len() == list@.len());
    assert(wanted.take(i as int) =~= wanted);
    r
}

/// One captured view of the three `PATH` values.
#[derive(Debug)]
pub struct PathSnapshot {
    pub process: Option<String>,
    pub machine: RegistryPathRead,
    pub user: RegistryPathRead,
}

/// The entries of the inherited `PATH`.
pub open spec fn process_entries(process: Option<Seq<char>>) -> Seq<(Seq<char>, Seq<char>)> {
    match process {
        Some(value) => keyed(path_list(value)),
        None => Seq::empty(),
    }
}

/// The entries of a registry value; one that was not read has none.
pub open spec fn registry_entries(read: PathReadView) -> Seq<(Seq<char>, Seq<char>)> {
    match read {
        PathReadView::Read(value) => keyed(path_list(value)),
        PathReadView::Failed(_) => Seq::empty(),
    }
}

/// The inherited entries, then the machine's and the user's that are not there
/// yet.
pub open spec fn searched(
    process: Option<Seq<char>>,
    machine: PathReadView,
    user: PathReadView,
) -> Seq<(Seq<char>, Seq<char>)> {
    merged(merged(process_entries(process), registry_entries(machine)), registry_entries(user))
}

/// The `PATH` for a program that is started from a folder: nothing where the
/// inherited entries name the folder or no entry does, else the inherited `PATH`
/// with the registry's entries behind it.
pub open spec fn spawn_path(
    process: Option<Seq<char>>,
    machine: PathReadView,
    user: PathReadView,
    key: Seq<char>,
) -> Option<Seq<char>> {
    let own = process_entries(process);
    let all = searched(process, machine, user);
    if names_key(own, key) || !names_key(all, key) {
        None
    } else {
        let added = join(entry_texts(all.skip(own.len() as int)), ";"@);
        match process {
            Some(value) => Some(value + ";"@ + added),
            None => Some(added),
        }
    }
}

/// A pair of texts that may be missing.
pub open spec fn pair_view(p: Option<(String, String)>) -> Option<(Seq<char>, Seq<char>)> {
    match p {
        Some(p) => Some((p.0@, p.1@)),
        None => None,
    }
}

impl PathSnapshot {
    /// What was read of the inherited value and of the registry's two.
    pub fn capture(process: Option<String>, machine: RegistryPathRead, user: RegistryPathRead) -> (r:
        PathSnapshot)
        ensures
            r.process == process,
            r.machine == machine,
            r.user == user,
    {
        PathSnapshot { process, machine, user }
    }

    fn own_entries(&self) -> (r: Vec<PathEntry>)
        ensures
            path_entries(r@) == process_entries(text_view(self.process)),
    {
        match &self.process {
            Some(value) => entries_of_value(value.as_str()),
            None => {
                let r: Vec<PathEntry> = Vec::new();
                assert(path_entries(r@) =~= Seq::empty());
                r
            },
        }
    }

    fn merged_entries(&self) -> (r: Vec<PathEntry>)
        ensures
            path_entries(r@) == searched(text_view(self.process), self.machine@, self.user@),
    {
        let mut r = self.own_entries();
        if let Some(value) = self.machine.value() {
            let more = entries_of_value(value);
            merge_entries(&mut r, more.as_slice());
        }
        if let Some(value) = self.user.value() {
            let more = entries_of_value(value);
            merge_entries(&mut r, more.as_slice());
        }
        r
    }

    /// The folders that discovery searches, in their order.
    pub fn directories(&self) -> (r: Vec<String>)
        ensures
            texts_of(r@) == entry_texts(searched(text_view(self.process), self.machine@, self.user@)),
    {
        let all = self.merged_entries();
        let ghost wanted = entry_texts(path_entries(all@));
        let mut r: Vec<String> = Vec::new();
        let mut i: usize = 0;
        while i < all.len()
            invariant
                i <= all@.len(),
                wanted == entry_texts(path_entries(all@)),
                texts_of(r@) == wanted.take(i as int),
            decreases all@.len() - i,
        {
            let ghost before = r@;
            r.push(all[i].text.clone());
            i = i + 1;
            assert(texts_of(r@) =~= texts_of(before).push(wanted[i - 1]));
            assert(texts_of(r@) =~= wanted.take(i as int));
        }
        assert(wanted.take(i as int) =~= wanted);
        r
    }

    /// The `PATH` that a program started from a folder must carry, if it must
    /// carry one at all.
    pub fn spawn_path_for(&self, launch_directory: &str) -> (r: Option<(String, String)>)
        ensures
            pair_view(r) == match spawn_path(
                text_view(self.process),
                self.machine@,
                self.user@,
                directory_key(launch_directory@),
            ) {
                Some(value) => Some(("PATH"@, value)),
                None => None,
            },
    {
        let chars = chars_of(launch_directory);
        let key = key_of(chars.as_slice());
        let own = self.own_entries();
        if has_key(&own, key.as_str()) {
            return None;
        }
        let all = self.merged_entries();
        if !has_key(&all, key.as_str()) {
            return None;
        }
        let ghost entries = path_entries(all@);
        let ghost wanted = entry_texts(entries.skip(own@.len() as int));
        proof {
            lemma_merged_keeps(process_entries(text_view(self.process)), registry_entries(self.machine@));
            lemma_merged_keeps(
                merged(process_entries(text_view(self.process)), registry_entries(self.machine@)),
                registry_entries(self.user@),
            );
            assert(path_entries(own@).len() == own@.len());
            assert(entries.len() == all@.len());
        }
        let mut added: Vec<Vec<char>> = Vec::new();
        let mut i: usize = own.len();
        assert(words_of(added@) =~= wanted.take(0));
        while i < all.len()
            invariant
                own@.len() <= i <= all@.len(),
                entries == path_entries(all@),
                wanted == entry_texts(entries.skip(own@.len() as int)),
                words_of(added@) == wanted.take(i - own@.len()),
            decreases all@.len() - i,
        {
            let ghost before = added@;
            assert(entries[i as int] == entry_view(all@[i as int]));
            added.push(chars_of(all[i].text.as_str()));
            i = i + 1;
            assert(words_of(added@) =~= words_of(before).push(wanted[i - 1 - own@.len()]));
            assert(words_of(added@) =~= wanted.take(i - own@.len()));
        }
        assert(wanted.take(i - own@.len()) =~= wanted);
        let extensions = joined(added.as_slice(), ";");
        let extensions = text_of(extensions.as_slice());
        let value = match &self.process {
            Some(process) => text3(process.as_str(), ";", extensions.as_str()),
            None => extensions,
        };
        Some(("PATH".to_owned(), value))
    }

    /// The diagnostics' lines for the two registry values, the machine's first.
    pub fn outcome_lines(&self) -> (r: Vec<String>)
        ensures
            texts_of(r@) == seq![
                outcome_line(self.machine@, "machine PATH"@),
                outcome_line(self.user@, "user PATH"@),
            ],
    {
        let mut r: Vec<String> = Vec::new();
        r.push(self.machine.describe("machine PATH"));
        r.push(self.user.describe("user PATH"));
        assert(texts_of(r@) =~= seq![
            outcome_line(self.machine@, "machine PATH"@),
            outcome_line(self.user@, "user PATH"@),
        ]);
        r
    }
}

/// A provider that discovery found.
#[derive(Debug)]
pub struct InstalledAgent {
    pub executable: String,
    /// The folder that the program was resolved from.
    pub launch_directory: Option<String>,
    /// The `PATH` that a spawn must carry.
    pub spawn_path_env: Option<(String, String)>,
}

/// The folder that a program is started from: the one it was resolved from, else
/// the one it stands in.
pub open spec fn launch_folder(agent: InstalledAgent) -> Option<Seq<char>> {
    match agent.launch_directory {
        Some(d) if d@.len() > 0 => Some(d@),
        _ => match parent_of(Platform::Windows, agent.executable@) {
            Some(p) if p.len() > 0 => Some(p),
            _ => None,
        },
    }
}

/// The `PATH` of a program after stamping.
pub open spec fn stamped(agent: InstalledAgent, snapshot: PathSnapshot) -> Option<
    (Seq<char>, Seq<char>),
> {
    match launch_folder(agent) {
        None => pair_view(agent.spawn_path_env),
        Some(folder) => match spawn_path(
            text_view(snapshot.process),
            snapshot.machine@,
            snapshot.user@,
            directory_key(folder),
        ) {
            Some(value) => Some(("PATH"@, value)),
            None => pair_view(agent.spawn_path_env),
        },
    }
}

fn find_launch_folder(agent: &InstalledAgent) -> (r: Option<String>)
    ensures
        text_view(r) == launch_folder(*agent),
{
    if let Some(d) = &agent.launch_directory {
        if !d.as_str().is_empty() {
            return Some(d.clone());
        }
    }
    let chars = chars_of(agent.executable.as_str());
    match parent(Platform::Windows, chars.as_slice()) {
        Some(p) => if p.len() > 0 {
            Some(text_of(p))
        } else {
            None
        },
        None => None,
    }
}

/// Stamps every program whose folder only the registry names with the `PATH`
/// that its spawn must carry; the others stay as they are.
pub fn attach_spawn_path_env(agents: &mut Vec<InstalledAgent>, snapshot: &PathSnapshot)
    ensures
        final(agents)@.len() == old(agents)@.len(),
        forall|i: int|
            #![trigger final(agents)@[i]]
            0 <= i < old(agents)@.len() ==> {
                &&& final(agents)@[i].executable == old(agents)@[i].executable
                &&& final(agents)@[i].launch_directory == old(agents)@[i].launch_directory
                &&& pair_view(final(agents)@[i].spawn_path_env) == stamped(
                    old(agents)@[i],
                    *snapshot,
                )
            },
{
    let mut i: usize = 0;
    while i < agents.len()
        invariant
            i <= agents@.len(),
            agents@.len() == old(agents)@.len(),
            forall|k: int|
                #![trigger agents@[k]]
                0 <= k < i ==> {
                    &&& agents@[k].executable == old(agents)@[k].executable
                    &&& agents@[k].launch_directory == old(agents)@[k].launch_directory
                    &&& pair_view(agents@[k].spawn_path_env) == stamped(old(agents)@[k], *snapshot)
                },
            forall|k: int| i <= k < agents@.len() ==> #[trigger] agents@[k] == old(agents)@[k],
        decreases agents@.len() - i,
    {
        assert(agents@[i as int] == old(agents)@[i as int]);
        if let Some(folder) = find_launch_folder(&agents[i]) {
            if let Some(pair) = snapshot.spawn_path_for(folder.as_str()) {
                agents[i].spawn_path_env = Some(pair);
            }
        }
        i = i + 1;
    }
}

/// What was there before a merge stays in front.
proof fn lemma_merged_keeps(
    entries: Seq<(Seq<char>, Seq<char>)>,
    more: Seq<(Seq<char>, Seq<char>)>,
)
    ensures
        merged(entries, more).len() >= entries.len(),
        merged(entries, more).take(entries.len() as int) == entries,
    decreases more.len(),
{
    if more.len() > 0 {
        lemma_merged_keeps(entries, more.drop_last());
        let before = merged(entries, more.drop_last());
        assert(merged(entries, more).take(entries.len() as int) =~= before.take(
            entries.len() as int,
        ));
    } else {
        assert(entries.take(entries.len() as int) =~= entries);
    }
}

/// What a merge adds is not empty and names a folder that nothing before it
/// names.
proof fn lemma_merged_adds(
    entries: Seq<(Seq<char>, Seq<char>)>,
    more: Seq<(Seq<char>, Seq<char>)>,
)
    ensures
        forall|i: int, j: int|
            0 <= i < j < merged(entries, more).len() && entries.len() <= j ==> (#[trigger] merged(
                entries,
                more,
            )[i]).1 != (#[trigger] merged(entries, more)[j]).1,
        forall|j: int|
            entries.len() <= j < merged(entries, more).len() ==> (#[trigger] merged(
                entries,
                more,
            )[j]).0.len() > 0,
    decreases more.len(),
{
    if more.len() > 0 {
        lemma_merged_adds(entries, more.drop_last());
        let before = merged(entries, more.drop_last());
        let after = merged(entries, more);
        lemma_merged_keeps(entries, more.drop_last());
        assert forall|i: int, j: int|
            0 <= i < j < after.len() && entries.len() <= j implies (#[trigger] after[i]).1 != (
        #[trigger] after[j]).1 by {
            if j < before.len() {
                assert(before[i].1 != before[j].1);
            } else {
                assert(before[i].1 == after[i].1);
            }
        }
        assert forall|j: int| entries.len() <= j < after.len() implies (
        #[trigger] after[j]).0.len() > 0 by {
            if j < before.len() {
                assert(before[j].0.len() > 0);
            }
        }
    }
}

/// Discovery searches the inherited entries first, as they are, and no registry
/// entry is empty or names a folder that is searched before it.
pub proof fn law_inherited_entries_come_first(
    process: Option<Seq<char>>,
    machine: PathReadView,
    user: PathReadView,
)
    ensures
        ({
            let own = process_entries(process);
            let all = searched(process, machine, user);
            &&& own.len() <= all.len()
            &&& all.take(own.len() as int) == own
            &&& forall|i: int, j: int|
                0 <= i < j < all.len() && own.len() <= j ==> (#[trigger] all[i]).1 != (
                #[trigger] all[j]).1
            &&& forall|j: int| own.len() <= j < all.len() ==> (#[trigger] all[j]).0.len() > 0
        }),
{
    let own = process_entries(process);
    let first = merged(own, registry_entries(machine));
    let all = searched(process, machine, user);
    lemma_merged_keeps(own, registry_entries(machine));
    lemma_merged_keeps(first, registry_entries(user));
    lemma_merged_adds(own, registry_entries(machine));
    lemma_merged_adds(first, registry_entries(user));
    assert(all.take(own.len() as int) =~= first.take(own.len() as int)) by {
        assert forall|i: int| 0 <= i < own.len() implies all[i] == first[i] by {
            assert(all.take(first.len() as int)[i] == all[i]);
        }
    }
    assert forall|i: int, j: int| 0 <= i < j < all.len() && own.len() <= j implies (
    #[trigger] all[i]).1 != (#[trigger] all[j]).1 by {
        if j < first.len() {
            assert(all.take(first.len() as int)[i] == all[i]);
            assert(all.take(first.len() as int)[j] == all[j]);
            assert(first[i].1 != first[j].1);
        }
    }
    assert forall|j: int| own.len() <= j < all.len() implies (#[trigger] all[j]).0.len() > 0 by {
        if j < first.len() {
            assert(all.take(first.len() as int)[j] == all[j]);
            assert(first[j].0.len() > 0);
        }
    }
}

/// A program whose folder the inherited `PATH` names carries no override.
pub proof fn law_inherited_folders_need_no_override(
    process: Option<Seq<char>>,
    machine: PathReadView,
    user: PathReadView,
    key: Seq<char>,
)
    requires
        names_key(process_entries(process), key),
    ensures
        spawn_path(process, machine, user, key) is None,
{
}

/// Every quote that a `PATH` opens it closes.
pub open spec fn quotes_closed(s: Seq<char>, quoted: bool) -> bool
    decreases s.len(),
{
    if s.len() == 0 {
        !quoted
    } else if s[0] == '"' {
        quotes_closed(s.skip(1), !quoted)
    } else {
        quotes_closed(s.skip(1), quoted)
    }
}

proof fn lemma_list_concat(a: Seq<char>, b: Seq<char>, quoted: bool, current: Seq<char>)
    requires
        quotes_closed(a, quoted),
    ensures
        path_list_from(a + ";"@ + b, quoted, current) == path_list_from(a, quoted, current)
            + path_list(b),
    decreases a.len(),
{
    reveal_strlit(";");
    let whole = a + ";"@ + b;
    if a.len() == 0 {
        assert(whole[0] == ';');
        assert(whole.skip(1) =~= b);
        assert(path_list_from(whole, quoted, current) =~= path_list_from(a, quoted, current)
            + path_list(b));
    } else {
        assert(whole[0] == a[0]);
        assert(whole.skip(1) =~= a.skip(1) + ";"@ + b);
        if a[0] == '"' {
            lemma_list_concat(a.skip(1), b, !quoted, current);
        } else if a[0] == ';' && !quoted {
            lemma_list_concat(a.skip(1), b, false, Seq::empty());
            assert(path_list_from(whole, quoted, current) =~= path_list_from(a, quoted, current)
                + path_list(b));
        } else {
            lemma_list_concat(a.skip(1), b, quoted, current.push(a[0]));
        }
    }
}

proof fn lemma_list_plain(t: Seq<char>, current: Seq<char>)
    requires
        forall|i: int| 0 <= i < t.len() ==> #[trigger] t[i] != ';' && t[i] != '"',
    ensures
        path_list_from(t, false, current) == seq![current + t],
        quotes_closed(t, false),
    decreases t.len(),
{
    if t.len() == 0 {
        assert(current + t =~= current);
    } else {
        assert(t[0] != ';' && t[0] != '"');
        assert forall|i: int| 0 <= i < t.skip(1).len() implies #[trigger] t.skip(1)[i] != ';'
            && t.skip(1)[i] != '"' by {
            assert(t.skip(1)[i] == t[i + 1]);
        }
        lemma_list_plain(t.skip(1), current.push(t[0]));
        assert(current.push(t[0]) + t.skip(1) =~= current + t);
    }
}

proof fn lemma_list_join(texts: Seq<Seq<char>>)
    requires
        texts.len() > 0,
        forall|k: int, i: int|
            0 <= k < texts.len() && 0 <= i < texts[k].len() ==> #[trigger] texts[k][i] != ';'
                && texts[k][i] != '"',
    ensures
        path_list(join(texts, ";"@)) == texts,
        quotes_closed(join(texts, ";"@), false),
    decreases texts.len(),
{
    if texts.len() == 1 {
        lemma_list_plain(texts[0], Seq::empty());
        assert(Seq::<char>::empty() + texts[0] =~= texts[0]);
        assert(path_list(join(texts, ";"@)) =~= texts);
    } else {
        let before = texts.drop_last();
        assert forall|k: int, i: int| 0 <= k < before.len() && 0 <= i < before[k].len() implies
            #[trigger] before[k][i] != ';' && before[k][i] != '"' by {
            assert(texts[k][i] != ';');
        }
        lemma_list_join(before);
        let a = join(before, ";"@);
        let last = texts.last();
        assert forall|i: int| 0 <= i < last.len() implies #[trigger] last[i] != ';' && last[i]
            != '"' by {
            assert(texts[texts.len() - 1][i] != ';');
        }
        lemma_list_plain(last, Seq::empty());
        assert(Seq::<char>::empty() + last =~= last);
        lemma_list_concat(a, last, false, Seq::empty());
        assert(before + seq![last] =~= texts);
        lemma_quotes_concat(a, last, false);
    }
}

proof fn lemma_quotes_concat(a: Seq<char>, b: Seq<char>, quoted: bool)
    requires
        quotes_closed(a, quoted),
        quotes_closed(b, false),
    ensures
        quotes_closed(a + ";"@ + b, quoted),
    decreases a.len(),
{
    reveal_strlit(";");
    let whole = a + ";"@ + b;
    if a.len() == 0 {
        assert(whole[0] == ';');
        assert(whole.skip(1) =~= b);
    } else {
        assert(whole[0] == a[0]);
        assert(whole.skip(1) =~= a.skip(1) + ";"@ + b);
        if a[0] == '"' {
            lemma_quotes_concat(a.skip(1), b, !quoted);
        } else {
            lemma_quotes_concat(a.skip(1), b, quoted);
        }
    }
}

/// No entry holds a quote.
spec fn without_quotes(entries: Seq<(Seq<char>, Seq<char>)>) -> bool {
    forall|k: int, i: int|
        0 <= k < entries.len() && 0 <= i < entries[k].0.len() ==> #[trigger] entries[k].0[i] != '"'
}

proof fn lemma_list_without_quotes(s: Seq<char>, quoted: bool, current: Seq<char>)
    requires
        forall|i: int| 0 <= i < current.len() ==> #[trigger] current[i] != '"',
    ensures
        forall|k: int, i: int|
            0 <= k < path_list_from(s, quoted, current).len() && 0 <= i < path_list_from(
                s,
                quoted,
                current,
            )[k].len() ==> #[trigger] path_list_from(s, quoted, current)[k][i] != '"',
    decreases s.len(),
{
    if s.len() == 0 {
        let all = path_list_from(s, quoted, current);
        assert forall|k: int, i: int| 0 <= k < all.len() && 0 <= i < all[k].len() implies
            #[trigger] all[k][i] != '"' by {
            assert(all[k] == current);
        }
    } else {
        if s[0] == '"' {
            lemma_list_without_quotes(s.skip(1), !quoted, current);
            assert(path_list_from(s, quoted, current) == path_list_from(
                s.skip(1),
                !quoted,
                current,
            ));
        } else if s[0] == ';' && !quoted {
            lemma_list_without_quotes(s.skip(1), false, Seq::empty());
            let rest = path_list_from(s.skip(1), false, Seq::empty());
            let all = path_list_from(s, quoted, current);
            assert forall|k: int, i: int| 0 <= k < all.len() && 0 <= i < all[k].len() implies
                #[trigger] all[k][i] != '"' by {
                if k > 0 {
                    assert(all[k] == rest[k - 1]);
                    assert(rest[k - 1][i] != '"');
                } else {
                    assert(all[k] == current);
                }
            }
        } else {
            let longer = current.push(s[0]);
            lemma_list_without_quotes(s.skip(1), quoted, longer);
            assert(path_list_from(s, quoted, current) == path_list_from(
                s.skip(1),
                quoted,
                longer,
            ));
        }
    }
}

proof fn lemma_keyed_without_quotes(value: Seq<char>)
    ensures
        without_quotes(keyed(path_list(value))),
{
    lemma_list_without_quotes(value, false, Seq::empty());
    let list = path_list(value);
    assert forall|k: int, i: int|
        0 <= k < keyed(list).len() && 0 <= i < keyed(list)[k].0.len() implies #[trigger] keyed(
        list,
    )[k].0[i] != '"' by {
        assert(list[k][i] != '"');
    }
}

proof fn lemma_merged_without_quotes(
    entries: Seq<(Seq<char>, Seq<char>)>,
    more: Seq<(Seq<char>, Seq<char>)>,
)
    requires
        without_quotes(entries),
        without_quotes(more),
    ensures
        without_quotes(merged(entries, more)),
    decreases more.len(),
{
    if more.len() > 0 {
        let rest = more.drop_last();
        assert forall|k: int, i: int| 0 <= k < rest.len() && 0 <= i < rest[k].0.len() implies
            #[trigger] rest[k].0[i] != '"' by {
            assert(more[k].0[i] != '"');
        }
        lemma_merged_without_quotes(entries, rest);
        let before = merged(entries, rest);
        let after = merged(entries, more);
        assert forall|k: int, i: int| 0 <= k < after.len() && 0 <= i < after[k].0.len() implies
            #[trigger] after[k].0[i] != '"' by {
            if k < before.len() {
                assert(before[k].0[i] != '"');
            } else {
                assert(more[more.len() - 1].0[i] != '"');
            }
        }
    }
}

/// A program that was found through the registry searches, with the `PATH` it
/// carries, exactly the folders that discovery searched. An inherited `PATH`
/// that leaves a quote open and a registry entry that holds a `;` are outside
/// this: such a value does not split the way it was put together.
pub proof fn law_spawned_programs_search_what_discovery_searched(
    process: Option<Seq<char>>,
    machine: PathReadView,
    user: PathReadView,
    key: Seq<char>,
)
    requires
        spawn_path(process, machine, user, key) is Some,
        process matches Some(value) ==> quotes_closed(value, false),
        forall|k: int, i: int|
            process_entries(process).len() <= k < searched(process, machine, user).len() && 0 <= i
                < searched(process, machine, user)[k].0.len() ==> #[trigger] searched(
                process,
                machine,
                user,
            )[k].0[i] != ';',
    ensures
        path_list(spawn_path(process, machine, user, key)->0) == entry_texts(
            searched(process, machine, user),
        ),
{
    let own = process_entries(process);
    let all = searched(process, machine, user);
    law_inherited_entries_come_first(process, machine, user);
    assert(without_quotes(all)) by {
        if process is Some {
            lemma_keyed_without_quotes(process->0);
        }
        if machine is Read {
            lemma_keyed_without_quotes(machine->Read_0);
        }
        if user is Read {
            lemma_keyed_without_quotes(user->Read_0);
        }
        lemma_merged_without_quotes(own, registry_entries(machine));
        lemma_merged_without_quotes(
            merged(own, registry_entries(machine)),
            registry_entries(user),
        );
    }
    let rest = all.skip(own.len() as int);
    let texts = entry_texts(rest);
    assert(rest.len() > 0) by {
        if rest.len() == 0 {
            assert(all =~= own);
        }
    }
    assert forall|k: int, i: int| 0 <= k < texts.len() && 0 <= i < texts[k].len() implies
        #[trigger] texts[k][i] != ';' && texts[k][i] != '"' by {
        assert(texts[k] == all[k + own.len()].0);
        assert(all[k + own.len()].0[i] != ';');
        assert(all[k + own.len()].0[i] != '"');
    }
    lemma_list_join(texts);
    match process {
        Some(value) => {
            lemma_list_concat(value, join(texts, ";"@), false, Seq::empty());
            assert(entry_texts(own) =~= path_list(value));
            assert(entry_texts(all) =~= entry_texts(own) + texts) by {
                assert forall|i: int| 0 <= i < own.len() implies all[i] == own[i] by {
                    assert(all.take(own.len() as int)[i] == all[i]);
                }
            }
        },
        None => {
            assert(rest =~= all);
        },
    }
}

proof fn lemma_merged_covers(
    entries: Seq<(Seq<char>, Seq<char>)>,
    more: Seq<(Seq<char>, Seq<char>)>,
)
    ensures
        forall|k: int|
            0 <= k < more.len() && (#[trigger] more[k]).0.len() > 0 ==> names_key(
                merged(entries, more),
                more[k].1,
            ),
        forall|i: int|
            entries.len() <= i < merged(entries, more).len() ==> more.contains(
                #[trigger] merged(entries, more)[i],
            ),
    decreases more.len(),
{
    lemma_merged_keeps(entries, more);
    if more.len() > 0 {
        let rest = more.drop_last();
        lemma_merged_covers(entries, rest);
        lemma_merged_keeps(entries, rest);
        let before = merged(entries, rest);
        let all = merged(entries, more);
        assert forall|k: int| 0 <= k < more.len() && (#[trigger] more[k]).0.len() > 0 implies names_key(
            all,
            more[k].1,
        ) by {
            if k < rest.len() {
                assert(rest[k] == more[k]);
                let i = choose|i: int| 0 <= i < before.len() && (#[trigger] before[i]).1 == rest[k].1;
                assert(all[i] == before[i]);
            } else if !names_key(before, more[k].1) {
                assert(all[before.len() as int].1 == more[k].1);
            } else {
                let i = choose|i: int| 0 <= i < before.len() && (#[trigger] before[i]).1 == more[k].1;
                assert(all[i] == before[i]);
            }
        }
        assert forall|i: int| entries.len() <= i < all.len() implies more.contains(
            #[trigger] all[i],
        ) by {
            if i < before.len() {
                assert(all[i] == before[i]);
                let k = choose|k: int| 0 <= k < rest.len() && rest[k] == before[i];
                assert(more[k] == before[i]);
            } else {
                assert(more[more.len() - 1] == all[i]);
            }
        }
    }
}

/// Every folder that the machine's or the user's value names is searched, and
/// what is searched beyond the inherited entries is named by one of the two.
pub proof fn law_registry_folders_are_searched(
    process: Option<Seq<char>>,
    machine: PathReadView,
    user: PathReadView,
)
    ensures
        ({
            let all = searched(process, machine, user);
            let own = process_entries(process);
            &&& (machine matches PathReadView::Read(value) ==> forall|k: int|
                0 <= k < path_list(value).len() && (#[trigger] path_list(value)[k]).len() > 0
                    ==> names_key(all, directory_key(path_list(value)[k])))
            &&& (user matches PathReadView::Read(value) ==> forall|k: int|
                0 <= k < path_list(value).len() && (#[trigger] path_list(value)[k]).len() > 0
                    ==> names_key(all, directory_key(path_list(value)[k])))
            &&& forall|i: int|
                own.len() <= i < all.len() ==> registry_entries(machine).contains(
                    #[trigger] all[i],
                ) || registry_entries(user).contains(all[i])
        }),
{
    let own = process_entries(process);
    let first = merged(own, registry_entries(machine));
    let all = searched(process, machine, user);
    lemma_merged_covers(own, registry_entries(machine));
    lemma_merged_covers(first, registry_entries(user));
    lemma_merged_keeps(own, registry_entries(machine));
    lemma_merged_keeps(first, registry_entries(user));
    assert forall|i: int| 0 <= i < first.len() implies #[trigger] all[i] == first[i] by {
        assert(all.take(first.len() as int)[i] == all[i]);
    }
    if let PathReadView::Read(value) = machine {
        assert forall|k: int| 0 <= k < path_list(value).len() && (#[trigger] path_list(
            value,
        )[k]).len() > 0 implies names_key(all, directory_key(path_list(value)[k])) by {
            let e = registry_entries(machine)[k];
            assert(e == (path_list(value)[k], directory_key(path_list(value)[k])));
            assert(names_key(first, e.1));
            let i = choose|i: int| 0 <= i < first.len() && (#[trigger] first[i]).1 == e.1;
            assert(all[i].1 == e.1);
        }
    }
    if let PathReadView::Read(value) = user {
        assert forall|k: int| 0 <= k < path_list(value).len() && (#[trigger] path_list(
            value,
        )[k]).len() > 0 implies names_key(all, directory_key(path_list(value)[k])) by {
            let e = registry_entries(user)[k];
            assert(e == (path_list(value)[k], directory_key(path_list(value)[k])));
        }
    }
}

/// The inherited entries are the inherited value's own, all of them.
pub proof fn law_inherited_entries_are_kept(value: Seq<char>)
    ensures
        entry_texts(process_entries(Some(value))) == path_list(value),
        process_entries(None).len() == 0,
        registry_entries(PathReadView::Read(value)) == process_entries(Some(value)),
{
    assert(entry_texts(keyed(path_list(value))) =~= path_list(value));
}

/// Entries without quotes are told apart at the semicolons.
pub proof fn law_entries_are_split_at_semicolons(texts: Seq<Seq<char>>)
    requires
        texts.len() > 0,
        forall|k: int, i: int|
            0 <= k < texts.len() && 0 <= i < texts[k].len() ==> #[trigger] texts[k][i] != ';'
                && texts[k][i] != '"',
    ensures
        path_list(join(texts, ";"@)) == texts,
{
    lemma_list_join(texts);
}

/// A folder is the same folder with separators at its end.
pub proof fn law_separators_at_the_end_name_the_same_folder(path: Seq<char>)
    ensures
        directory_key(path.push('\\')) == directory_key(path),
        directory_key(path.push('/')) == directory_key(path),
        path.len() > 0 && path.last() != '/' && path.last() != '\\' ==> directory_key(path)
            == lowercase(path),
{
    let class = CharClass::Separator;
    lemma_pushed_end(path, '\\');
    lemma_pushed_end(path, '/');
    if path.len() > 0 && path.last() != '/' && path.last() != '\\' {
        assert(trim_end(path, class) =~= path);
    }
}

proof fn lemma_pushed_end(path: Seq<char>, c: char)
    requires
        c == '/' || c == '\\',
    ensures
        trim_end(path.push(c), CharClass::Separator) == trim_end(path, CharClass::Separator),
{
    let class = CharClass::Separator;
    let longer = path.push(c);
    lemma_run_start(path, class, path.len() as int);
    let b = run_start(path, class, path.len() as int);
    assert forall|i: int| b <= i < longer.len() implies belongs(class, #[trigger] longer[i]) by {
        if i < path.len() {
            assert(belongs(class, path[i]));
        }
    }
    if b > 0 {
        assert(longer[b - 1] == path[b - 1]);
    }
    lemma_run_start_is(longer, class, longer.len() as int, b);
    assert(longer.take(b) =~= path.take(b));
}

/// A program whose folder only the registry names is started with the inherited
/// `PATH` in front and the registry's further entries behind it; any other needs
/// no override.
pub proof fn law_only_registry_folders_need_an_override(
    process: Option<Seq<char>>,
    machine: PathReadView,
    user: PathReadView,
    key: Seq<char>,
)
    ensures
        ({
            let own = process_entries(process);
            let all = searched(process, machine, user);
            let value = spawn_path(process, machine, user, key);
            &&& value is Some <==> names_key(all, key) && !names_key(own, key)
            &&& value is Some && process is Some ==> value->0.len() > process->0.len()
                && value->0.take(process->0.len() as int) == process->0 && value->0[process->0.len() as int]
                == ';' && value->0.skip(process->0.len() as int + 1) == join(
                entry_texts(all.skip(own.len() as int)),
                ";"@,
            )
            &&& value is Some && process is None ==> value->0 == join(entry_texts(all), ";"@)
        }),
{
    reveal_strlit(";");
    let own = process_entries(process);
    let all = searched(process, machine, user);
    let value = spawn_path(process, machine, user, key);
    if value is Some {
        let added = join(entry_texts(all.skip(own.len() as int)), ";"@);
        if process is Some {
            assert(value->0.take(process->0.len() as int) =~= process->0);
            assert(value->0.skip(process->0.len() as int + 1) =~= added);
        } else {
            assert(all.skip(0) =~= all);
        }
    }
}

/// A program is started from the folder it was resolved from, else from the one
/// it stands in; where its folder needs an override it carries it under `PATH`,
/// else it keeps what it had.
pub proof fn law_programs_carry_what_their_folder_needs(
    agent: InstalledAgent,
    snapshot: PathSnapshot,
    folder: String,
)
    ensures
        agent.launch_directory == Some(folder) && folder@.len() > 0 ==> launch_folder(agent) == Some(
            folder@,
        ),
        agent.launch_directory is None || agent.launch_directory->0@.len() == 0 ==> launch_folder(
            agent,
        ) == (match parent_of(Platform::Windows, agent.executable@) {
            Some(p) => if p.len() > 0 {
                Some(p)
            } else {
                None
            },
            None => None,
        }),
        ({
            let needed = match launch_folder(agent) {
                Some(f) => spawn_path(
                    text_view(snapshot.process),
                    snapshot.machine@,
                    snapshot.user@,
                    directory_key(f),
                ),
                None => None,
            };
            &&& needed is Some ==> stamped(agent, snapshot) == Some(("PATH"@, needed->0))
            &&& needed is None ==> stamped(agent, snapshot) == pair_view(agent.spawn_path_env)
        }),
{
}

} // verus!
