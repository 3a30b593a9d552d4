//! Per-provider tool policy: which of the daemon's broker tools a provider's
//! sessions are served.
//!
//! The store keeps one policy for each provider. A policy is persisted before
//! the copy in memory moves, so a failed write changes nothing.
use crate::text::{chars_of, same_text, texts_of};
use vstd::prelude::*;

verus! {

/// The file inside the runtime directory.
pub const POLICY_FILE: &'static str = "tool-policies.json";

/// The tool that lists a caller's own agents; it can never be switched off.
pub const MCP_ROSTER_TOOL: &'static str = "devboule_list_agents";

/// One provider's policy.
#[derive(Debug)]
pub struct ToolPolicyEntry {
    pub provider_id: String,
    pub enabled: Option<bool>,
    pub disabled_tools: Vec<String>,
}

/// `ToolPolicyEntry` over the characters of its texts.
pub ghost struct PolicyView {
    pub provider_id: Seq<char>,
    pub enabled: Option<bool>,
    pub disabled_tools: Seq<Seq<char>>,
}

impl View for ToolPolicyEntry {
    type V = PolicyView;

    open spec fn view(&self) -> PolicyView {
        PolicyView {
            provider_id: self.provider_id@,
            enabled: self.enabled,
            disabled_tools: texts_of(self.disabled_tools@),
        }
    }
}

/// Whether a tool may be served under a policy: the roster tool always may,
/// without a policy everything may, `Some(false)` switches everything off, and
/// otherwise the deny list decides.
pub open spec fn tool_enabled(policy: Option<PolicyView>, name: Seq<char>) -> bool {
    name == MCP_ROSTER_TOOL@ || match policy {
        None => true,
        Some(p) => p.enabled != Some(false) && !p.disabled_tools.contains(name),
    }
}

/// A policy that may be missing, over its view.
pub open spec fn policy_view(policy: Option<&ToolPolicyEntry>) -> Option<PolicyView> {
    match policy {
        Some(p) => Some(p@),
        None => None,
    }
}

pub fn is_tool_enabled(policy: Option<&ToolPolicyEntry>, name: &str) -> (r: bool)
    ensures
        r == tool_enabled(policy_view(policy), name@),
{
    if same_text(name, MCP_ROSTER_TOOL) {
        return true;
    }
    let entry = match policy {
        None => {
            return true;
        },
        Some(entry) => entry,
    };
    if let Some(false) = entry.enabled {
        return false;
    }
    let ghost all = texts_of(entry.disabled_tools@);
    let mut i: usize = 0;
    while i < entry.disabled_tools.len()
        invariant
            i <= entry.disabled_tools@.len(),
            all == texts_of(entry.disabled_tools@),
            policy == Some(entry),
            name@ != MCP_ROSTER_TOOL@,
            forall|k: int| 0 <= k < i ==> #[trigger] all[k] != name@,
        decreases entry.disabled_tools@.len() - i,
    {
        assert(all[i as int] == entry.disabled_tools@[i as int]@);
        if same_text(entry.disabled_tools[i].as_str(), name) {
            assert(entry@.disabled_tools.contains(name@));
            return false;
        }
        i = i + 1;
    }
    true
}

/// The roster tool is on whatever a policy says.
pub proof fn law_roster_tool_is_always_on(policy: Option<PolicyView>)
    ensures
        tool_enabled(policy, MCP_ROSTER_TOOL@),
{
}

/// Without a policy every tool is served.
pub proof fn law_no_policy_serves_everything(name: Seq<char>)
    ensures
        tool_enabled(None, name),
{
}

/// The stored policies, one for each key.
#[derive(Debug)]
pub struct ToolPolicyStore {
    pub rows: Vec<(String, ToolPolicyEntry)>,
}

/// The rows over views.
pub open spec fn policy_rows(rows: Seq<(String, ToolPolicyEntry)>) -> Seq<(Seq<char>, PolicyView)> {
    rows.map_values(|r: (String, ToolPolicyEntry)| (r.0@, r.1@))
}

/// The rows as a map: a later row replaces an earlier one with its key.
pub open spec fn policy_map(rows: Seq<(Seq<char>, PolicyView)>) -> Map<Seq<char>, PolicyView>
    decreases rows.len(),
{
    if rows.len() == 0 {
        Map::empty()
    } else {
        policy_map(rows.drop_last()).insert(rows.last().0, rows.last().1)
    }
}

/// No key occurs twice.
pub open spec fn distinct_keys(rows: Seq<(Seq<char>, PolicyView)>) -> bool {
    forall|i: int, j: int|
        0 <= i < j < rows.len() ==> (#[trigger] rows[i]).0 != (#[trigger] rows[j]).0
}

/// What a map of rows holds, key by key.
pub proof fn lemma_policy_map(rows: Seq<(Seq<char>, PolicyView)>)
    requires
        distinct_keys(rows),
    ensures
        forall|i: int|
            0 <= i < rows.len() ==> policy_map(rows).contains_key((#[trigger] rows[i]).0)
                && policy_map(rows)[rows[i].0] == rows[i].1,
        forall|k: Seq<char>| #[trigger]
            policy_map(rows).contains_key(k) ==> exists|i: int|
                0 <= i < rows.len() && (#[trigger] rows[i]).0 == k,
    decreases rows.len(),
{
    if rows.len() > 0 {
        let before = rows.drop_last();
        assert(distinct_keys(before)) by {
            assert forall|i: int, j: int| 0 <= i < j < before.len() implies (#[trigger] before[i]).0
                != (#[trigger] before[j]).0 by {
                assert(rows[i].0 != rows[j].0);
            }
        }
        lemma_policy_map(before);
        assert forall|i: int| 0 <= i < rows.len() implies policy_map(rows).contains_key(
            (#[trigger] rows[i]).0,
        ) && policy_map(rows)[rows[i].0] == rows[i].1 by {
            if i < before.len() {
                assert(before[i] == rows[i]);
                assert(rows[i].0 != rows[rows.len() - 1].0);
            }
        }
        assert forall|k: Seq<char>| #[trigger] policy_map(rows).contains_key(k) implies exists|
            i: int,
        |
            0 <= i < rows.len() && (#[trigger] rows[i]).0 == k by {
            if k == rows.last().0 {
                assert(rows[rows.len() - 1].0 == k);
            } else {
                assert(policy_map(before).contains_key(k));
                let i = choose|i: int| 0 <= i < before.len() && (#[trigger] before[i]).0 == k;
                assert(rows[i].0 == k);
            }
        }
    }
}

/// Replacing the value of one row replaces it in the map.
proof fn lemma_policy_map_update(
    rows: Seq<(Seq<char>, PolicyView)>,
    at: int,
    value: PolicyView,
)
    requires
        distinct_keys(rows),
        0 <= at < rows.len(),
    ensures
        distinct_keys(rows.update(at, (rows[at].0, value))),
        policy_map(rows.update(at, (rows[at].0, value))) == policy_map(rows).insert(
            rows[at].0,
            value,
        ),
{
    let next = rows.update(at, (rows[at].0, value));
    assert(distinct_keys(next)) by {
        assert forall|i: int, j: int| 0 <= i < j < next.len() implies (#[trigger] next[i]).0 != (
        #[trigger] next[j]).0 by {
            assert(rows[i].0 != rows[j].0);
        }
    }
    lemma_policy_map(rows);
    lemma_policy_map(next);
    let wanted = policy_map(rows).insert(rows[at].0, value);
    assert forall|k: Seq<char>| policy_map(next).contains_key(k) == wanted.contains_key(k) by {
        if policy_map(next).contains_key(k) {
            let i = choose|i: int| 0 <= i < next.len() && (#[trigger] next[i]).0 == k;
            assert(rows[i].0 == k);
        }
        if policy_map(rows).contains_key(k) {
            let i = choose|i: int| 0 <= i < rows.len() && (#[trigger] rows[i]).0 == k;
            assert(next[i].0 == k);
        }
        if k == rows[at].0 {
            assert(next[at].0 == k);
        }
    }
    assert forall|k: Seq<char>| policy_map(next).contains_key(k) implies policy_map(next)[k]
        == wanted[k] by {
        let i = choose|i: int| 0 <= i < next.len() && (#[trigger] next[i]).0 == k;
        assert(rows[i].0 == k);
        if i != at {
            assert(rows[i].0 != rows[at].0) by {
                if i < at {
                    assert(rows[i].0 != rows[at].0);
                } else {
                    assert(rows[at].0 != rows[i].0);
                }
            }
        }
    }
    assert(policy_map(next) =~= wanted);
}

/// One text stands before another: by the code points of the first characters
/// that differ, a shorter text before its continuations.
pub open spec fn text_le(a: Seq<char>, b: Seq<char>) -> bool
    decreases a.len(),
{
    if a.len() == 0 {
        true
    } else if b.len() == 0 {
        false
    } else if a[0] != b[0] {
        (a[0] as u32) < (b[0] as u32)
    } else {
        text_le(a.skip(1), b.skip(1))
    }
}

pub proof fn lemma_text_le_total(a: Seq<char>, b: Seq<char>)
    ensures
        text_le(a, b) || text_le(b, a),
    decreases a.len(),
{
    if a.len() > 0 && b.len() > 0 {
        if a[0] == b[0] {
            lemma_text_le_total(a.skip(1), b.skip(1));
        } else {
            vstd::utf8::char_u32_cast(a[0], a[0] as u32);
            vstd::utf8::char_u32_cast(b[0], b[0] as u32);
        }
    }
}

pub proof fn lemma_text_le_transitive(a: Seq<char>, b: Seq<char>, c: Seq<char>)
    requires
        text_le(a, b),
        text_le(b, c),
    ensures
        text_le(a, c),
    decreases a.len(),
{
    if a.len() > 0 && b.len() > 0 && c.len() > 0 && a[0] == b[0] && b[0] == c[0] {
        lemma_text_le_transitive(a.skip(1), b.skip(1), c.skip(1));
    }
}

fn is_text_le(a: &str, b: &str) -> (r: bool)
    ensures
        r == text_le(a@, b@),
{
    let x = chars_of(a);
    let y = chars_of(b);
    let mut i: usize = 0;
    assert(x@.skip(0) =~= x@);
    assert(y@.skip(0) =~= y@);
    loop
        invariant
            x@ == a@,
            y@ == b@,
            i <= x@.len(),
            i <= y@.len(),
            text_le(a@, b@) == text_le(x@.skip(i as int), y@.skip(i as int)),
        decreases x@.len() - i,
    {
        if i >= x.len() {
            return true;
        }
        if i >= y.len() {
            return false;
        }
        assert(x@.skip(i as int)[0] == x@[i as int]);
        assert(y@.skip(i as int)[0] == y@[i as int]);
        if x[i] != y[i] {
            return (x[i] as u32) < (y[i] as u32);
        }
        assert(x@.skip(i as int).skip(1) =~= x@.skip(i + 1));
        assert(y@.skip(i as int).skip(1) =~= y@.skip(i + 1));
        i = i + 1;
    }
}

fn copy_texts(texts: &Vec<String>) -> (r: Vec<String>)
    ensures
        texts_of(r@) == texts_of(texts@),
{
    let mut r: Vec<String> = Vec::new();
    let ghost wanted = texts_of(texts@);
    let mut i: usize = 0;
    while i < texts.len()
        invariant
            i <= texts@.len(),
            wanted == texts_of(texts@),
            texts_of(r@) == wanted.take(i as int),
        decreases texts@.len() - i,
    {
        let ghost before = r@;
        r.push(texts[i].clone());
        i = i + 1;
        assert(texts_of(r@) =~= texts_of(before).push(wanted[i - 1]));
        assert(texts_of(r@) =~= wanted.take(i as int));
    }
    assert(wanted.take(i as int) =~= wanted);
    r
}

fn copy_entry(entry: &ToolPolicyEntry) -> (r: ToolPolicyEntry)
    ensures
        r@ == entry@,
{
    ToolPolicyEntry {
        provider_id: entry.provider_id.clone(),
        enabled: entry.enabled,
        disabled_tools: copy_texts(&entry.disabled_tools),
    }
}

/// The entries over views.
pub open spec fn entries_of(entries: Seq<ToolPolicyEntry>) -> Seq<PolicyView> {
    entries.map_values(|e: ToolPolicyEntry| e@)
}

/// The entries stand in the order of their provider ids.
pub open spec fn ordered_entries(entries: Seq<PolicyView>) -> bool {
    forall|i: int, j: int|
        0 <= i < j < entries.len() ==> text_le(
            (#[trigger] entries[i]).provider_id,
            (#[trigger] entries[j]).provider_id,
        )
}

/// The policies in the rows.
pub open spec fn row_policies(rows: Seq<(Seq<char>, PolicyView)>) -> Seq<PolicyView> {
    rows.map_values(|row: (Seq<char>, PolicyView)| row.1)
}

/// The entries list the policies in the rows, in the order of their provider
/// ids.
pub open spec fn lists_policies(
    entries: Seq<PolicyView>,
    rows: Seq<(Seq<char>, PolicyView)>,
) -> bool {
    ordered_entries(entries) && entries.to_multiset() == row_policies(rows).to_multiset()
}

fn insert_ordered(entries: &mut Vec<ToolPolicyEntry>, entry: ToolPolicyEntry)
    requires
        ordered_entries(entries_of(old(entries)@)),
    ensures
        ordered_entries(entries_of(final(entries)@)),
        entries_of(final(entries)@).to_multiset() == entries_of(old(entries)@).to_multiset().insert(
            entry@,
        ),
{
    let ghost before = entries_of(entries@);
    let mut at: usize = entries.len();
    while at > 0 && !is_text_le(
        entries[at - 1].provider_id.as_str(),
        entry.provider_id.as_str(),
    )
        invariant
            *entries == *old(entries),
            before == entries_of(entries@),
            ordered_entries(before),
            at <= entries@.len(),
            forall|i: int|
                at <= i < before.len() ==> !text_le(
                    (#[trigger] before[i]).provider_id,
                    entry@.provider_id,
                ),
        decreases at,
    {
        assert(before[at - 1] == entries@[at - 1]@);
        at = at - 1;
    }
    let ghost e = entry@;
    proof {
        if at > 0 {
            assert(before[at - 1] == entries@[at - 1]@);
        }
    }
    entries.insert(at, entry);
    let ghost after = entries_of(entries@);
    assert(after =~= before.insert(at as int, e));
    proof {
        before.insert_ensures(at as int, e);
        assert forall|i: int, j: int| 0 <= i < j < after.len() implies text_le(
            (#[trigger] after[i]).provider_id,
            (#[trigger] after[j]).provider_id,
        ) by {
            if i < at && j == at {
                if i < at - 1 {
                    assert(text_le(before[i].provider_id, before[at - 1].provider_id));
                    lemma_text_le_transitive(
                        before[i].provider_id,
                        before[at - 1].provider_id,
                        e.provider_id,
                    );
                }
            } else if i == at {
                assert(after[j] == before[j - 1]);
                lemma_text_le_total(before[j - 1].provider_id, e.provider_id);
            } else if i < at && j > at {
                assert(after[i] == before[i]);
                assert(after[j] == before[j - 1]);
            } else if j < at {
                assert(after[i] == before[i]);
                assert(after[j] == before[j]);
            } else {
                assert(after[i] == before[i - 1]);
                assert(after[j] == before[j - 1]);
            }
        }
        vstd::seq_lib::to_multiset_insert(before, at as int, e);
    }
}

impl View for ToolPolicyStore {
    type V = Map<Seq<char>, PolicyView>;

    open spec fn view(&self) -> Map<Seq<char>, PolicyView> {
        policy_map(policy_rows(self.rows@))
    }
}

impl ToolPolicyStore {
    /// There is one row for each key.
    pub open spec fn well_formed(&self) -> bool {
        distinct_keys(policy_rows(self.rows@))
    }

    fn position_of(&self, key: &str) -> (r: Option<usize>)
        ensures
            r matches Some(i) ==> i < self.rows@.len() && self.rows@[i as int].0@ == key@,
            r is None ==> forall|i: int|
                0 <= i < self.rows@.len() ==> (#[trigger] self.rows@[i]).0@ != key@,
    {
        let mut i: usize = 0;
        while i < self.rows.len()
            invariant
                i <= self.rows@.len(),
                forall|k: int| 0 <= k < i ==> (#[trigger] self.rows@[k]).0@ != key@,
            decreases self.rows@.len() - i,
        {
            if same_text(self.rows[i].0.as_str(), key) {
                return Some(i);
            }
            i = i + 1;
        }
        None
    }

    fn put(&mut self, key: String, entry: ToolPolicyEntry)
        requires
            old(self).well_formed(),
        ensures
            final(self).well_formed(),
            final(self)@ == old(self)@.insert(key@, entry@),
    {
        let ghost before = policy_rows(self.rows@);
        let ghost row = (key@, entry@);
        match self.position_of(key.as_str()) {
            Some(i) => {
                let _ = self.rows.remove(i);
                self.rows.insert(i, (key, entry));
                let ghost after = policy_rows(self.rows@);
                assert(before[i as int].0 == row.0);
                assert(after =~= before.update(i as int, row));
                proof {
                    lemma_policy_map_update(before, i as int, row.1);
                }
            },
            None => {
                self.rows.push((key, entry));
                let ghost after = policy_rows(self.rows@);
                assert(after =~= before.push(row));
                assert(after.drop_last() =~= before);
                assert(forall|k: int|
                    0 <= k < before.len() ==> (#[trigger] before[k]).0 == old(self).rows@[k].0@);
                assert(distinct_keys(after)) by {
                    assert forall|i: int, j: int| 0 <= i < j < after.len() implies (
                    #[trigger] after[i]).0 != (#[trigger] after[j]).0 by {
                        assert(after[i] == before[i]);
                        if j < before.len() {
                            assert(after[j] == before[j]);
                        }
                    }
                }
            },
        }
    }

    /// The policies that a file held. A missing file, and a file that could not
    /// be read as policies, give none.
    pub fn load(read: Result<Option<Vec<(String, ToolPolicyEntry)>>, String>) -> (r: ToolPolicyStore)
        ensures
            r.well_formed(),
            r@ == match read {
                Ok(Some(rows)) => policy_map(policy_rows(rows@)),
                _ => Map::empty(),
            },
    {
        let mut store = ToolPolicyStore { rows: Vec::new() };
        assert(policy_rows(store.rows@) =~= Seq::empty());
        if let Ok(Some(rows)) = &read {
            let ghost all = policy_rows(rows@);
            let mut i: usize = 0;
            while i < rows.len()
                invariant
                    i <= rows@.len(),
                    all == policy_rows(rows@),
                    store.well_formed(),
                    store@ == policy_map(all.take(i as int)),
                decreases rows@.len() - i,
            {
                assert(all.take(i + 1).drop_last() =~= all.take(i as int));
                assert(all[i as int] == (rows@[i as int].0@, rows@[i as int].1@));
                store.put(rows[i].0.clone(), copy_entry(&rows[i].1));
                i = i + 1;
            }
            assert(all.take(i as int) =~= all);
        }
        store
    }

    /// A provider's policy; no provider has none.
    pub fn get(&self, provider_id: Option<&str>) -> (r: Option<&ToolPolicyEntry>)
        requires
            self.well_formed(),
        ensures
            policy_view(r) == match provider_id {
                Some(id) => if self@.contains_key(id@) {
                    Some(self@[id@])
                } else {
                    None
                },
                None => None,
            },
    {
        let id = match provider_id {
            None => {
                return None;
            },
            Some(id) => id,
        };
        proof {
            lemma_policy_map(policy_rows(self.rows@));
        }
        let ghost rows = policy_rows(self.rows@);
        match self.position_of(id) {
            Some(i) => {
                assert(rows[i as int] == (self.rows@[i as int].0@, self.rows@[i as int].1@));
                Some(&self.rows[i].1)
            },
            None => {
                assert(!self@.contains_key(id@)) by {
                    if self@.contains_key(id@) {
                        let i = choose|i: int| 0 <= i < rows.len() && (#[trigger] rows[i]).0 == id@;
                        assert(rows[i].0 == self.rows@[i].0@);
                    }
                }
                None
            },
        }
    }

    /// Every stored policy, in the order of the provider ids.
    pub fn entries(&self) -> (r: Vec<ToolPolicyEntry>)
        ensures
            lists_policies(entries_of(r@), policy_rows(self.rows@)),
    {
        let mut r: Vec<ToolPolicyEntry> = Vec::new();
        let ghost all = row_policies(policy_rows(self.rows@));
        let mut i: usize = 0;
        assert(entries_of(r@) =~= Seq::empty());
        assert(all.take(0) =~= Seq::empty());
        while i < self.rows.len()
            invariant
                i <= self.rows@.len(),
                all == row_policies(policy_rows(self.rows@)),
                ordered_entries(entries_of(r@)),
                entries_of(r@).to_multiset() == all.take(i as int).to_multiset(),
            decreases self.rows@.len() - i,
        {
            insert_ordered(&mut r, copy_entry(&self.rows[i].1));
            proof {
                assert(all.take(i + 1) =~= all.take(i as int).push(all[i as int]));
                vstd::seq_lib::to_multiset_build(all.take(i as int), all[i as int]);
            }
            i = i + 1;
        }
        assert(all.take(i as int) =~= all);
        r
    }

    /// The store as it will be once a provider's policy is replaced; this is
    /// what has to be written.
    pub fn planned(&self, provider_id: &str, enabled: Option<bool>, disabled_tools: &Vec<String>) -> (r:
        ToolPolicyStore)
        requires
            self.well_formed(),
        ensures
            r.well_formed(),
            r@ == self@.insert(
                provider_id@,
                PolicyView {
                    provider_id: provider_id@,
                    enabled,
                    disabled_tools: texts_of(disabled_tools@),
                },
            ),
    {
        let mut next = ToolPolicyStore { rows: Vec::new() };
        let ghost all = policy_rows(self.rows@);
        let mut i: usize = 0;
        assert(policy_rows(next.rows@) =~= all.take(0));
        while i < self.rows.len()
            invariant
                i <= self.rows@.len(),
                all == policy_rows(self.rows@),
                policy_rows(next.rows@) == all.take(i as int),
            decreases self.rows@.len() - i,
        {
            let ghost before = next.rows@;
            next.rows.push((self.rows[i].0.clone(), copy_entry(&self.rows[i].1)));
            i = i + 1;
            assert(policy_rows(next.rows@) =~= policy_rows(before).push(all[i - 1]));
            assert(policy_rows(next.rows@) =~= all.take(i as int));
        }
        assert(all.take(i as int) =~= all);
        next.put(
            provider_id.to_owned(),
            ToolPolicyEntry {
                provider_id: provider_id.to_owned(),
                enabled,
                disabled_tools: copy_texts(disabled_tools),
            },
        );
        next
    }

    /// Replaces one provider's policy once the store as `planned` was written;
    /// where the write failed, nothing changes and the failure is handed on.
    pub fn set(
        &mut self,
        provider_id: &str,
        enabled: Option<bool>,
        disabled_tools: &Vec<String>,
        written: Result<(), String>,
    ) -> (r: Result<(), String>)
        requires
            old(self).well_formed(),
        ensures
            r == written,
            final(self).well_formed(),
            written is Err ==> *final(self) == *old(self),
            written is Ok ==> final(self)@ == old(self)@.insert(
                provider_id@,
                PolicyView {
                    provider_id: provider_id@,
                    enabled,
                    disabled_tools: texts_of(disabled_tools@),
                },
            ),
    {
        if written.is_ok() {
            let next = self.planned(provider_id, enabled, disabled_tools);
            *self = next;
        }
        written
    }
}

/// Every policy stands under its own provider id.
pub open spec fn keyed(policies: Map<Seq<char>, PolicyView>) -> bool {
    forall|id: Seq<char>| #[trigger]
        policies.contains_key(id) ==> policies[id].provider_id == id
}

/// Two sets of rows are the same, their order aside.
pub open spec fn same_rows(
    a: Seq<(Seq<char>, PolicyView)>,
    b: Seq<(Seq<char>, PolicyView)>,
) -> bool {
    forall|row: (Seq<char>, PolicyView)| #[trigger] a.contains(row) == b.contains(row)
}

proof fn lemma_same_rows_same_map(
    a: Seq<(Seq<char>, PolicyView)>,
    b: Seq<(Seq<char>, PolicyView)>,
)
    requires
        distinct_keys(a),
        distinct_keys(b),
        same_rows(a, b),
    ensures
        policy_map(a) == policy_map(b),
{
    lemma_policy_map(a);
    lemma_policy_map(b);
    assert forall|k: Seq<char>| policy_map(a).contains_key(k) implies policy_map(b).contains_key(k)
        && policy_map(a)[k] == policy_map(b)[k] by {
        let i = choose|i: int| 0 <= i < a.len() && (#[trigger] a[i]).0 == k;
        assert(a.contains(a[i]));
        assert(b.contains(a[i]));
        let j = choose|j: int| 0 <= j < b.len() && b[j] == a[i];
        assert(b[j].0 == k);
    }
    assert forall|k: Seq<char>| policy_map(b).contains_key(k) implies policy_map(a).contains_key(
        k,
    ) by {
        let i = choose|i: int| 0 <= i < b.len() && (#[trigger] b[i]).0 == k;
        assert(b.contains(b[i]));
        assert(a.contains(b[i]));
        let j = choose|j: int| 0 <= j < a.len() && a[j] == b[i];
        assert(a[j].0 == k);
    }
    assert(policy_map(a) =~= policy_map(b));
}

proof fn lemma_same_map_same_rows(
    a: Seq<(Seq<char>, PolicyView)>,
    b: Seq<(Seq<char>, PolicyView)>,
)
    requires
        distinct_keys(a),
        distinct_keys(b),
        policy_map(a) == policy_map(b),
    ensures
        forall|row: (Seq<char>, PolicyView)| #[trigger] a.contains(row) ==> b.contains(row),
{
    lemma_policy_map(a);
    lemma_policy_map(b);
    assert forall|row: (Seq<char>, PolicyView)| #[trigger] a.contains(row) implies b.contains(
        row,
    ) by {
        let i = choose|i: int| 0 <= i < a.len() && a[i] == row;
        assert(policy_map(a).contains_key(a[i].0));
        let j = choose|j: int| 0 <= j < b.len() && (#[trigger] b[j]).0 == row.0;
        assert(b[j] == row);
    }
}

/// Rows with distinct keys that are the same but for their order are as many of
/// each.
proof fn lemma_same_rows_same_multiset(
    a: Seq<(Seq<char>, PolicyView)>,
    b: Seq<(Seq<char>, PolicyView)>,
)
    requires
        distinct_keys(a),
        distinct_keys(b),
        same_rows(a, b),
    ensures
        a.to_multiset() == b.to_multiset(),
{
    assert(a.no_duplicates());
    assert(b.no_duplicates());
    a.lemma_multiset_has_no_duplicates();
    b.lemma_multiset_has_no_duplicates();
    a.to_multiset_ensures();
    b.to_multiset_ensures();
    assert forall|row: (Seq<char>, PolicyView)| a.to_multiset().count(row)
        == b.to_multiset().count(row) by {
        assert(a.contains(row) == b.contains(row));
        assert(a.to_multiset().contains(row) == a.contains(row));
        assert(b.to_multiset().contains(row) == b.contains(row));
    }
    assert(a.to_multiset() =~= b.to_multiset());
}

/// Sequences with as many of each hold the same.
proof fn lemma_shared<A>(a: Seq<A>, b: Seq<A>, x: A)
    requires
        a.to_multiset() == b.to_multiset(),
        a.contains(x),
    ensures
        b.contains(x),
{
    vstd::seq_lib::to_multiset_contains(a, x);
    vstd::seq_lib::to_multiset_contains(b, x);
}

/// What two equal collections of rows hold is equal too.
proof fn lemma_policies_of_multiset(
    a: Seq<(Seq<char>, PolicyView)>,
    b: Seq<(Seq<char>, PolicyView)>,
)
    requires
        a.to_multiset() == b.to_multiset(),
    ensures
        row_policies(a).to_multiset() == row_policies(b).to_multiset(),
    decreases a.len(),
{
    a.to_multiset_ensures();
    b.to_multiset_ensures();
    if a.len() == 0 {
        assert(row_policies(a) =~= row_policies(b));
    } else {
        let last = a.len() - 1;
        let row = a[last];
        assert(a.contains(row));
        lemma_shared(a, b, row);
        let j = choose|j: int| 0 <= j < b.len() && b[j] == row;
        lemma_policies_of_multiset(a.remove(last), b.remove(j));
        let x = row_policies(a);
        let y = row_policies(b);
        assert(row_policies(a.remove(last)) =~= x.remove(last));
        assert(row_policies(b.remove(j)) =~= y.remove(j));
        x.to_multiset_ensures();
        y.to_multiset_ensures();
        assert(x[last] == y[j]);
        assert(x.contains(x[last]));
        assert(y.contains(y[j]));
        assert(x.to_multiset() =~= x.remove(last).to_multiset().insert(row.1));
        assert(y.to_multiset() =~= y.remove(j).to_multiset().insert(row.1));
    }
}

proof fn lemma_text_le_antisymmetric(a: Seq<char>, b: Seq<char>)
    requires
        text_le(a, b),
        text_le(b, a),
    ensures
        a == b,
    decreases a.len(),
{
    if a.len() > 0 && b.len() > 0 {
        lemma_text_le_antisymmetric(a.skip(1), b.skip(1));
        assert(a =~= seq![a[0]] + a.skip(1));
        assert(b =~= seq![b[0]] + b.skip(1));
    } else {
        assert(a =~= b);
    }
}

/// No provider id occurs twice.
pub open spec fn distinct_providers(entries: Seq<PolicyView>) -> bool {
    forall|i: int, j: int|
        0 <= i < j < entries.len() ==> (#[trigger] entries[i]).provider_id != (
        #[trigger] entries[j]).provider_id
}

/// There is one order for policies of different providers.
proof fn lemma_one_order(x: Seq<PolicyView>, y: Seq<PolicyView>)
    requires
        ordered_entries(x),
        ordered_entries(y),
        distinct_providers(x),
        x.to_multiset() == y.to_multiset(),
    ensures
        x == y,
    decreases x.len(),
{
    x.to_multiset_ensures();
    y.to_multiset_ensures();
    if x.len() == 0 {
        assert(x =~= y);
    } else {
        let n = x.len() - 1;
        assert(y.len() == x.len());
        assert(x.contains(x[n]));
        assert(y.contains(y[n]));
        lemma_shared(x, y, x[n]);
        lemma_shared(y, x, y[n]);
        let i = choose|i: int| 0 <= i < x.len() && x[i] == y[n];
        let j = choose|j: int| 0 <= j < y.len() && y[j] == x[n];
        if i < n {
            assert(text_le(x[i].provider_id, x[n].provider_id));
            if j < n {
                assert(text_le(y[j].provider_id, y[n].provider_id));
                lemma_text_le_antisymmetric(x[i].provider_id, x[n].provider_id);
            }
            assert(x[i].provider_id != x[n].provider_id);
        }
        assert(x[n] == y[n]);
        let a = x.remove(n);
        let b = y.remove(n);
        assert(ordered_entries(a)) by {
            assert forall|p: int, q: int| 0 <= p < q < a.len() implies text_le(
                (#[trigger] a[p]).provider_id,
                (#[trigger] a[q]).provider_id,
            ) by {
                assert(text_le(x[p].provider_id, x[q].provider_id));
            }
        }
        assert(ordered_entries(b)) by {
            assert forall|p: int, q: int| 0 <= p < q < b.len() implies text_le(
                (#[trigger] b[p]).provider_id,
                (#[trigger] b[q]).provider_id,
            ) by {
                assert(text_le(y[p].provider_id, y[q].provider_id));
            }
        }
        assert(distinct_providers(a)) by {
            assert forall|p: int, q: int| 0 <= p < q < a.len() implies (
            #[trigger] a[p]).provider_id != (#[trigger] a[q]).provider_id by {
                assert(x[p].provider_id != x[q].provider_id);
            }
        }
        lemma_one_order(a, b);
        assert(x =~= a.push(x[n]));
        assert(y =~= b.push(y[n]));
    }
}

/// Policies that stand under their own ids are listed once each.
proof fn lemma_listed_once(entries: Seq<PolicyView>, rows: Seq<(Seq<char>, PolicyView)>)
    requires
        distinct_keys(rows),
        keyed(policy_map(rows)),
        lists_policies(entries, rows),
    ensures
        distinct_providers(entries),
{
    lemma_policy_map(rows);
    let held = row_policies(rows);
    assert forall|i: int, j: int| 0 <= i < held.len() && 0 <= j < held.len() && i
        != j implies held[i] != held[j] by {
        assert(policy_map(rows).contains_key(rows[i].0));
        assert(policy_map(rows).contains_key(rows[j].0));
        assert(held[i].provider_id == rows[i].0);
        assert(held[j].provider_id == rows[j].0);
        if i < j {
            assert(rows[i].0 != rows[j].0);
        } else {
            assert(rows[j].0 != rows[i].0);
        }
    }
    held.lemma_multiset_has_no_duplicates();
    entries.lemma_multiset_has_no_duplicates_conv();
    held.to_multiset_ensures();
    entries.to_multiset_ensures();
    assert forall|i: int, j: int| 0 <= i < j < entries.len() implies (
    #[trigger] entries[i]).provider_id != (#[trigger] entries[j]).provider_id by {
        assert(entries.contains(entries[i]));
        assert(entries.contains(entries[j]));
        lemma_shared(entries, held, entries[i]);
        lemma_shared(entries, held, entries[j]);
        let p = choose|p: int| 0 <= p < held.len() && held[p] == entries[i];
        let q = choose|q: int| 0 <= q < held.len() && held[q] == entries[j];
        assert(p != q);
        assert(policy_map(rows).contains_key(rows[p].0));
        assert(policy_map(rows).contains_key(rows[q].0));
        if p < q {
            assert(rows[p].0 != rows[q].0);
        } else {
            assert(rows[q].0 != rows[p].0);
        }
    }
}

/// Replacing a provider's policy gives that provider the new one, leaves every
/// other provider its own, and keeps policies under their ids.
pub proof fn law_set_replaces_one_policy(
    policies: Map<Seq<char>, PolicyView>,
    policy: PolicyView,
    other: Seq<char>,
)
    requires
        other != policy.provider_id,
    ensures
        ({
            let after = policies.insert(policy.provider_id, policy);
            &&& after.contains_key(policy.provider_id)
            &&& after[policy.provider_id] == policy
            &&& after.contains_key(other) == policies.contains_key(other)
            &&& after.contains_key(other) ==> after[other] == policies[other]
            &&& keyed(policies) ==> keyed(after)
        }),
{
}

/// Loading what a successful `set` wrote gives the store's policies back.
/// `written` are the rows of the planned store, `own` the rows of the store once
/// it was set, `file` the written rows in whatever order the file has them,
/// `reloaded` the rows of the store that was loaded from it, and the two lists
/// what the set and the loaded store list as their entries. They list the same
/// policies; where each stands under its own id, which every `set` keeps, they
/// are the same list, with one entry for each provider.
pub proof fn law_written_policies_are_loaded_again(
    written: Seq<(Seq<char>, PolicyView)>,
    own: Seq<(Seq<char>, PolicyView)>,
    file: Seq<(Seq<char>, PolicyView)>,
    reloaded: Seq<(Seq<char>, PolicyView)>,
    entries: Seq<PolicyView>,
    reloaded_entries: Seq<PolicyView>,
)
    requires
        distinct_keys(written),
        distinct_keys(own),
        policy_map(own) == policy_map(written),
        distinct_keys(file),
        same_rows(file, written),
        distinct_keys(reloaded),
        policy_map(reloaded) == policy_map(file),
        lists_policies(entries, own),
        lists_policies(reloaded_entries, reloaded),
    ensures
        policy_map(reloaded) == policy_map(own),
        reloaded_entries.to_multiset() == entries.to_multiset(),
        keyed(policy_map(own)) ==> reloaded_entries == entries && distinct_providers(entries),
{
    lemma_same_rows_same_map(file, written);
    lemma_same_map_same_rows(own, reloaded);
    lemma_same_map_same_rows(reloaded, own);
    lemma_same_rows_same_multiset(own, reloaded);
    lemma_policies_of_multiset(own, reloaded);
    if keyed(policy_map(own)) {
        lemma_listed_once(entries, own);
        lemma_one_order(entries, reloaded_entries);
    }
}

/// A tool that a policy's deny list names is never served, whatever the switch
/// says, and one that it does not name is served unless the switch is off; the
/// roster tool is out of a policy's reach.
pub proof fn law_policies_deny_what_they_name(policy: PolicyView, name: Seq<char>)
    requires
        name != "devboule_list_agents"@,
    ensures
        (exists|i: int|
            0 <= i < policy.disabled_tools.len() && #[trigger] policy.disabled_tools[i] == name)
            ==> !tool_enabled(Some(policy), name),
        policy.enabled == Some(false) ==> !tool_enabled(Some(policy), name),
        (forall|i: int|
            0 <= i < policy.disabled_tools.len() ==> #[trigger] policy.disabled_tools[i] != name)
            && (policy.enabled is None || policy.enabled == Some(true)) ==> tool_enabled(
            Some(policy),
            name,
        ),
        tool_enabled(Some(policy), "devboule_list_agents"@),
        tool_enabled(None, name),
{
    if exists|i: int|
        0 <= i < policy.disabled_tools.len() && #[trigger] policy.disabled_tools[i] == name {
        assert(policy.disabled_tools.contains(name));
    }
}

/// Of rows with one key the last one counts, and other keys keep their own.
pub proof fn law_later_rows_replace_earlier_ones(
    rows: Seq<(Seq<char>, PolicyView)>,
    key: Seq<char>,
    policy: PolicyView,
    other: Seq<char>,
)
    requires
        other != key,
    ensures
        policy_map(Seq::empty()).dom() == Set::<Seq<char>>::empty(),
        policy_map(rows.push((key, policy))).contains_key(key),
        policy_map(rows.push((key, policy)))[key] == policy,
        policy_map(rows.push((key, policy))).contains_key(other) == policy_map(rows).contains_key(
            other,
        ),
        policy_map(rows).contains_key(other) ==> policy_map(rows.push((key, policy)))[other]
            == policy_map(rows)[other],
{
    assert(rows.push((key, policy)).drop_last() =~= rows);
}

/// Texts are ordered by the first character in which they differ, and a text
/// stands before what continues it.
pub proof fn law_texts_are_ordered_by_their_characters(
    shared: Seq<char>,
    a: Seq<char>,
    b: Seq<char>,
)
    ensures
        text_le(shared, shared + b),
        b.len() > 0 ==> !text_le(shared + b, shared),
        a.len() > 0 && b.len() > 0 && (a[0] as u32) < (b[0] as u32) ==> text_le(
            shared + a,
            shared + b,
        ) && !text_le(shared + b, shared + a),
    decreases shared.len(),
{
    if shared.len() == 0 {
        assert(shared + a =~= a);
        assert(shared + b =~= b);
    } else {
        let rest = shared.skip(1);
        law_texts_are_ordered_by_their_characters(rest, a, b);
        assert((shared + a).skip(1) =~= rest + a);
        assert((shared + b).skip(1) =~= rest + b);
        assert((shared + a)[0] == shared[0] && (shared + b)[0] == shared[0]);
    }
}

} // verus!
