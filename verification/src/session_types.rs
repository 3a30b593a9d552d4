//! The values that a session is made of: the command of its child, the replay
//! of a recovered transcript, and the states of a registry entry.
use crate::std_text::{lowercase, text_from_utf8_lossy, utf8_lossy};
use crate::text::texts_of;
use crate::wire::text_view;
use std::collections::VecDeque;
use std::collections::BTreeMap;
use vstd::prelude::*;
use vstd::std_specs::btree::increasing_seq;
use vstd::std_specs::cmp::OrdSpec;
use vstd::std_specs::iter::IteratorSpec;

verus! {

/// Everything that is needed to start one terminal child, whatever the kind of
/// its session.
#[derive(Debug)]
pub struct PtyCommand {
    pub program: String,
    pub args: Vec<String>,
    pub cwd: String,
    pub env: Vec<(String, String)>,
    pub provider_id: Option<String>,
}

/// The names and values of an environment.
pub open spec fn env_view(env: Seq<(String, String)>) -> Seq<(Seq<char>, Seq<char>)> {
    env.map_values(|e: (String, String)| (e.0@, e.1@))
}

/// `portable_pty::CommandBuilder`, carried as it is.
#[verifier::external_type_specification]
#[verifier::external_body]
pub struct ExCommandBuilder(portable_pty::CommandBuilder);

/// The program and the arguments that a builder holds.
pub uninterp spec fn builder_argv(b: portable_pty::CommandBuilder) -> Seq<Seq<char>>;

/// The directory that a builder holds.
pub uninterp spec fn builder_cwd(b: portable_pty::CommandBuilder) -> Option<Seq<char>>;

/// The value that a builder holds for an environment variable.
pub uninterp spec fn builder_env(b: portable_pty::CommandBuilder, key: Seq<char>) -> Option<
    Seq<char>,
>;

/// `portable_pty::CommandBuilder::new`: the program is the only word of the
/// command line, and no directory is set. Which variables the builder takes
/// over from the environment of the process is not stated.
#[verifier::external_body]
fn builder_new(program: &str) -> (b: portable_pty::CommandBuilder)
    ensures
        builder_argv(b) == seq![program@],
        builder_cwd(b) is None,
{
    portable_pty::CommandBuilder::new(program)
}

/// `portable_pty::CommandBuilder::args`: the arguments go behind the words that
/// are there; a builder without a program would panic.
#[verifier::external_body]
fn builder_args(b: &mut portable_pty::CommandBuilder, args: &Vec<String>)
    requires
        builder_argv(*old(b)).len() > 0,
    ensures
        builder_argv(*final(b)) == builder_argv(*old(b)) + texts_of(args@),
        builder_cwd(*final(b)) == builder_cwd(*old(b)),
        forall|k: Seq<char>| #[trigger] builder_env(*final(b), k) == builder_env(*old(b), k),
{
    b.args(args)
}

/// `portable_pty::CommandBuilder::cwd`: the directory is set.
#[verifier::external_body]
fn builder_set_cwd(b: &mut portable_pty::CommandBuilder, dir: &str)
    ensures
        builder_cwd(*final(b)) == Some(dir@),
        builder_argv(*final(b)) == builder_argv(*old(b)),
        forall|k: Seq<char>| #[trigger] builder_env(*final(b), k) == builder_env(*old(b), k),
{
    b.cwd(dir)
}

/// `portable_pty::CommandBuilder::env`: the variable is set, and variables
/// whose names differ in more than case keep their values. On Windows the names
/// are told apart by their lower case, elsewhere as they are, so a name that
/// differs only in case has the new value or keeps its own.
#[verifier::external_body]
fn builder_set_env(b: &mut portable_pty::CommandBuilder, key: &str, value: &str)
    ensures
        builder_env(*final(b), key@) == Some(value@),
        forall|k: Seq<char>|
            lowercase(k) != lowercase(key@) ==> #[trigger] builder_env(*final(b), k)
                == builder_env(*old(b), k),
        forall|k: Seq<char>| #[trigger]
            builder_env(*final(b), k) == builder_env(*old(b), k) || builder_env(*final(b), k)
                == Some(value@),
        builder_argv(*final(b)) == builder_argv(*old(b)),
        builder_cwd(*final(b)) == builder_cwd(*old(b)),
{
    b.env(key, value)
}

/// The setting at `j` may be the one that a name has: it is for this name or for
/// one that differs only in case, and no later setting is for this very name.
pub open spec fn may_hold(env: Seq<(Seq<char>, Seq<char>)>, name: Seq<char>, j: int) -> bool {
    &&& 0 <= j < env.len()
    &&& lowercase(env[j].0) == lowercase(name)
    &&& forall|m: int| j < m < env.len() ==> (#[trigger] env[m]).0 != name
}

/// The variable that was set at `i` has the value of its last setting, or of a
/// later setting of a name that differs from its own only in case.
pub open spec fn is_set(
    b: portable_pty::CommandBuilder,
    env: Seq<(Seq<char>, Seq<char>)>,
    i: int,
) -> bool {
    exists|j: int|
        i <= j && #[trigger] may_hold(env, env[i].0, j) && builder_env(b, env[i].0) == Some(
            env[j].1,
        )
}

/// Every variable that was set has a value that was set for it.
pub open spec fn env_applied(
    b: portable_pty::CommandBuilder,
    env: Seq<(Seq<char>, Seq<char>)>,
) -> bool {
    forall|i: int| 0 <= i < env.len() ==> #[trigger] is_set(b, env, i)
}

proof fn lemma_env_applied(
    before: portable_pty::CommandBuilder,
    after: portable_pty::CommandBuilder,
    past: Seq<(Seq<char>, Seq<char>)>,
    entry: (Seq<char>, Seq<char>),
)
    requires
        env_applied(before, past),
        builder_env(after, entry.0) == Some(entry.1),
        forall|k: Seq<char>|
            lowercase(k) != lowercase(entry.0) ==> #[trigger] builder_env(after, k) == builder_env(
                before,
                k,
            ),
        forall|k: Seq<char>| #[trigger]
            builder_env(after, k) == builder_env(before, k) || builder_env(after, k) == Some(
                entry.1,
            ),
    ensures
        env_applied(after, past.push(entry)),
{
    let now = past.push(entry);
    let last = past.len() as int;
    assert forall|i: int| 0 <= i < now.len() implies #[trigger] is_set(after, now, i) by {
        let name = now[i].0;
        if name == entry.0 {
            assert(may_hold(now, name, last));
            assert(builder_env(after, name) == Some(now[last].1));
        } else {
            assert(past[i] == now[i]);
            assert(is_set(before, past, i));
            let j = choose|j: int|
                i <= j && #[trigger] may_hold(past, past[i].0, j) && builder_env(before, past[i].0)
                    == Some(past[j].1);
            assert(now[j] == past[j]);
            if builder_env(after, name) == builder_env(before, name) {
                assert forall|m: int| j < m < now.len() implies (#[trigger] now[m]).0 != name by {
                    if m < last {
                        assert(past[m].0 != name);
                    }
                }
                assert(may_hold(now, name, j));
            } else {
                assert(lowercase(name) == lowercase(entry.0));
                assert(may_hold(now, name, last));
                assert(builder_env(after, name) == Some(now[last].1));
            }
        }
    }
}

impl PtyCommand {
    pub fn new(program: &str, args: Vec<String>, cwd: String, env: Vec<(String, String)>) -> (r:
        PtyCommand)
        ensures
            r.program@ == program@,
            r.args == args,
            r.cwd == cwd,
            r.env == env,
            r.provider_id is None,
    {
        PtyCommand { program: program.to_owned(), args, cwd, env, provider_id: None }
    }

    pub fn with_provider_id(self, id: &str) -> (r: PtyCommand)
        ensures
            text_view(r.provider_id) == Some(id@),
            r.program == self.program,
            r.args == self.args,
            r.cwd == self.cwd,
            r.env == self.env,
    {
        let mut r = self;
        r.provider_id = Some(id.to_owned());
        r
    }

    /// The command as the terminal library takes it.
    pub fn to_command_builder(&self) -> (b: portable_pty::CommandBuilder)
        ensures
            builder_argv(b) == seq![self.program@] + texts_of(self.args@),
            builder_cwd(b) == Some(self.cwd@),
            env_applied(b, env_view(self.env@)),
    {
        let mut b = builder_new(self.program.as_str());
        builder_args(&mut b, &self.args);
        builder_set_cwd(&mut b, self.cwd.as_str());
        let ghost all = env_view(self.env@);
        let mut i: usize = 0;
        while i < self.env.len()
            invariant
                i <= self.env@.len(),
                all == env_view(self.env@),
                builder_argv(b) == seq![self.program@] + texts_of(self.args@),
                builder_cwd(b) == Some(self.cwd@),
                env_applied(b, all.take(i as int)),
            decreases self.env@.len() - i,
        {
            let ghost before = b;
            builder_set_env(&mut b, self.env[i].0.as_str(), self.env[i].1.as_str());
            proof {
                lemma_env_applied(before, b, all.take(i as int), all[i as int]);
                assert(all.take(i + 1) =~= all.take(i as int).push(all[i as int]));
            }
            i = i + 1;
        }
        assert(all.take(i as int) =~= all);
        b
    }
}

/// A piece of output and its place in the session's order.
#[derive(Debug)]
pub struct SequencedChunk {
    pub seq: u64,
    pub data: Vec<u8>,
}

/// The replay buffer of a recovered transcript.
#[derive(Debug)]
pub struct Scrollback {
    pub chunks: VecDeque<SequencedChunk>,
}

/// What a replay sends: one piece of output.
#[derive(Debug, PartialEq, Eq)]
pub enum SessionEvent {
    Output { seq: u64, data: String },
}

/// Pieces of output over the characters of their texts.
pub open spec fn outputs_view(outputs: Seq<(u64, String)>) -> Seq<(u64, Seq<char>)> {
    outputs.map_values(|o: (u64, String)| (o.0, o.1@))
}

/// The pieces of a buffer, read as text.
pub open spec fn chunks_text(chunks: Seq<SequencedChunk>) -> Seq<(u64, Seq<char>)> {
    chunks.map_values(|c: SequencedChunk| (c.seq, utf8_lossy(c.data@)))
}

/// `base` with the outputs after `cursor` laid over it: a later output replaces
/// an earlier one with its sequence number.
pub open spec fn overlay(base: Map<u64, Seq<char>>, outputs: Seq<(u64, Seq<char>)>, cursor: u64) -> Map<
    u64,
    Seq<char>,
>
    decreases outputs.len(),
{
    if outputs.len() == 0 {
        base
    } else {
        let before = overlay(base, outputs.drop_last(), cursor);
        if outputs.last().0 > cursor {
            before.insert(outputs.last().0, outputs.last().1)
        } else {
            before
        }
    }
}

/// The outputs, in ascending order and each once, are exactly those of `m`.
pub open spec fn lists(outputs: Seq<(u64, Seq<char>)>, m: Map<u64, Seq<char>>) -> bool {
    &&& forall|i: int, j: int|
        0 <= i < j < outputs.len() ==> (#[trigger] outputs[i]).0 < (#[trigger] outputs[j]).0
    &&& forall|i: int|
        0 <= i < outputs.len() ==> m.contains_key((#[trigger] outputs[i]).0) && m[outputs[i].0]
            == outputs[i].1
    &&& forall|k: u64| #[trigger]
        m.contains_key(k) ==> exists|i: int| 0 <= i < outputs.len() && (#[trigger] outputs[i]).0 == k
}

/// The events over the characters of their texts.
pub open spec fn events_view(events: Seq<SessionEvent>) -> Seq<(u64, Seq<char>)> {
    events.map_values(|e: SessionEvent| (e->seq, e->data@))
}

/// The outputs of a map over the characters of their texts.
pub open spec fn output_texts(outputs: Map<u64, String>) -> Map<u64, Seq<char>> {
    outputs.map_values(|t: String| t@)
}

/// Puts the outputs after a cursor into a map; a later one replaces an earlier
/// one with its sequence number.
fn lay_over(outputs: &mut BTreeMap<u64, String>, more: &[(u64, String)], cursor: u64)
    ensures
        output_texts(final(outputs)@) == overlay(
            output_texts(old(outputs)@),
            outputs_view(more@),
            cursor,
        ),
{
    broadcast use vstd::std_specs::btree::group_btree_axioms;

    let ghost base = output_texts(outputs@);
    let ghost all = outputs_view(more@);
    let mut i: usize = 0;
    assert(all.take(0) =~= Seq::empty());
    while i < more.len()
        invariant
            i <= more@.len(),
            all == outputs_view(more@),
            output_texts(outputs@) == overlay(base, all.take(i as int), cursor),
        decreases more@.len() - i,
    {
        assert(all.take(i + 1).drop_last() =~= all.take(i as int));
        if more[i].0 > cursor {
            let ghost before = outputs@;
            let data = more[i].1.clone();
            let _ = outputs.insert(more[i].0, data);
            assert(output_texts(outputs@) =~= output_texts(before).insert(
                all[i as int].0,
                all[i as int].1,
            ));
        }
        i = i + 1;
    }
    assert(all.take(i as int) =~= all);
}

/// The outputs of a map as events, in the order of their sequence numbers.
fn listed(outputs: &BTreeMap<u64, String>) -> (r: Vec<SessionEvent>)
    ensures
        lists(events_view(r@), output_texts(outputs@)),
{
    broadcast use vstd::std_specs::btree::group_btree_axioms;

    let mut r: Vec<SessionEvent> = Vec::new();
    let iter = outputs.iter();
    let ghost pairs = iter.remaining();
    let ghost keys = pairs.map_values(|kv: (&u64, &String)| *kv.0);
    assert(increasing_seq(keys));
    for (seq, data) in it: iter
        invariant
            it.seq() == pairs,
            r@.len() == it.index(),
            forall|i: int|
                0 <= i < r@.len() ==> events_view(r@)[i] == (*(#[trigger] pairs[i]).0, pairs[i].1@),
    {
        let ghost before = r@;
        r.push(SessionEvent::Output { seq: *seq, data: data.clone() });
        assert(events_view(r@) =~= events_view(before).push((*seq, data@)));
    }
    proof {
        let events = events_view(r@);
        let m = output_texts(outputs@);
        assert forall|i: int, j: int| 0 <= i < j < events.len() implies (#[trigger] events[i]).0 < (
        #[trigger] events[j]).0 by {
            assert(keys[i] == *pairs[i].0);
            assert(keys[j] == *pairs[j].0);
            assert(keys[i].cmp_spec(&keys[j]) is Less);
        }
        assert forall|i: int| 0 <= i < events.len() implies m.contains_key((#[trigger] events[i]).0)
            && m[events[i].0] == events[i].1 by {
            assert(outputs@.contains_key(*pairs[i].0));
        }
        assert forall|k: u64| #[trigger] m.contains_key(k) implies exists|i: int|
            0 <= i < events.len() && (#[trigger] events[i]).0 == k by {
            assert(outputs@.contains_key(k));
            let i = choose|i: int| 0 <= i < pairs.len() && pairs[i] == (&k, &outputs@[k]);
            assert(events[i].0 == k);
        }
    }
    r
}

/// The outputs after a cursor, from a buffer and from the journal: one event
/// for each sequence number, in ascending order. Where both have a sequence
/// number the journal's copy is sent.
pub fn replay_union(
    from_cursor: Option<u64>,
    buffered: &[(u64, String)],
    journal_outputs: &[(u64, String)],
) -> (r: Vec<SessionEvent>)
    ensures
        lists(
            events_view(r@),
            overlay(
                overlay(Map::empty(), outputs_view(buffered@), from_cursor.unwrap_or(0)),
                outputs_view(journal_outputs@),
                from_cursor.unwrap_or(0),
            ),
        ),
{
    broadcast use vstd::std_specs::btree::group_btree_axioms;

    let cursor: u64 = from_cursor.unwrap_or(0);
    let mut outputs: BTreeMap<u64, String> = BTreeMap::new();
    assert(output_texts(outputs@) =~= Map::empty());
    lay_over(&mut outputs, buffered, cursor);
    lay_over(&mut outputs, journal_outputs, cursor);
    listed(&outputs)
}

impl Scrollback {
    pub fn new() -> (r: Scrollback)
        ensures
            r.chunks@ == Seq::<SequencedChunk>::empty(),
    {
        Scrollback { chunks: VecDeque::new() }
    }

    /// Takes one piece of output in; an empty one is dropped.
    pub fn push(&mut self, seq: u64, data: &[u8])
        ensures
            data@.len() == 0 ==> final(self).chunks@ == old(self).chunks@,
            data@.len() > 0 ==> final(self).chunks@.len() == old(self).chunks@.len() + 1
                && final(self).chunks@.drop_last() == old(self).chunks@
                && final(self).chunks@.last().seq == seq && final(self).chunks@.last().data@
                == data@,
    {
        if data.len() == 0 {
            return;
        }
        let copy = vstd::slice::slice_to_vec(data);
        self.chunks.push_back(SequencedChunk { seq, data: copy });
        assert(self.chunks@.drop_last() =~= old(self).chunks@);
    }

    /// Whether what follows a cursor starts before the buffer does, so that the
    /// journal has to be read.
    pub fn needs_journal_replay(&self, from_cursor: Option<u64>, next_seq: u64) -> (r: bool)
        ensures
            r == ({
                let first = if self.chunks@.len() > 0 {
                    self.chunks@[0].seq
                } else {
                    next_seq
                };
                first > from_cursor.unwrap_or(0) + 1
            }),
    {
        let cursor: u64 = from_cursor.unwrap_or(0);
        let first: u64 = if self.chunks.len() > 0 {
            self.chunks[0].seq
        } else {
            next_seq
        };
        cursor < u64::MAX && first > cursor + 1
    }

    /// The outputs after a cursor, from this buffer alone.
    pub fn replay_after(&self, from_cursor: Option<u64>) -> (r: Vec<SessionEvent>)
        ensures
            lists(
                events_view(r@),
                overlay(Map::empty(), chunks_text(self.chunks@), from_cursor.unwrap_or(0)),
            ),
    {
        let none: Vec<(u64, String)> = Vec::new();
        let r = self.replay_after_with_journal(from_cursor, none.as_slice());
        assert(outputs_view(none@).len() == 0);
        r
    }

    /// The outputs after a cursor, from this buffer and from the journal.
    pub fn replay_after_with_journal(
        &self,
        from_cursor: Option<u64>,
        journal_outputs: &[(u64, String)],
    ) -> (r: Vec<SessionEvent>)
        ensures
            lists(
                events_view(r@),
                overlay(
                    overlay(Map::empty(), chunks_text(self.chunks@), from_cursor.unwrap_or(0)),
                    outputs_view(journal_outputs@),
                    from_cursor.unwrap_or(0),
                ),
            ),
    {
        let mut buffered: Vec<(u64, String)> = Vec::new();
        let ghost wanted = chunks_text(self.chunks@);
        let mut i: usize = 0;
        while i < self.chunks.len()
            invariant
                i <= self.chunks@.len(),
                wanted == chunks_text(self.chunks@),
                outputs_view(buffered@) == wanted.take(i as int),
            decreases self.chunks@.len() - i,
        {
            let ghost before = buffered@;
            let chunk = &self.chunks[i];
            buffered.push((chunk.seq, text_from_utf8_lossy(chunk.data.as_slice())));
            i = i + 1;
            assert(outputs_view(buffered@) =~= outputs_view(before).push(wanted[i - 1]));
            assert(outputs_view(buffered@) =~= wanted.take(i as int));
        }
        assert(wanted.take(i as int) =~= wanted);
        replay_union(from_cursor, buffered.as_slice(), journal_outputs)
    }
}

/// Everything that a replay sends lies strictly after the cursor.
pub proof fn law_replay_is_after_the_cursor(
    base: Map<u64, Seq<char>>,
    outputs: Seq<(u64, Seq<char>)>,
    cursor: u64,
)
    requires
        forall|k: u64| #[trigger] base.contains_key(k) ==> k > cursor,
    ensures
        forall|k: u64| #[trigger] overlay(base, outputs, cursor).contains_key(k) ==> k > cursor,
    decreases outputs.len(),
{
    if outputs.len() > 0 {
        law_replay_is_after_the_cursor(base, outputs.drop_last(), cursor);
        let before = overlay(base, outputs.drop_last(), cursor);
        assert forall|k: u64| #[trigger] overlay(base, outputs, cursor).contains_key(k) implies k
            > cursor by {
            assert(before.contains_key(k) || k == outputs.last().0);
        }
    }
}

/// A sequence number that the journal has after the cursor is sent with the
/// journal's copy, whatever the buffer holds.
pub proof fn law_journal_copy_wins(
    buffered: Map<u64, Seq<char>>,
    other: Map<u64, Seq<char>>,
    journal: Seq<(u64, Seq<char>)>,
    cursor: u64,
    i: int,
)
    requires
        0 <= i < journal.len(),
        journal[i].0 > cursor,
    ensures
        overlay(buffered, journal, cursor).contains_key(journal[i].0),
        overlay(buffered, journal, cursor)[journal[i].0] == overlay(other, journal, cursor)[
            journal[i].0
        ],
    decreases journal.len(),
{
    if i < journal.len() - 1 {
        law_journal_copy_wins(buffered, other, journal.drop_last(), cursor, i);
    }
}

/// There is one way to list a set of outputs: a replay is determined by what
/// it has to send.
pub proof fn law_replay_is_unique(
    a: Seq<(u64, Seq<char>)>,
    b: Seq<(u64, Seq<char>)>,
    m: Map<u64, Seq<char>>,
)
    requires
        lists(a, m),
        lists(b, m),
    ensures
        a == b,
    decreases a.len(),
{
    if a.len() == 0 {
        if b.len() > 0 {
            assert(m.contains_key(b[0].0));
        }
        assert(a =~= b);
    } else if b.len() == 0 {
        assert(m.contains_key(a[0].0));
    } else {
        let x = a.last().0;
        let y = b.last().0;
        assert(m.contains_key(a[a.len() - 1].0));
        assert(m.contains_key(b[b.len() - 1].0));
        let i = choose|i: int| 0 <= i < b.len() && (#[trigger] b[i]).0 == x;
        let j = choose|j: int| 0 <= j < a.len() && (#[trigger] a[j]).0 == y;
        assert(x <= y) by {
            if i < b.len() - 1 {
                assert(b[i].0 < b[b.len() - 1].0);
            }
        }
        assert(y <= x) by {
            if j < a.len() - 1 {
                assert(a[j].0 < a[a.len() - 1].0);
            }
        }
        let rest = m.remove(x);
        lemma_lists_drop_last(a, m);
        lemma_lists_drop_last(b, m);
        law_replay_is_unique(a.drop_last(), b.drop_last(), rest);
        assert(a =~= a.drop_last().push(a.last()));
        assert(b =~= b.drop_last().push(b.last()));
    }
}

proof fn lemma_lists_drop_last(a: Seq<(u64, Seq<char>)>, m: Map<u64, Seq<char>>)
    requires
        a.len() > 0,
        lists(a, m),
    ensures
        lists(a.drop_last(), m.remove(a.last().0)),
{
    let x = a.last().0;
    let rest = m.remove(x);
    let d = a.drop_last();
    assert forall|i: int| 0 <= i < d.len() implies rest.contains_key((#[trigger] d[i]).0)
        && rest[d[i].0] == d[i].1 by {
        assert(a[i].0 < a[a.len() - 1].0);
    }
    assert forall|k: u64| #[trigger] rest.contains_key(k) implies exists|i: int|
        0 <= i < d.len() && (#[trigger] d[i]).0 == k by {
        assert(m.contains_key(k));
        let i = choose|i: int| 0 <= i < a.len() && (#[trigger] a[i]).0 == k;
        assert(d[i].0 == k);
    }
    assert forall|i: int, j: int| 0 <= i < j < d.len() implies (#[trigger] d[i]).0 < (
    #[trigger] d[j]).0 by {
        assert(a[i].0 < a[j].0);
    }
}

/// What the registry holds of a session: its owner and its wire metadata.
#[derive(Debug)]
pub struct Held<O, M> {
    pub owner: O,
    pub metadata: M,
}

/// An entry of the session registry.
#[derive(Debug)]
pub enum RegistryEntry<O, M> {
    /// A session with a child.
    Live(Box<Held<O, M>>),
    /// A child is there, but its profile has not been delivered yet: the daemon
    /// can tear it down, and no peer can see it.
    Configuring(Box<Held<O, M>>),
    /// A recovered transcript, without a child.
    Transcript(Box<Held<O, M>>),
}

impl<O, M> RegistryEntry<O, M> {
    /// What the entry holds.
    pub open spec fn held(&self) -> Held<O, M> {
        match self {
            RegistryEntry::Live(h) => **h,
            RegistryEntry::Configuring(h) => **h,
            RegistryEntry::Transcript(h) => **h,
        }
    }

    /// Whether this entry is a session that its peers must not see yet.
    pub fn is_configuring(&self) -> (r: bool)
        ensures
            r == (self is Configuring),
    {
        match self {
            RegistryEntry::Configuring(_) => true,
            _ => false,
        }
    }

    /// The daemon's question: is there a child here? It reaches through the
    /// delivery window.
    pub fn as_child_process(&self) -> (r: Option<&Held<O, M>>)
        ensures
            r == if self is Transcript {
                None
            } else {
                Some(&self.held())
            },
    {
        match self {
            RegistryEntry::Live(h) => Some(&**h),
            RegistryEntry::Configuring(h) => Some(&**h),
            RegistryEntry::Transcript(_) => None,
        }
    }

    /// The same question, with the child to be changed. The entry stays what it
    /// is: what becomes of the child becomes of what it holds.
    pub fn as_child_process_mut(&mut self) -> (r: Option<&mut Held<O, M>>)
        ensures
            match *old(self) {
                RegistryEntry::Live(h) => r matches Some(held) && *held == *h && *final(self)
                    == RegistryEntry::<O, M>::Live(Box::new(*final(held))),
                RegistryEntry::Configuring(h) => r matches Some(held) && *held == *h && *final(self)
                    == RegistryEntry::<O, M>::Configuring(Box::new(*final(held))),
                RegistryEntry::Transcript(_) => r is None && *final(self) == *old(self),
            },
    {
        match self {
            RegistryEntry::Live(h) => Some(&mut **h),
            RegistryEntry::Configuring(h) => Some(&mut **h),
            RegistryEntry::Transcript(_) => None,
        }
    }

    /// A peer's question: does this session exist for the outside yet?
    pub fn as_peer_visible(&self) -> (r: Option<&Held<O, M>>)
        ensures
            r == if self is Live {
                Some(&self.held())
            } else {
                None
            },
    {
        match self {
            RegistryEntry::Live(h) => Some(&**h),
            _ => None,
        }
    }

    /// The same question, with the session to be changed; a live entry stays
    /// live.
    pub fn as_peer_visible_mut(&mut self) -> (r: Option<&mut Held<O, M>>)
        ensures
            match *old(self) {
                RegistryEntry::Live(h) => r matches Some(held) && *held == *h && *final(self)
                    == RegistryEntry::<O, M>::Live(Box::new(*final(held))),
                _ => r is None && *final(self) == *old(self),
            },
    {
        match self {
            RegistryEntry::Live(h) => Some(&mut **h),
            _ => None,
        }
    }

    pub fn owner(&self) -> (r: &O)
        ensures
            *r == self.held().owner,
    {
        match self {
            RegistryEntry::Live(h) => &h.owner,
            RegistryEntry::Configuring(h) => &h.owner,
            RegistryEntry::Transcript(h) => &h.owner,
        }
    }

    pub fn metadata(&self) -> (r: &M)
        ensures
            *r == self.held().metadata,
    {
        match self {
            RegistryEntry::Live(h) => &h.metadata,
            RegistryEntry::Configuring(h) => &h.metadata,
            RegistryEntry::Transcript(h) => &h.metadata,
        }
    }
}

/// Laid over, an output after the cursor stands under its number where no later
/// one has the same; every other number keeps what was there.
pub proof fn law_the_last_copy_is_kept(
    base: Map<u64, Seq<char>>,
    outputs: Seq<(u64, Seq<char>)>,
    cursor: u64,
    i: int,
    k: u64,
)
    ensures
        0 <= i < outputs.len() && outputs[i].0 > cursor && (forall|j: int|
            i < j < outputs.len() ==> (#[trigger] outputs[j]).0 != outputs[i].0) ==> overlay(
            base,
            outputs,
            cursor,
        ).contains_key(outputs[i].0) && overlay(base, outputs, cursor)[outputs[i].0] == outputs[i].1,
        (k <= cursor || forall|j: int|
            0 <= j < outputs.len() ==> (#[trigger] outputs[j]).0 != k) ==> (overlay(
            base,
            outputs,
            cursor,
        ).contains_key(k) <==> base.contains_key(k)) && (base.contains_key(k) ==> overlay(
            base,
            outputs,
            cursor,
        )[k] == base[k]),
    decreases outputs.len(),
{
    if outputs.len() > 0 {
        let rest = outputs.drop_last();
        law_the_last_copy_is_kept(base, rest, cursor, i, k);
        if k <= cursor || forall|j: int|
            0 <= j < outputs.len() ==> (#[trigger] outputs[j]).0 != k {
            assert(k <= cursor || outputs[outputs.len() - 1].0 != k);
            assert forall|j: int| 0 <= j < rest.len() implies k <= cursor || (#[trigger] rest[j]).0
                != k by {
                assert(rest[j] == outputs[j]);
            }
        }
        if 0 <= i < outputs.len() && outputs[i].0 > cursor && (forall|j: int|
            i < j < outputs.len() ==> (#[trigger] outputs[j]).0 != outputs[i].0) {
            if i < rest.len() {
                assert(outputs[outputs.len() - 1].0 != outputs[i].0);
                assert forall|j: int| i < j < rest.len() implies (#[trigger] rest[j]).0 != rest[i].0 by {
                    assert(rest[j] == outputs[j]);
                }
                assert(rest[i] == outputs[i]);
            }
        }
    }
}

/// Chunks, outputs and events are replayed under their own numbers, each with its
/// own text.
pub proof fn law_outputs_keep_their_numbers(
    chunks: Seq<SequencedChunk>,
    outputs: Seq<(u64, String)>,
    i: int,
)
    ensures
        chunks_text(chunks).len() == chunks.len(),
        outputs_view(outputs).len() == outputs.len(),
        0 <= i < chunks.len() ==> chunks_text(chunks)[i].0 == chunks[i].seq && chunks_text(chunks)[i].1
            == utf8_lossy(chunks[i].data@),
        0 <= i < outputs.len() ==> outputs_view(outputs)[i].0 == outputs[i].0 && outputs_view(
            outputs,
        )[i].1 == outputs[i].1@,
{
}

} // verus!
