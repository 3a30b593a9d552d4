//! The named pipe's two sides, decision by decision: a client that connects, and
//! a listener that accepts.
use vstd::prelude::*;

verus! {

/// How often a client tries a busy pipe.
pub const CONNECT_TRIES: u32 = 20;

/// The operating system's code for a pipe whose instances are all taken.
pub const ERROR_PIPE_BUSY: u32 = 231;

/// The operating system's code for a client that connected before the listener
/// waited for it.
pub const ERROR_PIPE_CONNECTED: u32 = 535;

/// What a client does next.
#[derive(Clone, Copy, Debug, PartialEq, Eq, Structural)]
pub enum ConnectStep {
    /// Open the pipe; `tries` counts this try.
    Open { tries: u32 },
    /// Wait for a free instance, sleep for a moment, and go on.
    Wait,
    /// The pipe is open.
    Connected,
    /// Give up with the operating system's error.
    Fail(u32),
    /// Give up: the pipe was busy all the time.
    TimedOut,
}

/// What a client does next: `tries` were made, and `last` is the outcome of the
/// last one, unless it was waited for already.
pub open spec fn next_connect(tries: u32, last: Option<Result<(), u32>>) -> ConnectStep {
    match last {
        Some(Ok(())) => ConnectStep::Connected,
        Some(Err(code)) => if code == ERROR_PIPE_BUSY {
            ConnectStep::Wait
        } else {
            ConnectStep::Fail(code)
        },
        None => if tries < CONNECT_TRIES {
            ConnectStep::Open { tries: (tries + 1) as u32 }
        } else {
            ConnectStep::TimedOut
        },
    }
}

pub fn connect_step(tries: u32, last: Option<Result<(), u32>>) -> (r: ConnectStep)
    ensures
        r == next_connect(tries, last),
{
    match last {
        Some(Ok(())) => ConnectStep::Connected,
        Some(Err(code)) => if code == ERROR_PIPE_BUSY {
            ConnectStep::Wait
        } else {
            ConnectStep::Fail(code)
        },
        None => if tries < CONNECT_TRIES {
            ConnectStep::Open { tries: tries + 1 }
        } else {
            ConnectStep::TimedOut
        },
    }
}

/// What a client knows: how often it tried, and the outcome of the last try
/// that it has not waited for.
pub ghost struct ConnectState {
    pub tries: u32,
    pub last: Option<Result<(), u32>>,
}

/// The step of a client that knows this much.
pub open spec fn connect_step_of(state: ConnectState) -> ConnectStep {
    next_connect(state.tries, state.last)
}

/// What a client knows once it did a step: after a try its number and its
/// outcome, after a wait that there is no outcome left.
pub open spec fn connect_moved(before: ConnectState, after: ConnectState) -> bool {
    match connect_step_of(before) {
        ConnectStep::Open { tries } => after.tries == tries && after.last is Some,
        ConnectStep::Wait => after.tries == before.tries && after.last is None,
        _ => false,
    }
}

/// A run of a client, from the state in which nothing was tried.
pub open spec fn connect_run(run: Seq<ConnectState>) -> bool {
    &&& run.len() > 0
    &&& run[0].tries == 0
    &&& run[0].last is None
    &&& forall|i: int| 0 <= i < run.len() - 1 ==> connect_moved(#[trigger] run[i], run[i + 1])
}

/// How often the pipe is opened in a run.
pub open spec fn opens_in(run: Seq<ConnectState>) -> nat
    decreases run.len(),
{
    if run.len() == 0 {
        0
    } else if connect_step_of(run.last()) is Open {
        opens_in(run.drop_last()) + 1
    } else {
        opens_in(run.drop_last())
    }
}

proof fn lemma_opens_are_counted(run: Seq<ConnectState>)
    requires
        connect_run(run),
    ensures
        opens_in(run.drop_last()) == run.last().tries,
        run.last().tries <= CONNECT_TRIES,
    decreases run.len(),
{
    let rest = run.drop_last();
    if run.len() > 1 {
        assert(rest.last() == run[run.len() - 2]);
        assert(run[run.len() - 2 + 1] == run.last());
        assert forall|i: int| 0 <= i < rest.len() - 1 implies connect_moved(
            #[trigger] rest[i],
            rest[i + 1],
        ) by {
            assert(rest[i] == run[i]);
            assert(rest[i + 1] == run[i + 1]);
        }
        lemma_opens_are_counted(rest);
    }
}

/// A client opens the pipe at most `CONNECT_TRIES` times, and gives up as timed
/// out only once it did so.
pub proof fn law_connecting_is_bounded(run: Seq<ConnectState>)
    requires
        connect_run(run),
    ensures
        opens_in(run) <= CONNECT_TRIES,
        connect_step_of(run.last()) == ConnectStep::TimedOut ==> opens_in(run) == CONNECT_TRIES,
{
    lemma_opens_are_counted(run);
}

/// What is known so far about accepting one client.
#[derive(Clone, Copy, Debug)]
pub struct AcceptFacts {
    /// Whether the listener was told to stop, before anything else.
    pub stopped_before: Option<bool>,
    /// The outcome of making an instance of the pipe.
    pub created: Option<Result<(), u32>>,
    /// The outcome of waiting for a client.
    pub connected: Option<Result<(), u32>>,
    /// Whether the listener was told to stop in the meantime.
    pub stopped_after: Option<bool>,
}

/// What accepting one client does next.
#[derive(Clone, Copy, Debug, PartialEq, Eq, Structural)]
pub enum AcceptStep {
    CheckStop,
    /// Make an instance; the first one claims the pipe's name.
    CreateInstance { first: bool },
    WaitForClient,
    CheckStopAgain,
    /// Hand the connected instance out.
    Accepted,
    /// Give up with the operating system's error; there is no instance.
    Fail(u32),
    /// Close the instance and give up with the operating system's error.
    CloseAndFail(u32),
    /// Give up: the listener is shutting down, and there is no instance.
    Interrupted,
    /// Disconnect and close the instance: the listener is shutting down.
    CloseInterrupted,
}

/// What accepting one client does next, from what is known.
pub open spec fn next_accept(first: bool, facts: AcceptFacts) -> AcceptStep {
    match facts.stopped_before {
        None => AcceptStep::CheckStop,
        Some(true) => AcceptStep::Interrupted,
        Some(false) => match facts.created {
            None => AcceptStep::CreateInstance { first },
            Some(Err(code)) => AcceptStep::Fail(code),
            Some(Ok(())) => match facts.connected {
                None => AcceptStep::WaitForClient,
                Some(Err(code)) if code != ERROR_PIPE_CONNECTED => AcceptStep::CloseAndFail(code),
                _ => match facts.stopped_after {
                    None => AcceptStep::CheckStopAgain,
                    Some(true) => AcceptStep::CloseInterrupted,
                    Some(false) => AcceptStep::Accepted,
                },
            },
        },
    }
}

/// The listener's own state: whether it has made no instance yet.
#[derive(Debug)]
pub struct PipeListener {
    pub first: bool,
}

impl PipeListener {
    pub fn new() -> (r: PipeListener)
        ensures
            r.first,
    {
        PipeListener { first: true }
    }

    /// What accepting one client does next. Once an instance was made the next
    /// one is not the first.
    pub fn accept(&mut self, facts: AcceptFacts) -> (r: AcceptStep)
        ensures
            r == next_accept(old(self).first, facts),
            final(self).first == (old(self).first && !(facts.created is Some
                && facts.created->0 is Ok)),
    {
        let first = self.first;
        if let Some(Ok(())) = facts.created {
            self.first = false;
        }
        match facts.stopped_before {
            None => AcceptStep::CheckStop,
            Some(true) => AcceptStep::Interrupted,
            Some(false) => match facts.created {
                None => AcceptStep::CreateInstance { first },
                Some(Err(code)) => AcceptStep::Fail(code),
                Some(Ok(())) => {
                    match facts.connected {
                        None => {
                            return AcceptStep::WaitForClient;
                        },
                        Some(Err(code)) => {
                            if code != ERROR_PIPE_CONNECTED {
                                return AcceptStep::CloseAndFail(code);
                            }
                        },
                        Some(Ok(())) => {},
                    }
                    match facts.stopped_after {
                        None => AcceptStep::CheckStopAgain,
                        Some(true) => AcceptStep::CloseInterrupted,
                        Some(false) => AcceptStep::Accepted,
                    }
                },
            },
        }
    }
}

/// A client is handed out only while the listener was not told to stop, and an
/// instance that was made is waited on, handed out or closed: it is never left
/// behind.
pub proof fn law_no_client_after_shutdown(first: bool, facts: AcceptFacts)
    ensures
        next_accept(first, facts) == AcceptStep::Accepted ==> facts.stopped_before == Some(false)
            && facts.stopped_after == Some(false),
        facts.stopped_before == Some(false) && facts.created == Some(Ok::<(), u32>(())) ==> {
            let step = next_accept(first, facts);
            step is WaitForClient || step is CheckStopAgain || step is Accepted
                || step is CloseAndFail || step is CloseInterrupted
        },
{
}

/// Nothing is asked for that is known already, so a caller that answers every
/// question gets to an end.
pub proof fn law_no_question_is_asked_twice(
    first: bool,
    facts: AcceptFacts,
)
    ensures
        match next_accept(first, facts) {
            AcceptStep::CheckStop => facts.stopped_before is None,
            AcceptStep::CreateInstance { .. } => facts.created is None,
            AcceptStep::WaitForClient => facts.connected is None,
            AcceptStep::CheckStopAgain => facts.stopped_after is None,
            _ => true,
        },
{
}

/// A client opens the pipe up to twenty times, waits after an open that found it
/// busy (the system's code 231), and gives up on any other code at once.
pub proof fn law_connecting_waits_for_a_busy_pipe_only(tries: u32, code: u32)
    ensures
        tries < 20 ==> (next_connect(tries, None) matches ConnectStep::Open { tries: next } && next
            == tries + 1),
        tries >= 20 ==> next_connect(tries, None) == ConnectStep::TimedOut,
        next_connect(tries, Some(Ok::<(), u32>(()))) == ConnectStep::Connected,
        next_connect(tries, Some(Err::<(), u32>(231u32))) == ConnectStep::Wait,
        code != 231 ==> next_connect(tries, Some(Err::<(), u32>(code))) == ConnectStep::Fail(code),
{
}

/// A listener asks whether to stop, makes an instance, waits for a client and
/// asks again. A client that was there before the wait (the system's code 535) is
/// a client; any other failure closes the instance.
pub proof fn law_accepting_goes_in_this_order(first: bool, facts: AcceptFacts, code: u32)
    ensures
        ({
            let step = next_accept(first, facts);
            let running = facts.stopped_before == Some(false);
            let made = running && facts.created == Some(Ok::<(), u32>(()));
            let joined = made && (facts.connected == Some(Ok::<(), u32>(())) || facts.connected
                == Some(Err::<(), u32>(535u32)));
            &&& facts.stopped_before is None ==> step == AcceptStep::CheckStop
            &&& facts.stopped_before == Some(true) ==> step == AcceptStep::Interrupted
            &&& running && facts.created is None ==> step == (AcceptStep::CreateInstance { first })
            &&& running && facts.created == Some(Err::<(), u32>(code)) ==> step == AcceptStep::Fail(
                code,
            )
            &&& made && facts.connected is None ==> step == AcceptStep::WaitForClient
            &&& made && facts.connected == Some(Err::<(), u32>(code)) && code != 535 ==> step
                == AcceptStep::CloseAndFail(code)
            &&& joined && facts.stopped_after is None ==> step == AcceptStep::CheckStopAgain
            &&& joined && facts.stopped_after == Some(true) ==> step == AcceptStep::CloseInterrupted
            &&& joined && facts.stopped_after == Some(false) ==> step == AcceptStep::Accepted
        }),
{
}

} // verus!
