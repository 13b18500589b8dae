//! Waiting for mpv to listen, and for threads to end.
use vstd::prelude::*;

verus! {

/// How often a connection to mpv is attempted.
pub const CONNECT_ATTEMPTS: u32 = 100;

/// How long to wait after an attempt that failed, in milliseconds.
pub const CONNECT_PAUSE_MS: u64 = 50;

/// How long to wait between two looks at a thread that should end, in
/// milliseconds.
pub const JOIN_PAUSE_MS: u64 = 10;

/// A series of attempts to connect to mpv, run in the background.
///
/// mpv opens its end some time after it has been started, so the first attempts
/// may fail. Nobody waits for this series: the time it takes costs no one
/// anything.
pub struct Connector {
    /// The generation of the stream that the connection is for.
    pub generation: u64,
    /// How many attempts have failed.
    pub failures: u32,
}

/// What follows an attempt to connect.
#[derive(Clone, Copy, Debug, PartialEq, Eq, Structural)]
pub enum ConnectStep {
    /// Hand the connection over, marked with the generation, and end.
    HandOver { generation: u64 },
    /// Wait, then try again.
    Retry { pause_ms: u64 },
    /// Wait, then give up.
    GiveUp { pause_ms: u64 },
    /// End with nothing to hand over.
    Abandon,
}

/// How an attempt to connect went.
#[derive(Clone, Copy, Debug, PartialEq, Eq, Structural)]
pub enum Attempt {
    /// There is a connection, with a second handle to read from.
    Connected,
    /// There is a connection, but no second handle could be had.
    NoReader,
    /// Nobody listens.
    Failed,
}

impl Connector {
    /// The series is not at its end.
    pub open spec fn running(self) -> bool {
        self.failures < CONNECT_ATTEMPTS
    }

    /// A series of attempts on behalf of the stream `generation`.
    pub fn new(generation: u64) -> (connector: Connector)
        ensures
            connector == (Connector { generation, failures: 0 }),
            connector.running(),
    {
        Connector { generation, failures: 0 }
    }

    /// Take in how an attempt went.
    pub fn attempted(&mut self, attempt: Attempt) -> (next: ConnectStep)
        requires
            old(self).running(),
        ensures
            final(self).generation == old(self).generation,
            final(self).failures == old(self).failures + if attempt is Failed {
                1int
            } else {
                0
            },
            next == (match attempt {
                Attempt::Connected => ConnectStep::HandOver { generation: old(self).generation },
                Attempt::NoReader => ConnectStep::Abandon,
                Attempt::Failed => if final(self).running() {
                    ConnectStep::Retry { pause_ms: CONNECT_PAUSE_MS }
                } else {
                    ConnectStep::GiveUp { pause_ms: CONNECT_PAUSE_MS }
                },
            }),
    {
        match attempt {
            Attempt::Connected => ConnectStep::HandOver { generation: self.generation },
            Attempt::NoReader => ConnectStep::Abandon,
            Attempt::Failed => {
                self.failures = self.failures + 1;
                if self.failures < CONNECT_ATTEMPTS {
                    ConnectStep::Retry { pause_ms: CONNECT_PAUSE_MS }
                } else {
                    ConnectStep::GiveUp { pause_ms: CONNECT_PAUSE_MS }
                }
            },
        }
    }
}

/// How long a series has waited by the time of so many failures, in
/// milliseconds.
pub open spec fn waited_ms(failures: nat) -> nat
    decreases failures,
{
    if failures == 0 {
        0
    } else {
        waited_ms((failures - 1) as nat) + CONNECT_PAUSE_MS as nat
    }
}

/// A series gives up after five seconds of waiting, and not before.
pub proof fn law_connecting_waits_five_seconds(connector: Connector)
    ensures
        connector.running() <==> waited_ms(connector.failures as nat) < 5000,
{
    lemma_waited(connector.failures as nat);
}

proof fn lemma_waited(failures: nat)
    ensures
        waited_ms(failures) == 50 * failures,
    decreases failures,
{
    if failures > 0 {
        lemma_waited((failures - 1) as nat);
    }
}

/// What to do about a thread that has been told to end.
#[derive(Clone, Copy, Debug, PartialEq, Eq, Structural)]
pub enum JoinStep {
    /// It has ended: join it.
    Join,
    /// It has had its time: leave it alone.
    GiveUp,
    /// Look again after this pause.
    Wait { pause_ms: u64 },
}

/// What to do about a thread that has been waited for `waited_ns` nanoseconds
/// so far, where `limit_ms` milliseconds are allowed. A thread that has ended
/// is joined even if its time is up.
pub fn join_step(finished: bool, waited_ns: u128, limit_ms: u64) -> (step: JoinStep)
    ensures
        step == (if finished {
            JoinStep::Join
        } else if waited_ns > limit_ms * 1_000_000 {
            JoinStep::GiveUp
        } else {
            JoinStep::Wait { pause_ms: JOIN_PAUSE_MS }
        }),
{
    if finished {
        JoinStep::Join
    } else if waited_ns > limit_ms as u128 * 1_000_000 {
        JoinStep::GiveUp
    } else {
        JoinStep::Wait { pause_ms: JOIN_PAUSE_MS }
    }
}

/// A series of attempts starts with none failed, for the stream it is meant for.
pub proof fn law_a_series_starts_from_nothing(generation: u64, connector: Connector)
    requires
        call_ensures(Connector::new, (generation,), connector),
    ensures
        connector.generation == generation,
        connector.failures == 0,
        connector.running(),
{
}

/// A connection is handed over at once, marked with the generation that the
/// series was started for. One without a second handle ends the series. An
/// attempt that fails is followed by a pause of 50 ms and, up to the hundredth,
/// by another one.
pub proof fn law_what_follows_an_attempt(connector: &mut Connector, attempt: Attempt, next: ConnectStep)
    requires
        old(connector).failures < 100,
        call_ensures(Connector::attempted, (connector, attempt), next),
    ensures
        attempt is Connected ==> next == (ConnectStep::HandOver { generation: old(connector).generation }),
        attempt is NoReader ==> next is Abandon,
        attempt is Failed && old(connector).failures < 99 ==> next == (ConnectStep::Retry { pause_ms: 50 }),
        attempt is Failed && old(connector).failures == 99 ==> next == (ConnectStep::GiveUp { pause_ms: 50 }),
        attempt is Failed ==> final(connector).failures == old(connector).failures + 1,
        !(attempt is Failed) ==> final(connector).failures == old(connector).failures,
        final(connector).generation == old(connector).generation,
{
}

/// A thread that has ended is joined, however long it took. One that has not is
/// looked at every 10 ms, as long as the limit has not been passed, and then
/// left alone.
pub proof fn law_waiting_for_a_thread(finished: bool, waited_ns: u128, limit_ms: u64, step: JoinStep)
    requires
        call_ensures(join_step, (finished, waited_ns, limit_ms), step),
    ensures
        step is Join <==> finished,
        !finished && waited_ns <= limit_ms * 1_000_000 ==> step == (JoinStep::Wait { pause_ms: 10 }),
        !finished && waited_ns > limit_ms * 1_000_000 ==> step is GiveUp,
{
}

/// A series can be started for any generation and takes any outcome as long as
/// fewer than a hundred attempts have failed; any thread can be waited for.
pub proof fn law_any_outcome_can_be_taken(
    generation: u64,
    connector: &mut Connector,
    attempt: Attempt,
    finished: bool,
    waited_ns: u128,
    limit_ms: u64,
)
    ensures
        call_requires(Connector::new, (generation,)),
        old(connector).failures < 100 ==> call_requires(Connector::attempted, (connector, attempt)),
        call_requires(join_step, (finished, waited_ns, limit_ms)),
{
}

} // verus!
