//! The accept loop as a state machine, and the cancellation flag it polls.
//!
//! The loop is either running or stopped. While it runs, each turn polls the
//! flag; if the flag is clear the loop waits for one connection, for a bounded
//! time, and hands an accepted connection to a new worker without waiting for
//! it. The loop stops when it sees the flag set or when accepting fails. It
//! puts no limit on the number of workers, and stopping does not wait for the
//! workers that are still busy.
//!
//! The functions here decide; whoever drives the loop performs the actions and
//! reports what happened as the next event.

use vstd::prelude::*;

verus! {

/// How long one accept attempt may wait, in milliseconds. This bounds the time
/// between a request to stop and the loop noticing it.
pub const ACCEPT_TIMEOUT_MS: u64 = 100;

/// The state of the accept loop.
#[derive(Debug, Clone, Copy, PartialEq, Eq, Structural)]
pub enum LoopState {
    Running,
    Stopped,
}

/// What the driver of the loop reports.
#[derive(Debug, Clone, Copy, PartialEq, Eq, Structural)]
pub enum LoopEvent {
    /// The cancellation flag was read, and this is what it held.
    Polled { cancelled: bool },
    /// A connection arrived within the wait.
    Accepted,
    /// The wait ran out with no connection.
    TimedOut,
    /// Accepting failed with an error that is not a timeout.
    AcceptFailed,
}

/// What the driver of the loop does next.
#[derive(Debug, Clone, Copy, PartialEq, Eq, Structural)]
pub enum LoopAction {
    /// Wait for one connection, at most this many milliseconds.
    Accept { timeout_ms: u64 },
    /// Hand the accepted connection to a new worker, then poll the flag.
    Dispatch,
    /// Poll the cancellation flag.
    Poll,
    /// Release the listener and return.
    Finish,
}

/// The state that follows `state` on `event`.
pub open spec fn next_state(state: LoopState, event: LoopEvent) -> LoopState {
    match state {
        LoopState::Stopped => LoopState::Stopped,
        LoopState::Running => match event {
            LoopEvent::Polled { cancelled: true } => LoopState::Stopped,
            LoopEvent::AcceptFailed => LoopState::Stopped,
            _ => LoopState::Running,
        },
    }
}

/// The action that `event` calls for in `state`.
pub open spec fn next_action(state: LoopState, event: LoopEvent) -> LoopAction {
    match state {
        LoopState::Stopped => LoopAction::Finish,
        LoopState::Running => match event {
            LoopEvent::Polled { cancelled: true } => LoopAction::Finish,
            LoopEvent::Polled { cancelled: false } => LoopAction::Accept {
                timeout_ms: ACCEPT_TIMEOUT_MS,
            },
            LoopEvent::Accepted => LoopAction::Dispatch,
            LoopEvent::TimedOut => LoopAction::Poll,
            LoopEvent::AcceptFailed => LoopAction::Finish,
        },
    }
}

/// The state after the events of `events` have been taken in order from `state`.
pub open spec fn state_after(state: LoopState, events: Seq<LoopEvent>) -> LoopState
    decreases events.len(),
{
    if events.len() == 0 {
        state
    } else {
        next_state(state_after(state, events.drop_last()), events.last())
    }
}

/// The state in which a loop starts.
pub fn start() -> (state: LoopState)
    ensures
        state == LoopState::Running,
{
    LoopState::Running
}

/// The action with which a loop starts: the first poll of the flag.
pub fn first_action() -> (action: LoopAction)
    ensures
        action == LoopAction::Poll,
{
    LoopAction::Poll
}

/// One transition of the accept loop: the next state and what to do now.
pub fn step(state: LoopState, event: LoopEvent) -> (next: (LoopState, LoopAction))
    ensures
        next.0 == next_state(state, event),
        next.1 == next_action(state, event),
        next.0 == LoopState::Stopped <==> next.1 == LoopAction::Finish,
{
    match state {
        LoopState::Stopped => (LoopState::Stopped, LoopAction::Finish),
        LoopState::Running => match event {
            LoopEvent::Polled { cancelled } => {
                if cancelled {
                    (LoopState::Stopped, LoopAction::Finish)
                } else {
                    (LoopState::Running, LoopAction::Accept { timeout_ms: ACCEPT_TIMEOUT_MS })
                }
            },
            LoopEvent::Accepted => (LoopState::Running, LoopAction::Dispatch),
            LoopEvent::TimedOut => (LoopState::Running, LoopAction::Poll),
            LoopEvent::AcceptFailed => (LoopState::Stopped, LoopAction::Finish),
        },
    }
}

/// What one try to accept, made without waiting, came to.
#[derive(Debug, Clone, Copy, PartialEq, Eq, Structural)]
pub enum AcceptOutcome {
    /// A connection was there.
    Connected,
    /// No connection was waiting.
    NotReady,
    /// Accepting failed with an error of another kind.
    Failed,
}

/// What a try to accept reports to the loop after `waited_ms` of a wait of
/// `timeout_ms`, if it reports anything yet.
pub open spec fn accept_event_of(outcome: AcceptOutcome, waited_ms: u64, timeout_ms: u64) -> Option<
    LoopEvent,
> {
    match outcome {
        AcceptOutcome::Connected => Some(LoopEvent::Accepted),
        AcceptOutcome::Failed => Some(LoopEvent::AcceptFailed),
        AcceptOutcome::NotReady => if waited_ms >= timeout_ms {
            Some(LoopEvent::TimedOut)
        } else {
            None
        },
    }
}

/// Turns one try to accept into what the loop is told: a connection or a
/// failure at once, a timeout once the wait has run out, and nothing while
/// there is still time to try again.
pub fn accept_event(outcome: AcceptOutcome, waited_ms: u64, timeout_ms: u64) -> (event: Option<
    LoopEvent,
>)
    ensures
        event == accept_event_of(outcome, waited_ms, timeout_ms),
{
    match outcome {
        AcceptOutcome::Connected => Some(LoopEvent::Accepted),
        AcceptOutcome::Failed => Some(LoopEvent::AcceptFailed),
        AcceptOutcome::NotReady => {
            if waited_ms >= timeout_ms {
                Some(LoopEvent::TimedOut)
            } else {
                None
            }
        },
    }
}

/// A cancellation flag: clear when made, set by whoever asks the server to
/// stop, and read by the accept loop without blocking. Once set it stays set.
#[derive(Debug, Clone, Copy, PartialEq, Eq, Structural)]
pub struct ShutdownSignal {
    fired: bool,
}

impl ShutdownSignal {
    /// Whether the flag is set.
    pub closed spec fn raised(self) -> bool {
        self.fired
    }

    /// The flag after it has been set.
    pub closed spec fn after_set(self) -> ShutdownSignal {
        ShutdownSignal { fired: true }
    }

    /// What a poll of this flag reports to the loop.
    pub open spec fn poll_event(self) -> LoopEvent {
        LoopEvent::Polled { cancelled: self.raised() }
    }

    /// A flag that is clear.
    pub fn new() -> (signal: ShutdownSignal)
        ensures
            !signal.raised(),
    {
        ShutdownSignal { fired: false }
    }

    /// Sets the flag.
    pub fn set(&mut self)
        ensures
            *final(self) == old(self).after_set(),
            final(self).raised(),
    {
        self.fired = true;
    }

    /// Whether the flag is set.
    pub fn is_set(&self) -> (set: bool)
        ensures
            set == self.raised(),
    {
        self.fired
    }

    /// Reads the flag for the accept loop.
    pub fn poll(&self) -> (event: LoopEvent)
        ensures
            event == self.poll_event(),
    {
        LoopEvent::Polled { cancelled: self.fired }
    }
}

/// Setting the flag twice leaves it as setting it once does: set. Either way
/// the next poll stops a running loop, with the action `Finish`.
pub proof fn lemma_set_is_idempotent(signal: ShutdownSignal)
    ensures
        signal.after_set().raised(),
        signal.after_set().after_set() == signal.after_set(),
        signal.after_set().after_set().poll_event() == signal.after_set().poll_event(),
        next_state(LoopState::Running, signal.after_set().poll_event()) == LoopState::Stopped,
        next_action(LoopState::Running, signal.after_set().poll_event()) == LoopAction::Finish,
{
}

/// A stopped loop stays stopped, whatever is reported to it.
pub proof fn lemma_stopped_is_final(events: Seq<LoopEvent>)
    ensures
        state_after(LoopState::Stopped, events) == LoopState::Stopped,
    decreases events.len(),
{
    if events.len() > 0 {
        lemma_stopped_is_final(events.drop_last());
    }
}

/// The loop is stopped exactly when it has been told that the flag is set or
/// that accepting failed.
pub proof fn lemma_stops_exactly_on_cancel_or_failure(events: Seq<LoopEvent>)
    ensures
        state_after(LoopState::Running, events) == LoopState::Stopped <==> exists|i: int|
            0 <= i < events.len() && (#[trigger] events[i] == LoopEvent::Polled { cancelled: true }
                || events[i] == LoopEvent::AcceptFailed),
    decreases events.len(),
{
    if events.len() > 0 {
        let earlier = events.drop_last();
        lemma_stops_exactly_on_cancel_or_failure(earlier);
        let stops = |e: LoopEvent| e == LoopEvent::Polled { cancelled: true } || e == LoopEvent::AcceptFailed;
        if exists|i: int| 0 <= i < earlier.len() && stops(#[trigger] earlier[i]) {
            let i = choose|i: int| 0 <= i < earlier.len() && stops(#[trigger] earlier[i]);
            assert(events[i] == earlier[i]);
        }
        if exists|i: int| 0 <= i < events.len() && stops(#[trigger] events[i]) {
            let i = choose|i: int| 0 <= i < events.len() && stops(#[trigger] events[i]);
            if i < earlier.len() {
                assert(earlier[i] == events[i]);
            }
        }
    }
}

} // verus!
