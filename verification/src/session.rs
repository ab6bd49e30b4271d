//! The life of one observer session.
//!
//! A session runs two halves side by side: the outbound half forwards events
//! to the observer, the inbound half reads what the observer sends. When
//! either half ends, the other is cancelled, and the session is released only
//! after both have stopped.
//!
//! Nothing here waits or performs I/O. The runner reports what happened; the
//! functions of this module answer what to do next.

use crate::hub::Delivery;
use crate::wire::{to_wire, wire_text};
use vstd::prelude::*;

verus! {

/// One of the two directions of a session.
#[derive(Clone, Copy, Debug, PartialEq, Eq, Structural)]
pub enum Half {
    /// Forwards events from the subscriber to the observer.
    Outbound,
    /// Reads from the observer.
    Inbound,
}

/// Where a session stands.
#[derive(Clone, Copy, Debug, PartialEq, Eq, Structural)]
pub enum SessionState {
    /// Both halves are running.
    Open,
    /// One half has ended; the other has been told to stop and has not yet
    /// been reported as stopped.
    Closing { awaiting: Half },
    /// Both halves have stopped and the connection is released.
    Closed,
}

/// What the runner of a session must do next.
#[derive(Clone, Copy, Debug, PartialEq, Eq, Structural)]
pub enum SessionAction {
    /// Cancel the given half, forcibly.
    Cancel(Half),
    /// Release the connection and the subscription.
    Release,
}

/// The other half.
pub open spec fn counterpart(half: Half) -> Half {
    match half {
        Half::Outbound => Half::Inbound,
        Half::Inbound => Half::Outbound,
    }
}

/// Whether a half is still running in a given state.
pub open spec fn is_running(state: SessionState, half: Half) -> bool {
    match state {
        SessionState::Open => true,
        SessionState::Closing { awaiting } => half == awaiting,
        SessionState::Closed => false,
    }
}

/// The state after `stopped` has been reported as no longer running.
pub open spec fn state_after_stop(state: SessionState, stopped: Half) -> SessionState {
    match state {
        SessionState::Open => SessionState::Closing { awaiting: counterpart(stopped) },
        SessionState::Closing { awaiting } => if stopped == awaiting {
            SessionState::Closed
        } else {
            state
        },
        SessionState::Closed => SessionState::Closed,
    }
}

/// What the runner is told to do when `stopped` is reported in `state`.
pub open spec fn action_on_stop(state: SessionState, stopped: Half) -> Option<SessionAction> {
    match state {
        SessionState::Open => Some(SessionAction::Cancel(counterpart(stopped))),
        SessionState::Closing { awaiting } => if stopped == awaiting {
            Some(SessionAction::Release)
        } else {
            None
        },
        SessionState::Closed => None,
    }
}

/// The state after a sequence of reports, starting from `Open`.
pub open spec fn state_after_stops(stops: Seq<Half>) -> SessionState
    decreases stops.len(),
{
    if stops.len() == 0 {
        SessionState::Open
    } else {
        state_after_stop(state_after_stops(stops.drop_last()), stops.last())
    }
}

/// How many times the runner is told to release over a sequence of reports,
/// starting from `Open`.
pub open spec fn releases_over(stops: Seq<Half>) -> nat
    decreases stops.len(),
{
    if stops.len() == 0 {
        0
    } else {
        let before = releases_over(stops.drop_last());
        if action_on_stop(state_after_stops(stops.drop_last()), stops.last()) == Some(
            SessionAction::Release,
        ) {
            before + 1
        } else {
            before
        }
    }
}

/// The other half.
pub fn other_half(half: Half) -> (other: Half)
    ensures
        other == counterpart(half),
{
    match half {
        Half::Outbound => Half::Inbound,
        Half::Inbound => Half::Outbound,
    }
}

/// One observer session, from the moment both halves have been started.
pub struct Session {
    state: SessionState,
}

impl View for Session {
    type V = SessionState;

    closed spec fn view(&self) -> SessionState {
        self.state
    }
}

impl Session {
    /// A session whose two halves have just been started.
    pub fn open() -> (session: Session)
        ensures
            session@ == SessionState::Open,
    {
        Session { state: SessionState::Open }
    }

    /// Where the session stands.
    pub fn state(&self) -> (state: SessionState)
        ensures
            state == self@,
    {
        self.state
    }

    /// Whether the given half is still running.
    pub fn running(&self, half: Half) -> (running: bool)
        ensures
            running == is_running(self@, half),
    {
        match self.state {
            SessionState::Open => true,
            SessionState::Closing { awaiting } => match (half, awaiting) {
                (Half::Outbound, Half::Outbound) => true,
                (Half::Inbound, Half::Inbound) => true,
                _ => false,
            },
            SessionState::Closed => false,
        }
    }

    /// Whether both halves have stopped.
    pub fn is_closed(&self) -> (closed: bool)
        ensures
            closed == (self@ == SessionState::Closed),
            closed == (!is_running(self@, Half::Outbound) && !is_running(self@, Half::Inbound)),
    {
        match self.state {
            SessionState::Closed => true,
            _ => false,
        }
    }

    /// Reports that a half is no longer running, because it ended by itself
    /// or because its cancellation has taken effect.
    ///
    /// The first report, of either half, has the other half cancelled. The
    /// report of that other half closes the session and has the connection
    /// released. Any further report changes nothing and asks for nothing.
    pub fn half_stopped(&mut self, stopped: Half) -> (action: Option<SessionAction>)
        ensures
            final(self)@ == state_after_stop(old(self)@, stopped),
            action == action_on_stop(old(self)@, stopped),
            !is_running(final(self)@, stopped),
    {
        match self.state {
            SessionState::Open => {
                let other = other_half(stopped);
                self.state = SessionState::Closing { awaiting: other };
                Some(SessionAction::Cancel(other))
            },
            SessionState::Closing { awaiting } => {
                let awaited = match (stopped, awaiting) {
                    (Half::Outbound, Half::Outbound) => true,
                    (Half::Inbound, Half::Inbound) => true,
                    _ => false,
                };
                if awaited {
                    self.state = SessionState::Closed;
                    Some(SessionAction::Release)
                } else {
                    None
                }
            },
            SessionState::Closed => None,
        }
    }
}

/// What the outbound half does with a delivery.
#[derive(Clone, Debug, PartialEq, Eq)]
pub enum OutboundStep {
    /// Write this text to the observer, then take the next delivery.
    Forward(String),
    /// Take the next delivery.
    Wait,
    /// End the outbound half.
    Stop,
}

/// Decides what the outbound half does with a delivery whose event, if it
/// holds one, has been encoded already (`None` where encoding failed).
pub fn outbound_step_encoded(delivery: &Delivery, encoded: Option<String>) -> (step: OutboundStep)
    ensures
        match (*delivery, encoded) {
            (Delivery::Event(_), Some(text)) => step matches OutboundStep::Forward(t) && t@
                == text@,
            (Delivery::Event(_), None) => step is Stop,
            (Delivery::Empty, _) => step is Wait,
            (Delivery::Lagged(_), _) => step is Stop,
            (Delivery::Closed, _) => step is Stop,
        },
{
    match delivery {
        Delivery::Event(_) => match encoded {
            Some(text) => OutboundStep::Forward(text),
            None => OutboundStep::Stop,
        },
        Delivery::Empty => OutboundStep::Wait,
        Delivery::Lagged(_) => OutboundStep::Stop,
        Delivery::Closed => OutboundStep::Stop,
    }
}

/// Decides what the outbound half does with a delivery: an event is encoded
/// and forwarded, an empty poll is waited out, and lag or a closed hub end
/// the half.
pub fn outbound_step(delivery: &Delivery) -> (step: OutboundStep)
    ensures
        delivery matches Delivery::Event(event) ==> match wire_text(event@) {
            Some(encoded) => step matches OutboundStep::Forward(text) && text@ == encoded,
            None => step is Stop,
        },
        step is Wait <==> delivery is Empty,
        (delivery is Lagged || delivery is Closed) ==> step is Stop,
{
    let encoded: Option<String> = match delivery {
        Delivery::Event(event) => match to_wire(event) {
            Ok(text) => Some(text),
            Err(_) => None,
        },
        _ => None,
    };
    outbound_step_encoded(delivery, encoded)
}

/// What the inbound half read from the observer.
#[derive(Clone, Copy, Debug, PartialEq, Eq, Structural)]
pub enum InboundRead {
    /// A message; its payload is of no concern here.
    Message,
    /// The observer asked to close.
    Close,
    /// Reading failed.
    Failed,
    /// The observer is gone.
    Ended,
}

/// Whether the inbound half keeps reading after `read`: it does after a
/// message, and ends on a close signal, a failure or the end of the stream.
pub fn inbound_continues(read: InboundRead) -> (continues: bool)
    ensures
        continues == (read == InboundRead::Message),
{
    match read {
        InboundRead::Message => true,
        _ => false,
    }
}

/// Induction behind the laws of teardown: which states a run of reports can
/// reach, and how often it asks for release.
proof fn lemma_stops(stops: Seq<Half>)
    ensures
        match state_after_stops(stops) {
            SessionState::Open => stops.len() == 0 && releases_over(stops) == 0,
            SessionState::Closing { awaiting } => {
                &&& stops.len() > 0
                &&& !stops.contains(awaiting)
                &&& stops.contains(counterpart(awaiting))
                &&& releases_over(stops) == 0
            },
            SessionState::Closed => {
                &&& stops.contains(Half::Outbound)
                &&& stops.contains(Half::Inbound)
                &&& releases_over(stops) == 1
            },
        },
    decreases stops.len(),
{
    if stops.len() > 0 {
        let front = stops.drop_last();
        let last = stops.last();
        lemma_stops(front);
        assert(stops[stops.len() - 1] == last);
        assert forall|h: Half| front.contains(h) implies stops.contains(h) by {
            let i = choose|i: int| 0 <= i < front.len() && front[i] == h;
            assert(stops[i] == h);
        }
        assert forall|h: Half| stops.contains(h) && h != last implies front.contains(h) by {
            let i = choose|i: int| 0 <= i < stops.len() && stops[i] == h;
            assert(front[i] == h);
        }
    }
}

/// Teardown symmetry: whichever half ends first, the other is cancelled at
/// once, and when that one is reported stopped the session is closed, no
/// half is left running, and the connection is released.
pub proof fn lemma_teardown_symmetry(first: Half)
    ensures
        action_on_stop(SessionState::Open, first) == Some(
            SessionAction::Cancel(counterpart(first)),
        ),
        state_after_stop(SessionState::Open, first) == (SessionState::Closing {
            awaiting: counterpart(first),
        }),
        action_on_stop(state_after_stop(SessionState::Open, first), counterpart(first)) == Some(
            SessionAction::Release,
        ),
        state_after_stop(state_after_stop(SessionState::Open, first), counterpart(first))
            == SessionState::Closed,
        !is_running(SessionState::Closed, Half::Outbound),
        !is_running(SessionState::Closed, Half::Inbound),
{
}

/// Over any run of reports, a session is closed exactly when both halves
/// have been reported stopped, and the connection is released exactly once
/// if it is closed and not at all before.
pub proof fn lemma_closed_iff_both_stopped(stops: Seq<Half>)
    ensures
        state_after_stops(stops) == SessionState::Closed <==> (stops.contains(Half::Outbound)
            && stops.contains(Half::Inbound)),
        releases_over(stops) == (if state_after_stops(stops) == SessionState::Closed {
            1nat
        } else {
            0nat
        }),
{
    lemma_stops(stops);
}

} // verus!
