//! The streaming session: what one connected listener's loop decides.
//!
//! A session does no work itself. It is told what happened, as an [`Event`], and answers
//! with what to do next, as an [`Action`]; whoever owns the connection and the store
//! performs the action and reports back. While it streams, a session goes round one
//! cycle: observe the store, transmit what was observed, advance the store, wait.

use vstd::prelude::*;

verus! {

/// By how much a session advances every raw value in each cycle: the nearest double to
/// 0.005, which is exactly this many units of 2^-60.
pub const TICK_DELTA: i128 = 0x14_7AE1_47AE_147B;

/// The time from the start of one cycle to the start of the next, in milliseconds.
pub const TICK_MILLIS: u64 = 10;

/// Why a session was closed.
#[derive(Clone, Copy, Debug, PartialEq, Eq, Structural)]
pub enum CloseReason {
    /// What was observed could not be encoded.
    SerializationFailure,
    /// The message could not be handed to the listener.
    TransmitFailure,
    /// The connection ended.
    Disconnected,
}

/// The three phases of a session's life.
#[derive(Clone, Copy, Debug, PartialEq, Eq, Structural)]
pub enum Phase {
    Connected,
    Streaming,
    Closed,
}

/// Where a session stands: connected and not yet streaming, at one of the four points of
/// the streaming cycle, or closed.
#[derive(Clone, Copy, Debug, PartialEq, Eq, Structural)]
pub enum SessionState {
    /// The connection is made and nothing was sent yet.
    Connected,
    /// The store is being observed and what it shows encoded.
    Observing,
    /// The encoded message is being transmitted.
    Transmitting,
    /// The store is being advanced.
    Advancing,
    /// The rest of the tick is being waited for.
    Waiting,
    /// The session is over.
    Closed(CloseReason),
}

/// What a session is told.
#[derive(Clone, Copy, Debug, PartialEq, Eq, Structural)]
pub enum Event {
    /// The connection was handed over to the session.
    Upgraded,
    /// The store was observed and the message encoded.
    Encoded,
    /// The message could not be encoded.
    EncodeFailed,
    /// The listener took the message.
    Sent,
    /// The message could not be transmitted.
    SendFailed,
    /// The store was advanced.
    Advanced,
    /// The tick is over.
    TickElapsed,
    /// The connection ended.
    Disconnected,
}

/// What a session asks for.
#[derive(Clone, Copy, Debug, PartialEq, Eq, Structural)]
pub enum Action {
    /// Nothing new: the event did not answer what the session is waiting for.
    Idle,
    /// Take a snapshot of the store and encode it.
    Observe,
    /// Transmit the encoded message.
    Transmit,
    /// Advance the store by this much.
    Advance(i128),
    /// Wait until this many milliseconds have passed since the cycle began.
    Wait(u64),
    /// Release the connection: the session is over.
    Close,
}

/// The phase that a state belongs to.
pub open spec fn phase_of(state: SessionState) -> Phase {
    match state {
        SessionState::Connected => Phase::Connected,
        SessionState::Closed(_) => Phase::Closed,
        _ => Phase::Streaming,
    }
}

/// Whether `event` is the good answer to what a session in `state` is waiting for.
pub open spec fn proceeds(state: SessionState, event: Event) -> bool {
    match (state, event) {
        (SessionState::Connected, Event::Upgraded) => true,
        (SessionState::Observing, Event::Encoded) => true,
        (SessionState::Transmitting, Event::Sent) => true,
        (SessionState::Advancing, Event::Advanced) => true,
        (SessionState::Waiting, Event::TickElapsed) => true,
        _ => false,
    }
}

/// The failure, if any, that `event` is to a session in `state`.
pub open spec fn failure(state: SessionState, event: Event) -> Option<CloseReason> {
    match (state, event) {
        (SessionState::Closed(_), _) => None,
        (_, Event::Disconnected) => Some(CloseReason::Disconnected),
        (SessionState::Observing, Event::EncodeFailed) => Some(CloseReason::SerializationFailure),
        (SessionState::Transmitting, Event::SendFailed) => Some(CloseReason::TransmitFailure),
        _ => None,
    }
}

/// The state that follows `state` in the cycle.
pub open spec fn successor(state: SessionState) -> SessionState {
    match state {
        SessionState::Connected => SessionState::Observing,
        SessionState::Observing => SessionState::Transmitting,
        SessionState::Transmitting => SessionState::Advancing,
        SessionState::Advancing => SessionState::Waiting,
        SessionState::Waiting => SessionState::Observing,
        SessionState::Closed(reason) => SessionState::Closed(reason),
    }
}

/// What a session asks for when it enters `state`.
pub open spec fn entry_action(state: SessionState) -> Action {
    match state {
        SessionState::Connected => Action::Idle,
        SessionState::Observing => Action::Observe,
        SessionState::Transmitting => Action::Transmit,
        SessionState::Advancing => Action::Advance(TICK_DELTA),
        SessionState::Waiting => Action::Wait(TICK_MILLIS),
        SessionState::Closed(_) => Action::Close,
    }
}

/// The state of a session after `event`: a failure closes it, the good answer moves it
/// on in the cycle, and any other event leaves it where it is.
pub open spec fn next_state(state: SessionState, event: Event) -> SessionState {
    match failure(state, event) {
        Some(reason) => SessionState::Closed(reason),
        None => if proceeds(state, event) {
            successor(state)
        } else {
            state
        },
    }
}

/// What a session in `state` asks for in answer to `event`.
pub open spec fn response(state: SessionState, event: Event) -> Action {
    if state is Closed || failure(state, event) is Some {
        Action::Close
    } else if proceeds(state, event) {
        entry_action(successor(state))
    } else {
        Action::Idle
    }
}

/// One streaming session.
pub struct StreamSession {
    state: SessionState,
}

impl View for StreamSession {
    type V = SessionState;

    closed spec fn view(&self) -> SessionState {
        self.state
    }
}

impl StreamSession {
    /// A session whose connection was made and that does not stream yet.
    pub fn new() -> (session: Self)
        ensures
            session@ == SessionState::Connected,
    {
        StreamSession { state: SessionState::Connected }
    }

    /// Where the session stands.
    pub fn state(&self) -> (state: SessionState)
        ensures
            state == self@,
    {
        self.state
    }

    /// The phase of the session.
    pub fn phase(&self) -> (phase: Phase)
        ensures
            phase == phase_of(self@),
    {
        match self.state {
            SessionState::Connected => Phase::Connected,
            SessionState::Closed(_) => Phase::Closed,
            _ => Phase::Streaming,
        }
    }

    /// Whether the session is over.
    pub fn is_closed(&self) -> (closed: bool)
        ensures
            closed == (self@ is Closed),
    {
        match self.state {
            SessionState::Closed(_) => true,
            _ => false,
        }
    }

    /// Why the session was closed, if it was.
    pub fn close_reason(&self) -> (reason: Option<CloseReason>)
        ensures
            reason == match self@ {
                SessionState::Closed(why) => Some(why),
                _ => None,
            },
    {
        match self.state {
            SessionState::Closed(why) => Some(why),
            _ => None,
        }
    }

    /// Tells the session what happened. The session moves to the state that follows and
    /// answers with what to do next.
    pub fn handle(&mut self, event: Event) -> (action: Action)
        ensures
            final(self)@ == next_state(old(self)@, event),
            action == response(old(self)@, event),
    {
        let (state, action) = match self.state {
            SessionState::Closed(reason) => (SessionState::Closed(reason), Action::Close),
            current => match event {
                Event::Disconnected => (
                    SessionState::Closed(CloseReason::Disconnected),
                    Action::Close,
                ),
                other => match (current, other) {
                    (SessionState::Connected, Event::Upgraded) => (
                        SessionState::Observing,
                        Action::Observe,
                    ),
                    (SessionState::Observing, Event::Encoded) => (
                        SessionState::Transmitting,
                        Action::Transmit,
                    ),
                    (SessionState::Observing, Event::EncodeFailed) => (
                        SessionState::Closed(CloseReason::SerializationFailure),
                        Action::Close,
                    ),
                    (SessionState::Transmitting, Event::Sent) => (
                        SessionState::Advancing,
                        Action::Advance(TICK_DELTA),
                    ),
                    (SessionState::Transmitting, Event::SendFailed) => (
                        SessionState::Closed(CloseReason::TransmitFailure),
                        Action::Close,
                    ),
                    (SessionState::Advancing, Event::Advanced) => (
                        SessionState::Waiting,
                        Action::Wait(TICK_MILLIS),
                    ),
                    (SessionState::Waiting, Event::TickElapsed) => (
                        SessionState::Observing,
                        Action::Observe,
                    ),
                    (unmoved, _) => (unmoved, Action::Idle),
                },
            },
        };
        self.state = state;
        action
    }
}

} // verus!
