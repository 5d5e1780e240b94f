//! What holds of a session over one event and over runs of events, and what a session's
//! requests make of the store.

use crate::session::{
    next_state, response, Action, CloseReason, Event, SessionState, TICK_DELTA, TICK_MILLIS,
};
use crate::store::advanced;
use crate::store_laws::advanced_times;
use vstd::prelude::*;

verus! {

/// A closed session stays closed for the same reason, and asks only to be released.
pub proof fn lemma_closed_is_final(reason: CloseReason, event: Event)
    ensures
        next_state(SessionState::Closed(reason), event) == SessionState::Closed(reason),
        response(SessionState::Closed(reason), event) == Action::Close,
{
}

/// A session is closed only by a failure to encode while it observes, by a failure to
/// send while it transmits, or by the end of the connection; and it then asks to be
/// released.
pub proof fn lemma_closes_only_on_failure(state: SessionState, event: Event)
    requires
        !(state is Closed),
        next_state(state, event) is Closed,
    ensures
        next_state(state, event) == SessionState::Closed(
            if event is Disconnected {
                CloseReason::Disconnected
            } else if event is EncodeFailed {
                CloseReason::SerializationFailure
            } else {
                CloseReason::TransmitFailure
            },
        ),
        event is Disconnected || (state is Observing && event is EncodeFailed) || (state
            is Transmitting && event is SendFailed),
        response(state, event) == Action::Close,
{
}

/// A session asks for an advance exactly when it is told that the message it was
/// transmitting was sent, and then by `TICK_DELTA`.
pub proof fn lemma_advance_follows_sent(state: SessionState, event: Event)
    ensures
        response(state, event) is Advance <==> state is Transmitting && event is Sent,
        response(state, event) is Advance ==> response(state, event) == Action::Advance(
            TICK_DELTA,
        ) && next_state(state, event) is Advancing,
{
}

/// A session asks for a wait exactly when it is told that the store was advanced as it
/// had asked, and then for `TICK_MILLIS`.
pub proof fn lemma_wait_follows_advanced(state: SessionState, event: Event)
    ensures
        response(state, event) is Wait <==> state is Advancing && event is Advanced,
        response(state, event) is Wait ==> response(state, event) == Action::Wait(TICK_MILLIS),
{
}

/// A session asks for a snapshot exactly when it starts to stream and when a tick is
/// over.
pub proof fn lemma_observe_starts_a_cycle(state: SessionState, event: Event)
    ensures
        response(state, event) is Observe <==> (state is Connected && event is Upgraded) || (state
            is Waiting && event is TickElapsed),
{
}

/// The state of a session after a run of events, the first of `events` first.
pub open spec fn run(state: SessionState, events: Seq<Event>) -> SessionState
    decreases events.len(),
{
    if events.len() == 0 {
        state
    } else {
        next_state(run(state, events.drop_last()), events.last())
    }
}

/// What a session asks for in the course of a run of events, one request for each event.
pub open spec fn answers(state: SessionState, events: Seq<Event>) -> Seq<Action>
    decreases events.len(),
{
    if events.len() == 0 {
        Seq::empty()
    } else {
        answers(state, events.drop_last()).push(
            response(run(state, events.drop_last()), events.last()),
        )
    }
}

/// The raw values after the requests `actions` were carried out on the store, the first
/// of them first. Only a request to advance changes the raw values.
pub open spec fn carried_out(raw: Map<Seq<char>, i128>, actions: Seq<Action>) -> Map<
    Seq<char>,
    i128,
>
    decreases actions.len(),
{
    if actions.len() == 0 {
        raw
    } else {
        let before = carried_out(raw, actions.drop_last());
        match actions.last() {
            Action::Advance(delta) => advanced(before, delta),
            _ => before,
        }
    }
}

/// The events of `k` cycles in which nothing fails.
pub open spec fn cycles(k: nat) -> Seq<Event>
    decreases k,
{
    if k == 0 {
        Seq::empty()
    } else {
        cycles((k - 1) as nat).push(Event::Encoded).push(Event::Sent).push(Event::Advanced).push(
            Event::TickElapsed,
        )
    }
}

/// Once closed, a session is closed after every further run of events.
pub proof fn lemma_run_stays_closed(reason: CloseReason, events: Seq<Event>)
    ensures
        run(SessionState::Closed(reason), events) == SessionState::Closed(reason),
    decreases events.len(),
{
    if events.len() > 0 {
        lemma_run_stays_closed(reason, events.drop_last());
    }
}

/// A session that observes and goes through `k` cycles in which nothing fails observes
/// again afterwards, and carrying out its requests advances the store `k` times by
/// `TICK_DELTA`.
pub proof fn lemma_cycles_advance(raw: Map<Seq<char>, i128>, k: nat)
    ensures
        run(SessionState::Observing, cycles(k)) == SessionState::Observing,
        answers(SessionState::Observing, cycles(k)).len() == 4 * k,
        carried_out(raw, answers(SessionState::Observing, cycles(k))) == advanced_times(
            raw,
            TICK_DELTA,
            k,
        ),
    decreases k,
{
    let start = SessionState::Observing;
    if k > 0 {
        let e0 = cycles((k - 1) as nat);
        let e1 = e0.push(Event::Encoded);
        let e2 = e1.push(Event::Sent);
        let e3 = e2.push(Event::Advanced);
        let e4 = e3.push(Event::TickElapsed);
        lemma_cycles_advance(raw, (k - 1) as nat);
        assert(e1.drop_last() == e0);
        assert(e2.drop_last() == e1);
        assert(e3.drop_last() == e2);
        assert(e4.drop_last() == e3);
        assert(run(start, e1) == SessionState::Transmitting);
        assert(run(start, e2) == SessionState::Advancing);
        assert(run(start, e3) == SessionState::Waiting);
        assert(run(start, e4) == SessionState::Observing);
        let a0 = answers(start, e0);
        let a1 = a0.push(Action::Transmit);
        let a2 = a1.push(Action::Advance(TICK_DELTA));
        let a3 = a2.push(Action::Wait(TICK_MILLIS));
        let a4 = a3.push(Action::Observe);
        assert(answers(start, e1) == a1);
        assert(answers(start, e2) == a2);
        assert(answers(start, e3) == a3);
        assert(answers(start, e4) == a4);
        assert(a1.drop_last() == a0);
        assert(a2.drop_last() == a1);
        assert(a3.drop_last() == a2);
        assert(a4.drop_last() == a3);
        assert(carried_out(raw, a1) == carried_out(raw, a0));
        assert(carried_out(raw, a2) == advanced(carried_out(raw, a0), TICK_DELTA));
        assert(carried_out(raw, a3) == carried_out(raw, a2));
        assert(carried_out(raw, a4) == carried_out(raw, a3));
    }
}

} // verus!
