use ws::fixed::ONE;
use ws::session::{
    Action, CloseReason, Event, Phase, SessionState, StreamSession, TICK_DELTA, TICK_MILLIS,
};

const EVENTS: [Event; 8] = [
    Event::Upgraded,
    Event::Encoded,
    Event::EncodeFailed,
    Event::Sent,
    Event::SendFailed,
    Event::Advanced,
    Event::TickElapsed,
    Event::Disconnected,
];

fn session_in(state: SessionState) -> StreamSession {
    let mut session = StreamSession::new();
    let path: Vec<Event> = match state {
        SessionState::Connected => vec![],
        SessionState::Observing => vec![Event::Upgraded],
        SessionState::Transmitting => vec![Event::Upgraded, Event::Encoded],
        SessionState::Advancing => vec![Event::Upgraded, Event::Encoded, Event::Sent],
        SessionState::Waiting => {
            vec![Event::Upgraded, Event::Encoded, Event::Sent, Event::Advanced]
        }
        SessionState::Closed(CloseReason::SerializationFailure) => {
            vec![Event::Upgraded, Event::EncodeFailed]
        }
        SessionState::Closed(CloseReason::TransmitFailure) => {
            vec![Event::Upgraded, Event::Encoded, Event::SendFailed]
        }
        SessionState::Closed(CloseReason::Disconnected) => vec![Event::Disconnected],
    };
    for event in path {
        session.handle(event);
    }
    assert_eq!(session.state(), state);
    session
}

#[test]
fn tick_delta_is_five_thousandths() {
    assert_eq!(TICK_DELTA, 5764607523034235);
    assert_eq!(TICK_DELTA as f64 / ONE as f64, 0.005);
}

#[test]
fn tick_is_ten_milliseconds() {
    assert_eq!(TICK_MILLIS, 10);
}

#[test]
fn new_session_is_connected() {
    let session = StreamSession::new();
    assert_eq!(session.state(), SessionState::Connected);
    assert_eq!(session.phase(), Phase::Connected);
    assert!(!session.is_closed());
    assert_eq!(session.close_reason(), None);
}

#[test]
fn upgrade_starts_streaming_with_an_observation() {
    let mut session = StreamSession::new();
    assert_eq!(session.handle(Event::Upgraded), Action::Observe);
    assert_eq!(session.state(), SessionState::Observing);
    assert_eq!(session.phase(), Phase::Streaming);
}

#[test]
fn one_cycle_observes_transmits_advances_and_waits() {
    let mut session = StreamSession::new();
    assert_eq!(session.handle(Event::Upgraded), Action::Observe);
    assert_eq!(session.handle(Event::Encoded), Action::Transmit);
    assert_eq!(session.state(), SessionState::Transmitting);
    assert_eq!(session.handle(Event::Sent), Action::Advance(TICK_DELTA));
    assert_eq!(session.state(), SessionState::Advancing);
    assert_eq!(session.handle(Event::Advanced), Action::Wait(10));
    assert_eq!(session.state(), SessionState::Waiting);
    assert_eq!(session.handle(Event::TickElapsed), Action::Observe);
    assert_eq!(session.state(), SessionState::Observing);
    assert_eq!(session.phase(), Phase::Streaming);
}

#[test]
fn every_streaming_state_is_in_the_streaming_phase() {
    for state in [
        SessionState::Observing,
        SessionState::Transmitting,
        SessionState::Advancing,
        SessionState::Waiting,
    ] {
        let session = session_in(state);
        assert_eq!(session.phase(), Phase::Streaming);
        assert!(!session.is_closed());
        assert_eq!(session.close_reason(), None);
    }
}

#[test]
fn encode_failure_closes_the_session() {
    let mut session = session_in(SessionState::Observing);
    assert_eq!(session.handle(Event::EncodeFailed), Action::Close);
    assert_eq!(
        session.state(),
        SessionState::Closed(CloseReason::SerializationFailure)
    );
    assert_eq!(session.phase(), Phase::Closed);
    assert!(session.is_closed());
    assert_eq!(
        session.close_reason(),
        Some(CloseReason::SerializationFailure)
    );
}

#[test]
fn send_failure_closes_the_session() {
    let mut session = session_in(SessionState::Transmitting);
    assert_eq!(session.handle(Event::SendFailed), Action::Close);
    assert_eq!(
        session.state(),
        SessionState::Closed(CloseReason::TransmitFailure)
    );
    assert!(session.is_closed());
    assert_eq!(session.close_reason(), Some(CloseReason::TransmitFailure));
}

#[test]
fn disconnection_closes_from_every_open_state() {
    for state in [
        SessionState::Connected,
        SessionState::Observing,
        SessionState::Transmitting,
        SessionState::Advancing,
        SessionState::Waiting,
    ] {
        let mut session = session_in(state);
        assert_eq!(session.handle(Event::Disconnected), Action::Close);
        assert_eq!(
            session.state(),
            SessionState::Closed(CloseReason::Disconnected)
        );
        assert_eq!(session.close_reason(), Some(CloseReason::Disconnected));
    }
}

#[test]
fn closed_session_stays_closed_for_the_same_reason() {
    for reason in [
        CloseReason::SerializationFailure,
        CloseReason::TransmitFailure,
        CloseReason::Disconnected,
    ] {
        for event in EVENTS {
            let mut session = session_in(SessionState::Closed(reason));
            assert_eq!(session.handle(event), Action::Close);
            assert_eq!(session.state(), SessionState::Closed(reason));
            assert_eq!(session.phase(), Phase::Closed);
        }
    }
}

#[test]
fn an_event_that_answers_nothing_is_passed_over() {
    let expected = [
        (SessionState::Connected, Event::Upgraded),
        (SessionState::Observing, Event::Encoded),
        (SessionState::Transmitting, Event::Sent),
        (SessionState::Advancing, Event::Advanced),
        (SessionState::Waiting, Event::TickElapsed),
    ];
    for (state, good) in expected {
        for event in EVENTS {
            let failing = event == Event::Disconnected
                || (state == SessionState::Observing && event == Event::EncodeFailed)
                || (state == SessionState::Transmitting && event == Event::SendFailed);
            if event == good || failing {
                continue;
            }
            let mut session = session_in(state);
            assert_eq!(session.handle(event), Action::Idle);
            assert_eq!(session.state(), state);
        }
    }
}

#[test]
fn failures_out_of_place_do_not_close() {
    let mut session = session_in(SessionState::Transmitting);
    assert_eq!(session.handle(Event::EncodeFailed), Action::Idle);
    assert_eq!(session.state(), SessionState::Transmitting);
    let mut session = session_in(SessionState::Observing);
    assert_eq!(session.handle(Event::SendFailed), Action::Idle);
    assert_eq!(session.state(), SessionState::Observing);
    let mut session = session_in(SessionState::Waiting);
    assert_eq!(session.handle(Event::SendFailed), Action::Idle);
    assert_eq!(session.handle(Event::EncodeFailed), Action::Idle);
    assert_eq!(session.state(), SessionState::Waiting);
}

#[test]
fn advance_is_asked_for_only_after_a_message_was_sent() {
    for state in [
        SessionState::Connected,
        SessionState::Observing,
        SessionState::Transmitting,
        SessionState::Advancing,
        SessionState::Waiting,
        SessionState::Closed(CloseReason::TransmitFailure),
    ] {
        for event in EVENTS {
            let mut session = session_in(state);
            let action = session.handle(event);
            let sent = state == SessionState::Transmitting && event == Event::Sent;
            assert_eq!(matches!(action, Action::Advance(_)), sent);
            if sent {
                assert_eq!(action, Action::Advance(TICK_DELTA));
            }
        }
    }
}

#[test]
fn many_cycles_keep_asking_for_the_same_four_things() {
    let mut session = StreamSession::new();
    assert_eq!(session.handle(Event::Upgraded), Action::Observe);
    for _ in 0..1000 {
        assert_eq!(session.handle(Event::Encoded), Action::Transmit);
        assert_eq!(session.handle(Event::Sent), Action::Advance(TICK_DELTA));
        assert_eq!(session.handle(Event::Advanced), Action::Wait(TICK_MILLIS));
        assert_eq!(session.handle(Event::TickElapsed), Action::Observe);
    }
    assert_eq!(session.state(), SessionState::Observing);
}
