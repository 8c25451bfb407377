use squaremap_server::session::{
    random_session_id, stamp_uuid_v4, Decision, Session, SessionCursor, SessionError, SessionStep,
};
use squaremap_server::bridge::{config_rejection, plan_message, MessagePlan, ReportSource};
use squaremap_server::wire::{AckStatus, Envelope, ProtocolErrorCode};

fn message(session_id: &[u8], sequence: u64) -> Envelope {
    Envelope {
        protocol_major: 1,
        protocol_minor: 0,
        session_id: session_id.to_vec(),
        sequence,
        correlation_id: 0,
        payload: None,
    }
}

#[test]
fn cursor_accepts_the_successor_and_acknowledges_repeats() {
    let mut cursor = SessionCursor::new();
    assert_eq!(cursor.accept(1), Decision::New);
    assert_eq!(cursor.accept(2), Decision::New);
    assert_eq!(cursor.accept(2), Decision::Duplicate);
    assert_eq!(cursor.accept(1), Decision::Duplicate);
    assert_eq!(cursor.accept(3), Decision::New);
}

#[test]
fn a_gap_is_latched_for_every_later_sequence() {
    let mut cursor = SessionCursor::new();
    assert_eq!(cursor.accept(1), Decision::New);
    assert_eq!(cursor.accept(5), Decision::Gap { expected: 2, actual: 5 });
    assert_eq!(cursor.accept(2), Decision::Gap { expected: 2, actual: 2 });
    assert_eq!(cursor.accept(1), Decision::Gap { expected: 2, actual: 1 });
    assert_eq!(cursor.evaluate(3), Decision::Gap { expected: 2, actual: 3 });
}

#[test]
fn a_fresh_cursor_expects_sequence_one() {
    let cursor = SessionCursor::new();
    assert_eq!(cursor.evaluate(1), Decision::New);
    assert_eq!(cursor.evaluate(0), Decision::Gap { expected: 1, actual: 0 });
    assert_eq!(cursor.evaluate(2), Decision::Gap { expected: 1, actual: 2 });
}

#[test]
fn the_last_sequence_stays_expected_at_the_top() {
    let mut cursor = SessionCursor::new();
    cursor.commit_new(u64::MAX);
    assert_eq!(cursor.evaluate(u64::MAX), Decision::Duplicate);
}

#[test]
fn session_handles_new_sequences_once() {
    let mut session = Session::new([5; 16]);
    assert!(matches!(session.begin(&message(&[5; 16], 1)), SessionStep::RunHandler));
    let outcome = session.finish(1, Ok(())).unwrap();
    let ack = outcome.ack().unwrap();
    assert_eq!(ack.acknowledged_sequence, 1);
    assert_eq!(ack.status, AckStatus::Accepted);
    assert_eq!(ack.message, "durably applied");
    assert!(outcome.protocol_error().is_none());
    match session.begin(&message(&[5; 16], 1)) {
        SessionStep::Respond(outcome) => {
            let ack = outcome.ack().unwrap();
            assert_eq!(ack.status, AckStatus::Duplicate);
            assert_eq!(ack.message, "duplicate sequence already durably applied");
        }
        SessionStep::RunHandler => panic!("a repeated sequence must not run its handler"),
    }
}

#[test]
fn a_failed_handler_commits_nothing() {
    let mut session = Session::new([5; 16]);
    assert!(matches!(session.begin(&message(&[5; 16], 1)), SessionStep::RunHandler));
    let failure = SessionError::HandlerFailed("disk full".to_string());
    assert_eq!(session.finish(1, Err(failure.clone())).err(), Some(failure));
    assert!(matches!(session.begin(&message(&[5; 16], 1)), SessionStep::RunHandler));
}

#[test]
fn another_session_and_a_gap_are_fatal() {
    let mut session = Session::new([5; 16]);
    match session.begin(&message(&[6; 16], 1)) {
        SessionStep::Respond(outcome) => {
            let error = outcome.protocol_error().unwrap();
            assert_eq!(error.code, ProtocolErrorCode::InvalidMessage);
            assert!(error.fatal);
            assert_eq!(error.message, "authenticated session ID does not match; full bootstrap replacement required");
        }
        SessionStep::RunHandler => panic!("a foreign session must be refused"),
    }
    match session.begin(&message(&[5; 16], 3)) {
        SessionStep::Respond(outcome) => {
            let error = outcome.protocol_error().unwrap();
            assert_eq!(error.offending_sequence, 3);
            assert_eq!(error.message, "sequence gap: expected 1, actual 3; full bootstrap replacement required");
            assert!(outcome.ack().is_none());
        }
        SessionStep::RunHandler => panic!("a gap must be refused"),
    }
    assert!(matches!(session.begin(&message(&[5; 16], 1)), SessionStep::Respond(_)));
}

#[test]
fn session_ids_must_have_sixteen_bytes() {
    assert_eq!(Session::from_session_id(&[1; 15]).err(), Some(SessionError::InvalidSessionId));
    let session = Session::from_session_id(&[1; 16]).unwrap();
    assert_eq!(session.session_id(), &[1; 16]);
}

#[test]
fn session_errors_read_as_their_messages() {
    assert_eq!(SessionError::InvalidSessionId.display_text(), "session ID must contain exactly 16 bytes");
    assert_eq!(SessionError::HandlerFailed("x".to_string()).display_text(), "durable handler failed: x");
    assert_eq!(SessionError::HandlerPanicked("y".to_string()).display_text(), "durable handler panicked: y");
}

#[test]
fn session_ids_are_version_four_uuids() {
    let stamped = stamp_uuid_v4([0xff; 16]);
    assert_eq!(stamped[6], 0x4f);
    assert_eq!(stamped[8], 0xbf);
    assert_eq!(stamped[0], 0xff);
    let id = random_session_id();
    assert_eq!(id[6] & 0xf0, 0x40);
    assert_eq!(id[8] & 0xc0, 0x80);
    let authenticated = Session::authenticated();
    assert_eq!(authenticated.session_id().len(), 16);
}

#[test]
fn a_history_accepts_one_to_l_and_latches_the_first_gap() {
    let mut cursor = SessionCursor::new();
    assert_eq!(cursor.accept(1), Decision::New);
    assert_eq!(cursor.accept(2), Decision::New);
    assert_eq!(cursor.accept(1), Decision::Duplicate);
    assert_eq!(cursor.accept(3), Decision::New);
    assert_eq!(cursor.accept(2), Decision::Duplicate);
    assert_eq!(cursor.accept(4), Decision::New);
    assert_eq!(cursor.accept(6), Decision::Gap { expected: 5, actual: 6 });
    assert_eq!(cursor.accept(5), Decision::Gap { expected: 5, actual: 5 });
    assert_eq!(cursor.accept(1), Decision::Gap { expected: 5, actual: 1 });
}

#[test]
fn a_refused_configuration_is_reported_acknowledged_and_not_applied() {
    let mut session = Session::new([5; 16]);
    assert!(matches!(session.begin(&message(&[5; 16], 1)), SessionStep::RunHandler));
    let outcome = session.finish(1, Ok(())).unwrap();
    let refusal = Some(config_rejection("invalid configuration".to_string(), 1, 4));
    let plan = plan_message(&outcome, &refusal);
    assert_eq!(plan, MessagePlan { report: ReportSource::Refusal, stop: false, proceed: false, acknowledge: true });
    let valid = plan_message(&outcome, &None);
    assert_eq!(valid, MessagePlan { report: ReportSource::Nothing, stop: false, proceed: true, acknowledge: true });
    match session.begin(&message(&[5; 16], 3)) {
        SessionStep::Respond(gap) => {
            let plan = plan_message(&gap, &refusal);
            assert_eq!(plan, MessagePlan { report: ReportSource::Session, stop: true, proceed: false, acknowledge: false });
        }
        SessionStep::RunHandler => panic!("a gap must not run its handler"),
    }
}
