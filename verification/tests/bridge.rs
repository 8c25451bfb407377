use squaremap_server::bridge::{frame_header, FrameRefusal};
use squaremap_server::bootstrap::BootstrapError;
use squaremap_server::bridge::{
    check_hello_ack, config_rejection, configured_identities, control_dispatch, envelope_gate, handler_failure,
    loop_outcome, replay_error, replay_gate, worlds_to_remove, ControlDispatch, MAX_CONTROL_TASKS,
};
use squaremap_server::config::WorldConfig;
use squaremap_server::control::{BackendResultCode, ControlKind};
use squaremap_server::dirty_resync::DirtyResyncError;
use squaremap_server::wire::{ProtocolErrorCode, WorldIdentity};

fn world(value: &str, epoch: u64) -> WorldIdentity {
    WorldIdentity { namespace: "minecraft".to_string(), value: value.to_string(), epoch }
}

#[test]
fn hello_ack_must_accept_this_session() {
    assert_eq!(check_hello_ack(1, true, 1, true, String::new()), Ok(()));
    assert_eq!(
        check_hello_ack(1, true, 1, false, "bad token".to_string()),
        Err(BootstrapError::Rejected("bad token".to_string()))
    );
    assert!(check_hello_ack(2, true, 1, true, String::new()).is_err());
    assert!(check_hello_ack(1, false, 1, true, String::new()).is_err());
    assert!(check_hello_ack(1, true, 0, true, String::new()).is_err());
}

#[test]
fn unauthenticated_envelopes_are_refused() {
    assert!(envelope_gate(1, true, 5).is_none());
    let version = envelope_gate(2, true, 5).unwrap();
    assert_eq!(version.code, ProtocolErrorCode::UnsupportedVersion);
    assert_eq!(version.message, "bridge envelope failed authenticated protocol/session validation");
    assert!(version.fatal);
    assert_eq!(version.offending_sequence, 5);
    assert_eq!(envelope_gate(1, false, 6).unwrap().code, ProtocolErrorCode::InvalidMessage);
}

#[test]
fn replay_requests_wait_for_recovery() {
    assert!(replay_gate(true, true, 3, 7).is_none());
    let early = replay_gate(true, false, 3, 7).unwrap();
    assert_eq!(early.message, "DirtyReplayRequest before authenticated recovery");
    assert_eq!(early.config_revision, 7);
    assert!(replay_gate(false, true, 3, 7).is_some());
}

#[test]
fn protocol_error_reports() {
    let replay = replay_error(DirtyResyncError::ReplayMismatch);
    assert_eq!(replay.code, ProtocolErrorCode::InvalidMessage);
    assert_eq!(replay.message, "ReplayMismatch");
    assert!(replay.fatal);
    let failure = handler_failure("boom".to_string(), 4, 2);
    assert_eq!(failure.code, ProtocolErrorCode::Internal);
    assert!(failure.fatal);
    let refused = config_rejection("bad".to_string(), 4, 9);
    assert!(!refused.fatal);
    assert_eq!(refused.config_revision, 9);
}

#[test]
fn control_requests_dispatch() {
    assert_eq!(
        control_dispatch(BackendResultCode::BackendUnavailable, Some(ControlKind::FullRender), 0),
        ControlDispatch::Spawn
    );
    assert_eq!(
        control_dispatch(BackendResultCode::BackendUnavailable, Some(ControlKind::RadiusRender), MAX_CONTROL_TASKS),
        ControlDispatch::Busy
    );
    assert_eq!(
        control_dispatch(BackendResultCode::BackendUnavailable, Some(ControlKind::CancelRender), 0),
        ControlDispatch::Inline
    );
    assert_eq!(control_dispatch(BackendResultCode::UnknownWorld, Some(ControlKind::FullRender), 0), ControlDispatch::Inline);
}

#[test]
fn loop_end_reports() {
    assert_eq!(loop_outcome(true, Some(BootstrapError::Frame("eof".to_string())), true), Ok(()));
    assert_eq!(
        loop_outcome(false, Some(BootstrapError::Frame("eof".to_string())), true),
        Err(BootstrapError::Frame("eof".to_string()))
    );
    assert_eq!(loop_outcome(true, None, false), Ok(()));
    assert_eq!(loop_outcome(false, Some(BootstrapError::ConnectTimeout), false), Err(BootstrapError::ConnectTimeout));
}

#[test]
fn configuration_drops_stored_worlds_it_no_longer_names() {
    let configured = configured_identities(&vec![
        WorldConfig { identity: Some(world("overworld", 2)), settings: None },
        WorldConfig { identity: None, settings: None },
    ]);
    assert_eq!(configured, vec![world("overworld", 2)]);
    let stored = vec![world("overworld", 1), world("overworld", 2), world("nether", 1)];
    assert_eq!(worlds_to_remove(&configured, &stored), vec![world("overworld", 1), world("nether", 1)]);
}

#[test]
fn control_frames_carry_class_and_big_endian_length() {
    assert_eq!(frame_header(1, &vec![0u8; 0x0102], 4096), Ok(vec![1, 0, 0, 1, 2]));
    assert_eq!(frame_header(1, &vec![], 4096), Err(FrameRefusal::ZeroLength));
    assert_eq!(frame_header(1, &vec![0u8; 10], 4), Err(FrameRefusal::TooLong { length: 10, max: 4 }));
}
