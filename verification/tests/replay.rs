use squaremap_server::dirty_resync::{
    replay_item, resume_watermark, validate_bridge_identity, validate_completion, validate_enumeration_completion,
    validate_enumeration_item, validate_enumeration_page, validate_enumeration_request, validate_item, validate_request,
    validate_resume, DirtyChunk, DirtyReplayItem, DirtyReplayRequest, DirtyResyncComplete, DirtyResyncError,
    ReplayCursor, ReplayState, ResumeWatermark, WorldEnumerationComplete, WorldEnumerationError, WorldEnumerationItem,
    WorldEnumerationRequest, DIRTY_RESYNC_STATUS_COMPLETE, DIRTY_RESYNC_STATUS_FAILED, MAX_REPLAY_ITEMS,
};
use squaremap_server::wire::{ChunkCoordinate, WorldIdentity};

const BRIDGE: [u8; 16] = [2; 16];
const SESSION: [u8; 16] = [1; 16];

fn world() -> WorldIdentity {
    WorldIdentity { namespace: "minecraft".to_string(), value: "overworld".to_string(), epoch: 3 }
}

fn request(max_items: u32) -> DirtyReplayRequest {
    DirtyReplayRequest {
        bridge_id: BRIDGE.to_vec(),
        session_id: SESSION.to_vec(),
        config_revision: 7,
        replay_id: 9,
        world: Some(world()),
        max_items,
        cursor: Some(ReplayCursor::Beginning),
    }
}

fn row(x: i32, revision: u64) -> DirtyChunk {
    DirtyChunk { world: world(), coordinate: ChunkCoordinate { x, z: 0 }, revision }
}

fn completion(count: u32, has_more: bool, last: Option<ChunkCoordinate>) -> DirtyResyncComplete {
    DirtyResyncComplete {
        bridge_id: BRIDGE.to_vec(),
        session_id: SESSION.to_vec(),
        config_revision: 7,
        replay_id: 9,
        item_count: count,
        status: DIRTY_RESYNC_STATUS_COMPLETE,
        failure_reason: String::new(),
        has_more,
        last_coordinate: last,
    }
}

#[test]
fn bridge_identities_are_sixteen_nonzero_bytes() {
    assert_eq!(validate_bridge_identity(&BRIDGE), Ok(()));
    assert_eq!(validate_bridge_identity(&[0; 16]), Err(DirtyResyncError::InvalidSession));
    assert_eq!(validate_bridge_identity(&[2; 15]), Err(DirtyResyncError::InvalidSession));
}

#[test]
fn resume_watermarks_bind_bridge_session_and_revision() {
    let watermark = resume_watermark(&BRIDGE, &SESSION, 7, Some(41));
    assert_eq!(
        watermark,
        ResumeWatermark { bridge_id: BRIDGE.to_vec(), session_id: SESSION.to_vec(), config_revision: 7, last_durable_sequence: 41 }
    );
    assert_eq!(resume_watermark(&BRIDGE, &SESSION, 7, None).last_durable_sequence, 0);
    assert_eq!(validate_resume(&watermark, &BRIDGE, &SESSION, 7), Ok(()));
    assert_eq!(validate_resume(&watermark, &[3; 16], &SESSION, 7), Err(DirtyResyncError::InvalidSession));
    assert_eq!(validate_resume(&watermark, &BRIDGE, &[4; 16], 7), Err(DirtyResyncError::InvalidSession));
    assert_eq!(validate_resume(&watermark, &BRIDGE, &SESSION, 8), Err(DirtyResyncError::RevisionMismatch));
}

#[test]
fn replay_requests_are_checked_in_order() {
    assert_eq!(validate_request(&request(4), &BRIDGE, &SESSION, 7, MAX_REPLAY_ITEMS), Ok(()));
    assert_eq!(validate_request(&request(4), &[3; 16], &SESSION, 7, 16), Err(DirtyResyncError::InvalidSession));
    assert_eq!(validate_request(&request(4), &BRIDGE, &[3; 16], 7, 16), Err(DirtyResyncError::InvalidSession));
    assert_eq!(validate_request(&request(4), &BRIDGE, &SESSION, 8, 16), Err(DirtyResyncError::RevisionMismatch));
    let no_world = DirtyReplayRequest { world: None, ..request(4) };
    assert_eq!(validate_request(&no_world, &BRIDGE, &SESSION, 7, 16), Err(DirtyResyncError::WorldMismatch));
    assert_eq!(validate_request(&request(0), &BRIDGE, &SESSION, 7, 16), Err(DirtyResyncError::InvalidPageSize { max: 16 }));
    assert_eq!(validate_request(&request(17), &BRIDGE, &SESSION, 7, 16), Err(DirtyResyncError::InvalidPageSize { max: 16 }));
    assert_eq!(
        validate_request(&request(MAX_REPLAY_ITEMS + 1), &BRIDGE, &SESSION, 7, u32::MAX),
        Err(DirtyResyncError::InvalidPageSize { max: MAX_REPLAY_ITEMS })
    );
    let no_cursor = DirtyReplayRequest { cursor: None, ..request(4) };
    assert_eq!(validate_request(&no_cursor, &BRIDGE, &SESSION, 7, 16), Err(DirtyResyncError::MissingCursor));
}

#[test]
fn replay_items_follow_their_request() {
    let request = request(2);
    let item = replay_item(&row(5, 3), &BRIDGE, &SESSION, 7, 9, 0);
    assert_eq!(
        item,
        DirtyReplayItem {
            bridge_id: BRIDGE.to_vec(),
            session_id: SESSION.to_vec(),
            config_revision: 7,
            replay_id: 9,
            item_index: 0,
            world: Some(world()),
            coordinate: Some(ChunkCoordinate { x: 5, z: 0 }),
            revision: 3,
        }
    );
    assert_eq!(validate_item(&item, &request, 0), Ok(()));
    assert_eq!(validate_item(&item, &request, 1), Err(DirtyResyncError::DuplicateIndex(0)));
    assert_eq!(validate_item(&item, &request, 2), Err(DirtyResyncError::InvalidIndex { expected: 2, actual: 2 }));
    let later = DirtyReplayItem { item_index: 1, ..item.clone() };
    assert_eq!(validate_item(&later, &request, 0), Err(DirtyResyncError::InvalidIndex { expected: 0, actual: 1 }));
    let other_replay = DirtyReplayItem { replay_id: 10, ..item.clone() };
    assert_eq!(validate_item(&other_replay, &request, 0), Err(DirtyResyncError::ReplayMismatch));
    let other_revision = DirtyReplayItem { config_revision: 8, ..item.clone() };
    assert_eq!(validate_item(&other_revision, &request, 0), Err(DirtyResyncError::RevisionMismatch));
    let zero_revision = DirtyReplayItem { revision: 0, ..item.clone() };
    assert_eq!(validate_item(&zero_revision, &request, 0), Err(DirtyResyncError::WorldMismatch));
    let other_session = DirtyReplayItem { session_id: vec![5; 16], ..item };
    assert_eq!(validate_item(&other_session, &request, 0), Err(DirtyResyncError::InvalidSession));
}

#[test]
fn replay_completions_close_their_page() {
    let request = request(2);
    assert_eq!(validate_completion(&completion(1, false, None), &request, 1), Ok(()));
    assert_eq!(
        validate_completion(&completion(2, true, Some(ChunkCoordinate { x: 1, z: 0 })), &request, 2),
        Ok(())
    );
    assert_eq!(validate_completion(&completion(1, false, None), &request, 3), Err(DirtyResyncError::InvalidIndex { expected: 2, actual: 3 }));
    assert_eq!(validate_completion(&completion(1, false, None), &request, 2), Err(DirtyResyncError::InvalidIndex { expected: 2, actual: 1 }));
    assert_eq!(validate_completion(&completion(2, true, None), &request, 2), Err(DirtyResyncError::InvalidCursor));
    assert_eq!(
        validate_completion(&completion(1, true, Some(ChunkCoordinate { x: 1, z: 0 })), &request, 1),
        Err(DirtyResyncError::InvalidCompletion)
    );
    assert_eq!(
        validate_completion(&completion(1, false, Some(ChunkCoordinate { x: 1, z: 0 })), &request, 1),
        Err(DirtyResyncError::InvalidCompletion)
    );
    let failed = DirtyResyncComplete { status: DIRTY_RESYNC_STATUS_FAILED, ..completion(1, false, None) };
    assert_eq!(validate_completion(&failed, &request, 1), Err(DirtyResyncError::InvalidCompletion));
    let explained = DirtyResyncComplete { failure_reason: "lost".to_string(), ..failed };
    assert_eq!(validate_completion(&explained, &request, 1), Ok(()));
    let unknown = DirtyResyncComplete { status: 0, ..completion(1, false, None) };
    assert_eq!(validate_completion(&unknown, &request, 1), Err(DirtyResyncError::InvalidCompletion));
}

#[test]
fn a_served_page_is_accepted_in_full() {
    let mut replay = ReplayState::new(request(2), &BRIDGE, &SESSION, 7).unwrap();
    assert_eq!(replay.next_index(), 0);
    let rows = vec![row(0, 1), row(1, 1), row(2, 1)];
    let page = replay.serve_page(&rows, &BRIDGE, &SESSION, 7);
    assert_eq!(page.items.len(), 2);
    assert_eq!(page.items[1].coordinate, Some(ChunkCoordinate { x: 1, z: 0 }));
    assert_eq!(page.completion, Ok(completion(2, true, Some(ChunkCoordinate { x: 1, z: 0 }))));
    assert_eq!(replay.next_index(), 2);
    assert!(replay.terminal());
}

#[test]
fn a_short_page_has_no_more() {
    let mut replay = ReplayState::new(request(4), &BRIDGE, &SESSION, 7).unwrap();
    let page = replay.serve_page(&vec![row(0, 1)], &BRIDGE, &SESSION, 7);
    assert_eq!(page.items.len(), 1);
    assert_eq!(page.completion, Ok(completion(1, false, None)));
}

#[test]
fn a_bad_row_stops_the_page() {
    let mut replay = ReplayState::new(request(4), &BRIDGE, &SESSION, 7).unwrap();
    let page = replay.serve_page(&vec![row(0, 1), row(1, 0)], &BRIDGE, &SESSION, 7);
    assert_eq!(page.items.len(), 1);
    assert_eq!(page.completion, Err(DirtyResyncError::WorldMismatch));
    assert!(!replay.terminal());
}

#[test]
fn a_replay_of_another_revision_is_refused() {
    assert_eq!(ReplayState::new(request(4), &BRIDGE, &SESSION, 8).err(), Some(DirtyResyncError::RevisionMismatch));
}

fn enumeration() -> WorldEnumerationRequest {
    WorldEnumerationRequest {
        session_id: SESSION.to_vec(),
        config_revision: 7,
        enumeration_id: 11,
        world: Some(world()),
        max_items: 2,
        bridge_id: BRIDGE.to_vec(),
        page_index: 0,
    }
}

#[test]
fn enumeration_messages_are_bound_to_their_request() {
    let request = enumeration();
    assert_eq!(validate_enumeration_request(&request, &BRIDGE, &SESSION, 7, 2), Ok(()));
    assert_eq!(validate_enumeration_request(&request, &BRIDGE, &SESSION, 8, 2), Err(WorldEnumerationError::RevisionMismatch));
    assert_eq!(validate_enumeration_request(&request, &[3; 16], &SESSION, 7, 2), Err(WorldEnumerationError::InvalidSession));
    assert_eq!(validate_enumeration_page(&request, 0), Ok(()));
    assert_eq!(validate_enumeration_page(&request, 1), Err(WorldEnumerationError::InvalidIndex { expected: 1, actual: 0 }));
    let item = WorldEnumerationItem {
        bridge_id: BRIDGE.to_vec(),
        session_id: SESSION.to_vec(),
        config_revision: 7,
        enumeration_id: 11,
        item_index: 0,
        world: Some(world()),
        coordinate: Some(ChunkCoordinate { x: 0, z: 0 }),
    };
    assert_eq!(validate_enumeration_item(&item, &request, 0), Ok(()));
    assert_eq!(validate_enumeration_item(&item, &request, 1), Err(WorldEnumerationError::DuplicateIndex(0)));
    assert_eq!(validate_enumeration_item(&item, &request, 2), Err(WorldEnumerationError::InvalidIndex { expected: 2, actual: 2 }));
    let other = WorldEnumerationItem { enumeration_id: 12, ..item.clone() };
    assert_eq!(validate_enumeration_item(&other, &request, 0), Err(WorldEnumerationError::EnumerationMismatch));
    let no_coordinate = WorldEnumerationItem { coordinate: None, ..item };
    assert_eq!(validate_enumeration_item(&no_coordinate, &request, 0), Err(WorldEnumerationError::WorldMismatch));
    let complete = WorldEnumerationComplete {
        bridge_id: BRIDGE.to_vec(),
        session_id: SESSION.to_vec(),
        config_revision: 7,
        enumeration_id: 11,
        item_count: 1,
        page_index: 0,
        status: 1,
        failure_reason: String::new(),
        has_more: false,
    };
    assert_eq!(validate_enumeration_completion(&complete, &request, 1), Ok(()));
    assert_eq!(
        validate_enumeration_completion(&complete, &request, 2),
        Err(WorldEnumerationError::InvalidIndex { expected: 2, actual: 1 })
    );
}

#[test]
fn errors_read_as_their_debug_text() {
    assert_eq!(DirtyResyncError::InvalidPageSize { max: 4 }.debug_text(), "InvalidPageSize { max: 4 }");
    assert_eq!(DirtyResyncError::DuplicateIndex(3).debug_text(), "DuplicateIndex(3)");
    assert_eq!(
        WorldEnumerationError::InvalidIndex { expected: 1, actual: 2 }.debug_text(),
        "InvalidIndex { expected: 1, actual: 2 }"
    );
    assert_eq!(WorldEnumerationError::EnumerationMismatch.debug_text(), "EnumerationMismatch");
}
