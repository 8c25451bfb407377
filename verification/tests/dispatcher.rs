use squaremap_server::dirty_resync::{
    WorldEnumerationComplete, WorldEnumerationItem, WorldEnumerationRequest, MAX_ENUMERATION_ITEMS,
};
use squaremap_server::scheduler::live::{
    client_error_debug, has_duplicate_coordinate, same_coordinate, EnumerationDispatcher, SnapshotDispatcher,
    SnapshotRoute,
};
use squaremap_server::scheduler::BridgeError;
use squaremap_server::snapshot_client::{SnapshotClient, SnapshotClientError};
use squaremap_server::wire::{ChunkCoordinate, Envelope, Payload, WorldIdentity};

fn world() -> WorldIdentity {
    WorldIdentity { namespace: "minecraft".to_string(), value: "overworld".to_string(), epoch: 3 }
}

#[test]
fn abort_resolves_pending_request_and_clears_in_flight() {
    let mut dispatcher = SnapshotDispatcher::new(SnapshotClient::new([9; 16]).unwrap());
    let envelope = dispatcher.begin(world(), ChunkCoordinate { x: 1, z: 2 }, 42).unwrap();
    assert_eq!(dispatcher.in_flight(), 1);
    let waiting = dispatcher.abort();
    assert_eq!(waiting, vec![envelope.correlation_id]);
    assert_eq!(dispatcher.in_flight(), 0);
}

#[test]
fn begin_after_abort_resolves_sender_without_pending_entry() {
    let mut dispatcher = SnapshotDispatcher::new(SnapshotClient::new([9; 16]).unwrap());
    dispatcher.abort();
    assert_eq!(
        dispatcher.begin(world(), ChunkCoordinate { x: 1, z: 2 }, 42).err(),
        Some((
            SnapshotClientError::InvalidResponse("bridge connection closed"),
            BridgeError::Transient("bridge connection closed".to_string())
        ))
    );
    assert_eq!(dispatcher.in_flight(), 0);
}

#[test]
fn missing_answer_resolves_its_caller() {
    let mut dispatcher = SnapshotDispatcher::new(SnapshotClient::new([9; 16]).unwrap());
    let envelope = dispatcher.begin(world(), ChunkCoordinate { x: 1, z: 2 }, 42).unwrap();
    let reason = dispatcher
        .client_mut()
        .accept_missing(&envelope.session_id, envelope.correlation_id, Some(&world()), Some(ChunkCoordinate { x: 1, z: 2 }), 42, 4)
        .unwrap();
    assert_eq!(reason, Some(4));
    assert!(dispatcher.resolve(envelope.correlation_id));
    assert_eq!(dispatcher.in_flight(), 0);
}

#[test]
fn cancel_tells_the_waiting_caller_once() {
    let mut dispatcher = SnapshotDispatcher::new(SnapshotClient::new([9; 16]).unwrap());
    let envelope = dispatcher.begin(world(), ChunkCoordinate { x: 1, z: 2 }, 42).unwrap();
    assert!(dispatcher.cancel(envelope.correlation_id));
    assert!(!dispatcher.cancel(envelope.correlation_id));
    assert_eq!(dispatcher.in_flight(), 0);
}

/// The bridge's reason code for a chunk it cannot capture right now.
const MISSING_UNAVAILABLE: i32 = 2;

#[test]
fn accept_forwards_permanent_missing_reason() {
    let mut dispatcher = SnapshotDispatcher::new(SnapshotClient::new([9; 16]).unwrap());
    let envelope = dispatcher.begin(world(), ChunkCoordinate { x: 4, z: 5 }, 42).unwrap();
    let reason = dispatcher
        .client_mut()
        .accept_missing(
            &envelope.session_id,
            envelope.correlation_id,
            Some(&world()),
            Some(ChunkCoordinate { x: 4, z: 5 }),
            42,
            MISSING_UNAVAILABLE,
        )
        .unwrap();
    assert_eq!(reason, Some(MISSING_UNAVAILABLE));
    assert!(dispatcher.resolve(envelope.correlation_id));
}

fn enumeration_request() -> WorldEnumerationRequest {
    WorldEnumerationRequest {
        session_id: Vec::new(),
        config_revision: 0,
        enumeration_id: 0,
        world: Some(world()),
        max_items: MAX_ENUMERATION_ITEMS,
        bridge_id: Vec::new(),
        page_index: 0,
    }
}

fn inbound(correlation_id: u64, payload: Payload) -> Envelope {
    Envelope { protocol_major: 1, protocol_minor: 0, session_id: vec![1; 16], sequence: 0, correlation_id, payload: Some(payload) }
}

fn item(index: u32, x: i32) -> Payload {
    Payload::WorldEnumerationItem(WorldEnumerationItem {
        bridge_id: vec![2; 16],
        session_id: vec![1; 16],
        config_revision: 7,
        enumeration_id: 11,
        item_index: index,
        world: Some(world()),
        coordinate: Some(ChunkCoordinate { x, z: 0 }),
    })
}

fn complete(count: u32, page_index: u32, has_more: bool) -> Payload {
    Payload::WorldEnumerationComplete(WorldEnumerationComplete {
        bridge_id: vec![2; 16],
        session_id: vec![1; 16],
        config_revision: 7,
        enumeration_id: 11,
        item_count: count,
        page_index,
        status: 1,
        failure_reason: String::new(),
        has_more,
    })
}

#[test]
fn enumeration_cancellation_clears_pending_and_ignores_late_response() {
    let mut dispatcher = EnumerationDispatcher::new();
    let first = dispatcher.begin(enumeration_request(), &[1; 16], &[2; 16], 7, 11).unwrap();
    let delivery = dispatcher.cancel(first.correlation_id).unwrap();
    assert_eq!(delivery.id, 11);
    assert_eq!(delivery.outcome, Err(BridgeError::Transient("enumeration request cancelled".to_string())));
    assert_eq!(dispatcher.in_flight(), 0);
    let step = dispatcher.accept(&inbound(first.correlation_id, complete(0, 0, false)));
    assert_eq!(step.accepted, Ok(false));
    assert!(step.delivery.is_none());
    assert_eq!(dispatcher.in_flight(), 0);
}

#[test]
fn enumeration_aggregates_multiple_bounded_pages() {
    let mut dispatcher = EnumerationDispatcher::new();
    dispatcher.set_outbound();
    dispatcher.begin(enumeration_request(), &[1; 16], &[2; 16], 7, 11).unwrap();
    for index in 0..MAX_ENUMERATION_ITEMS {
        assert_eq!(dispatcher.accept(&inbound(11, item(index, index as i32))).accepted, Ok(true));
    }
    let step = dispatcher.accept(&inbound(11, complete(MAX_ENUMERATION_ITEMS, 0, true)));
    let next = step.next_page.unwrap();
    match next.payload.unwrap() {
        Payload::WorldEnumerationRequest(request) => assert_eq!(request.page_index, 1),
        _ => unreachable!(),
    }
    for index in 0..2 {
        dispatcher.accept(&inbound(11, item(index, MAX_ENUMERATION_ITEMS as i32 + index as i32)));
    }
    let step = dispatcher.accept(&inbound(11, complete(2, 1, false)));
    let coordinates = step.delivery.unwrap().outcome.unwrap();
    assert_eq!(coordinates.len(), MAX_ENUMERATION_ITEMS as usize + 2);
    assert_eq!(coordinates.last().unwrap().x, MAX_ENUMERATION_ITEMS as i32 + 1);
}

#[test]
fn enumeration_begin_is_refused_for_another_activation() {
    let mut dispatcher = EnumerationDispatcher::new();
    dispatcher.activate(vec![2; 16], vec![1; 16], 7);
    let refused = dispatcher.begin(enumeration_request(), &[1; 16], &[2; 16], 8, 11).err().unwrap();
    assert_eq!(refused.0, squaremap_server::dirty_resync::WorldEnumerationError::InvalidSession);
    assert_eq!(refused.1, BridgeError::Transient("bridge activation changed".to_string()));
    assert_eq!(dispatcher.in_flight(), 0);
    assert!(dispatcher.begin(enumeration_request(), &[1; 16], &[2; 16], 7, 11).is_ok());
    assert_eq!(dispatcher.in_flight(), 1);
}

#[test]
fn enumeration_abort_and_deactivate_tell_every_caller() {
    let mut dispatcher = EnumerationDispatcher::new();
    dispatcher.begin(enumeration_request(), &[1; 16], &[2; 16], 7, 11).unwrap();
    dispatcher.begin(enumeration_request(), &[1; 16], &[2; 16], 7, 12).unwrap();
    let failed = dispatcher.abort_request(12, "gone").unwrap();
    assert_eq!(failed.outcome, Err(BridgeError::Transient("gone".to_string())));
    assert!(dispatcher.abort_request(12, "gone").is_none());
    let closed = dispatcher.deactivate();
    assert_eq!(closed.len(), 1);
    assert_eq!(closed[0].id, 11);
    assert_eq!(closed[0].outcome, Err(BridgeError::Transient("bridge connection closed".to_string())));
    assert_eq!(dispatcher.in_flight(), 0);
    let late = dispatcher.begin(enumeration_request(), &[1; 16], &[2; 16], 7, 13).err().unwrap();
    assert_eq!(late.1, BridgeError::Transient("bridge connection closed".to_string()));
}

#[test]
fn a_follow_up_page_that_cannot_be_sent_ends_the_request() {
    let mut dispatcher = EnumerationDispatcher::new();
    dispatcher.begin(enumeration_request(), &[1; 16], &[2; 16], 7, 11).unwrap();
    let failed = dispatcher.outbound_failed(11).unwrap();
    assert_eq!(failed.outcome, Err(BridgeError::Transient("enumeration outbound closed".to_string())));
    assert_eq!(dispatcher.in_flight(), 0);
}

#[test]
fn duplicate_enumerated_coordinates_fail_the_request() {
    let mut dispatcher = EnumerationDispatcher::new();
    dispatcher.begin(enumeration_request(), &[1; 16], &[2; 16], 7, 11).unwrap();
    dispatcher.accept(&inbound(11, item(0, 4)));
    dispatcher.accept(&inbound(11, item(1, 4)));
    let step = dispatcher.accept(&inbound(11, complete(2, 0, false)));
    assert_eq!(step.accepted, Ok(true));
    assert_eq!(
        step.delivery.unwrap().outcome,
        Err(BridgeError::Permanent("duplicate enumeration coordinate".to_string()))
    );
}

#[test]
fn coordinate_duplicates_are_found() {
    let a = ChunkCoordinate { x: 1, z: 2 };
    assert!(same_coordinate(&a, &ChunkCoordinate { x: 1, z: 2 }));
    assert!(!same_coordinate(&a, &ChunkCoordinate { x: 2, z: 1 }));
    assert!(!has_duplicate_coordinate(&vec![a, ChunkCoordinate { x: 2, z: 1 }]));
    assert!(has_duplicate_coordinate(&vec![a, ChunkCoordinate { x: 2, z: 1 }, a]));
    assert!(!has_duplicate_coordinate(&vec![]));
}

#[test]
fn unavailable_registry_is_a_transient_answer_and_keeps_the_dispatcher_alive() {
    let mut dispatcher = SnapshotDispatcher::new(SnapshotClient::new([9; 16]).unwrap());
    let envelope = dispatcher.begin(world(), ChunkCoordinate { x: 1, z: 2 }, 42).unwrap();
    let route = dispatcher.route(
        envelope.correlation_id,
        Err(SnapshotClientError::InvalidResponse("snapshot registry unavailable")),
    );
    assert_eq!(route, SnapshotRoute::Unavailable { waiting: true });
    assert_eq!(route.result(), Ok(true));
    assert_eq!(dispatcher.in_flight(), 0);
    let next = dispatcher.begin(world(), ChunkCoordinate { x: 3, z: 4 }, 43);
    assert!(next.is_ok());
    assert_eq!(dispatcher.in_flight(), 1);
}

#[test]
fn answers_route_by_their_outcome() {
    let mut dispatcher = SnapshotDispatcher::new(SnapshotClient::new([9; 16]).unwrap());
    let envelope = dispatcher.begin(world(), ChunkCoordinate { x: 1, z: 2 }, 42).unwrap();
    assert_eq!(dispatcher.route(envelope.correlation_id, Ok(false)), SnapshotRoute::Unrelated);
    assert_eq!(dispatcher.in_flight(), 1);
    let refused = dispatcher.route(envelope.correlation_id, Err(SnapshotClientError::InvalidResponse("snapshot binding mismatch")));
    assert_eq!(refused.clone().result(), Err(SnapshotClientError::InvalidResponse("snapshot binding mismatch")));
    assert_eq!(dispatcher.in_flight(), 1);
    assert_eq!(dispatcher.route(envelope.correlation_id, Ok(true)), SnapshotRoute::Deliver { waiting: true });
    assert_eq!(dispatcher.in_flight(), 0);
    assert_eq!(dispatcher.route(envelope.correlation_id, Ok(true)), SnapshotRoute::Deliver { waiting: false });
}

#[test]
fn begin_requests_the_named_chunk() {
    let mut dispatcher = SnapshotDispatcher::new(SnapshotClient::new([9; 16]).unwrap());
    let envelope = dispatcher.begin(world(), ChunkCoordinate { x: -7, z: 5 }, 42).unwrap();
    match envelope.payload {
        Some(Payload::ChunkSnapshotRequest(request)) => {
            assert_eq!(request.coordinate, Some(ChunkCoordinate { x: -7, z: 5 }));
            assert_eq!(request.revision, 42);
            assert_eq!(request.world, Some(world()));
            assert!(!request.loaded_only);
        }
        other => panic!("unexpected payload {other:?}"),
    }
    assert_eq!(envelope.session_id, vec![9; 16]);
}

#[test]
fn a_saturated_client_refusal_is_told_as_its_debug_text() {
    let mut dispatcher = SnapshotDispatcher::new(SnapshotClient::new([9; 16]).unwrap());
    let mut refused = None;
    for i in 0..200 {
        if let Err(refusal) = dispatcher.begin(world(), ChunkCoordinate { x: i, z: 0 }, 1) {
            refused = Some(refusal);
            break;
        }
    }
    assert_eq!(
        refused,
        Some((SnapshotClientError::Saturated, BridgeError::Transient("Saturated".to_string())))
    );
    assert_eq!(
        client_error_debug(&SnapshotClientError::InvalidResponse("correlation exhausted")),
        "InvalidResponse(\"correlation exhausted\")"
    );
}
