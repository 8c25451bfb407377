use squaremap_server::snapshot_client::{
    registry_key, HeldSnapshot, RegistryStep, SnapshotClient, SnapshotClientError, SnapshotStep, MAX_CANCELLED,
};
use squaremap_server::wire::{ChunkCoordinate, Envelope, Payload, WorldIdentity};

fn world() -> WorldIdentity {
    WorldIdentity { namespace: "minecraft".to_string(), value: "overworld".to_string(), epoch: 3 }
}

fn request_of(envelope: &Envelope) -> &squaremap_server::wire::ChunkSnapshotRequest {
    match envelope.payload.as_ref().unwrap() {
        Payload::ChunkSnapshotRequest(value) => value,
        _ => unreachable!(),
    }
}

/// Delivers a registry replacement for `correlation` the way the transport
/// does: route it, and apply it where the client asks.
fn push_registry(client: &mut SnapshotClient, correlation: u64, world: &WorldIdentity, revision: u64, generation: u64) {
    let replacement = vec![1, 2, 3];
    match client.begin_registry(&[9; 16], correlation, Some(world), revision, &replacement).unwrap() {
        RegistryStep::Replace => {
            assert!(client.registry_replaced(correlation, world, revision, replacement, generation).is_none());
        }
        RegistryStep::Unchanged(held) => assert!(held.is_none()),
        RegistryStep::Ignore => {}
    }
}

#[test]
fn live_request_sets_loaded_only_flag() {
    let mut client = SnapshotClient::new([7; 16]).unwrap();
    let envelope = client.request_once_loaded_only(world(), 1, 2, 9, true).unwrap();
    assert!(request_of(&envelope).loaded_only);
    let job = client.request_once(world(), 3, 4, 9).unwrap();
    assert!(!request_of(&job).loaded_only);
}

#[test]
fn request_is_authenticated_bounded_and_unique() {
    let mut client = SnapshotClient::new([7; 16]).unwrap();
    let first = client.request_once(world(), 1, 2, 42).unwrap();
    assert_eq!(first.session_id, vec![7; 16]);
    assert_eq!(first.sequence, 1);
    assert_eq!(first.correlation_id, 1);
    assert_eq!(request_of(&first).request_id, 1);
    for i in 0..95 {
        client.request_once(world(), i, i, 42).unwrap();
    }
    assert_eq!(client.in_flight(), 96);
    assert!(matches!(client.request_once(world(), 0, 0, 42), Err(SnapshotClientError::Saturated)));
}

#[test]
fn cancelled_tombstones_are_bounded() {
    let mut client = SnapshotClient::new([9; 16]).unwrap();
    let request = client.request_once(world(), 0, 0, 42).unwrap();
    for i in 0..(MAX_CANCELLED + 7) {
        let extra = client.request_once(world(), i as i32 + 1, 0, 42).unwrap();
        assert!(client.cancel(extra.correlation_id));
    }
    assert!(client.tombstone_count() <= MAX_CANCELLED);
    assert!(client.is_pending(request.correlation_id));
    assert!(client.cancel(request.correlation_id));
}

#[test]
fn binding_error_keeps_pending_request() {
    let mut client = SnapshotClient::new([9; 16]).unwrap();
    let request = client.request_once(world(), 0, 0, 42).unwrap();
    let wrong = WorldIdentity { value: "wrong".to_string(), ..world() };
    assert!(matches!(
        client.accept_missing(&request.session_id, request.correlation_id, Some(&wrong), Some(ChunkCoordinate { x: 0, z: 0 }), 42, 2),
        Err(SnapshotClientError::InvalidResponse(_))
    ));
    assert_eq!(client.in_flight(), 1);
}

#[test]
fn coordinate_binding_rejects_wrong_x_and_z_for_snapshot_and_missing() {
    let mut client = SnapshotClient::new([9; 16]).unwrap();
    let request = client.request_once(world(), -7, 5, 42).unwrap();
    push_registry(&mut client, request.correlation_id, &world(), 42, 1);
    for (x, z) in [(-6, 5), (-7, 6)] {
        assert!(matches!(
            client.accept_snapshot(&request.session_id, request.correlation_id, Some(&world()), Some(ChunkCoordinate { x, z }), 42, vec![]),
            Err(SnapshotClientError::InvalidResponse(_))
        ));
        assert_eq!(client.in_flight(), 1);
    }
    let mut missing_client = SnapshotClient::new([9; 16]).unwrap();
    let missing_request = missing_client.request_once(world(), -7, 5, 42).unwrap();
    for (x, z) in [(-6, 5), (-7, 6)] {
        assert!(matches!(
            missing_client.accept_missing(&missing_request.session_id, missing_request.correlation_id, Some(&world()), Some(ChunkCoordinate { x, z }), 42, 2),
            Err(SnapshotClientError::InvalidResponse(_))
        ));
        assert_eq!(missing_client.in_flight(), 1);
    }
}

#[test]
fn missing_answer_ends_its_request_with_the_reason() {
    let mut client = SnapshotClient::new([9; 16]).unwrap();
    let request = client.request_once(world(), 0, 0, 42).unwrap();
    let outcome = client
        .accept_missing(&request.session_id, request.correlation_id, Some(&world()), Some(ChunkCoordinate { x: 0, z: 0 }), 42, 3)
        .unwrap();
    assert_eq!(outcome, Some(3));
    assert_eq!(client.in_flight(), 0);
    assert_eq!(
        client.accept_missing(&request.session_id, request.correlation_id, Some(&world()), Some(ChunkCoordinate { x: 0, z: 0 }), 42, 3),
        Ok(None)
    );
}

#[test]
fn cancelled_request_does_not_poison_later_registry_generation() {
    let mut client = SnapshotClient::new([9; 16]).unwrap();
    let first = client.request_once(world(), 1, 1, 42).unwrap();
    client.cancel(first.correlation_id);
    let second = client.request_once(world(), 2, 2, 42).unwrap();
    push_registry(&mut client, second.correlation_id, &world(), 42, 5);
    assert_eq!(client.in_flight(), 1);
}

#[test]
fn delayed_registry_then_cancel_leaves_no_pending_request() {
    let mut client = SnapshotClient::new([9; 16]).unwrap();
    let request = client.request_once(world(), 1, 1, 42).unwrap();
    push_registry(&mut client, request.correlation_id, &world(), 42, 1);
    assert!(client.cancel(request.correlation_id));
    assert_eq!(client.in_flight(), 0);
}

#[test]
fn snapshot_before_registry_completes_when_registry_arrives() {
    let mut client = SnapshotClient::new([9; 16]).unwrap();
    let request = client.request_once(world(), -7, 5, 42).unwrap();
    let step = client
        .accept_snapshot(&request.session_id, request.correlation_id, Some(&world()), Some(ChunkCoordinate { x: -7, z: 5 }), 42, vec![4, 5])
        .unwrap();
    assert_eq!(step, SnapshotStep::Nothing);
    assert_eq!(client.in_flight(), 1);
    let replacement = vec![1];
    assert_eq!(
        client.begin_registry(&request.session_id, request.correlation_id, Some(&world()), 42, &replacement),
        Ok(RegistryStep::Replace)
    );
    let held = client.registry_replaced(request.correlation_id, &world(), 42, replacement, 11);
    assert_eq!(held, Some(HeldSnapshot { snapshot: vec![4, 5], generation: 11 }));
    client.complete(request.correlation_id);
    assert_eq!(client.in_flight(), 0);
}

#[test]
fn later_request_uses_the_cached_generation_and_identical_replacement_binds() {
    let mut client = SnapshotClient::new([9; 16]).unwrap();
    let first = client.request_once(world(), 0, 0, 42).unwrap();
    push_registry(&mut client, first.correlation_id, &world(), 42, 7);
    let second = client.request_once(world(), 1, 1, 43).unwrap();
    let step = client
        .accept_snapshot(&second.session_id, second.correlation_id, Some(&world()), Some(ChunkCoordinate { x: 1, z: 1 }), 43, vec![])
        .unwrap();
    assert_eq!(step, SnapshotStep::Decode(7));
    assert_eq!(
        client.begin_registry(&second.session_id, second.correlation_id, Some(&world()), 43, &vec![1, 2, 3]),
        Ok(RegistryStep::Unchanged(None))
    );
}

#[test]
fn registry_rules() {
    let mut client = SnapshotClient::new([9; 16]).unwrap();
    let request = client.request_once(world(), 0, 0, 42).unwrap();
    assert_eq!(
        client.begin_registry(&[1; 16], request.correlation_id, Some(&world()), 42, &vec![]),
        Err(SnapshotClientError::InvalidSession)
    );
    assert_eq!(
        client.begin_registry(&[9; 16], request.correlation_id, None, 42, &vec![]),
        Err(SnapshotClientError::InvalidResponse("registry missing world"))
    );
    assert_eq!(
        client.begin_registry(&[9; 16], request.correlation_id, Some(&world()), 41, &vec![]),
        Ok(RegistryStep::Ignore)
    );
    assert_eq!(client.begin_registry(&[9; 16], 99, Some(&world()), 42, &vec![]), Ok(RegistryStep::Ignore));
    client.cancel(request.correlation_id);
    assert_eq!(client.begin_registry(&[9; 16], request.correlation_id, None, 42, &vec![]), Ok(RegistryStep::Ignore));
    assert_eq!(
        client.begin_registry(&[9; 16], request.correlation_id, Some(&world()), 42, &vec![]),
        Ok(RegistryStep::Replace)
    );
    client.registry_refused(&world(), 4);
    let next = client.request_once(world(), 2, 2, 42).unwrap();
    let step = client
        .accept_snapshot(&next.session_id, next.correlation_id, Some(&world()), Some(ChunkCoordinate { x: 2, z: 2 }), 42, vec![])
        .unwrap();
    assert_eq!(step, SnapshotStep::Decode(4));
}

#[test]
fn abort_drops_everything_and_marks_earlier_identifiers_cancelled() {
    let mut client = SnapshotClient::new([9; 16]).unwrap();
    let request = client.request_once(world(), 0, 0, 42).unwrap();
    client.request_once(world(), 1, 0, 42).unwrap();
    assert_eq!(client.abort_pending(), 2);
    assert_eq!(client.in_flight(), 0);
    assert_eq!(client.tombstone_count(), 0);
    assert_eq!(
        client.begin_registry(&[9; 16], request.correlation_id, None, 42, &vec![]),
        Ok(RegistryStep::Ignore)
    );
}

#[test]
fn zero_session_is_refused() {
    assert!(matches!(SnapshotClient::new([0; 16]), Err(SnapshotClientError::InvalidSession)));
}

#[test]
fn registry_keys_name_world_and_epoch() {
    assert_eq!(registry_key(&world()), "minecraft\0overworld\03");
}

/// Delivers registry replacement `bytes` for `correlation`, applying it as
/// generation `generation` where the client asks for that.
fn push_registry_bytes(
    client: &mut SnapshotClient,
    correlation: u64,
    world: &WorldIdentity,
    revision: u64,
    bytes: Vec<u8>,
    generation: u64,
) {
    match client.begin_registry(&[9; 16], correlation, Some(world), revision, &bytes).unwrap() {
        RegistryStep::Replace => {
            assert!(client.registry_replaced(correlation, world, revision, bytes, generation).is_none());
        }
        RegistryStep::Unchanged(held) => assert!(held.is_none()),
        RegistryStep::Ignore => {}
    }
}

/// Answers request `correlation` with a snapshot and, where it decodes, completes it.
fn deliver_snapshot(
    client: &mut SnapshotClient,
    correlation: u64,
    world: &WorldIdentity,
    x: i32,
    z: i32,
    revision: u64,
) -> SnapshotStep {
    let step = client
        .accept_snapshot(&[9; 16], correlation, Some(world), Some(ChunkCoordinate { x, z }), revision, vec![8, 8])
        .unwrap();
    if let SnapshotStep::Decode(_) = step {
        client.complete(correlation);
    }
    step
}

#[test]
fn cancel_then_delayed_registry_preserves_next_request() {
    let mut client = SnapshotClient::new([9; 16]).unwrap();
    let first = client.request_once(world(), 1, 1, 42).unwrap();
    let second = client.request_once(world(), 2, 2, 42).unwrap();
    assert!(client.cancel(first.correlation_id));
    push_registry(&mut client, first.correlation_id, &world(), 42, 1);
    assert_eq!(client.in_flight(), 1);
    push_registry(&mut client, second.correlation_id, &world(), 42, 2);
    assert!(matches!(deliver_snapshot(&mut client, second.correlation_id, &world(), 2, 2, 42), SnapshotStep::Decode(_)));
    assert_eq!(client.in_flight(), 0);
}

#[test]
fn registry_replace_requires_matching_pending_correlation() {
    let mut client = SnapshotClient::new([9; 16]).unwrap();
    let request = client.request_once(world(), -7, 5, 42).unwrap();
    assert_eq!(
        client.begin_registry(&request.session_id, request.correlation_id + 1, Some(&world()), 42, &vec![9]),
        Ok(RegistryStep::Ignore)
    );
    push_registry(&mut client, request.correlation_id, &world(), 42, 1);
    assert_eq!(deliver_snapshot(&mut client, request.correlation_id, &world(), -7, 5, 42), SnapshotStep::Decode(1));
}

#[test]
fn malformed_delayed_registry_for_cancelled_request_is_ignored() {
    let mut client = SnapshotClient::new([9; 16]).unwrap();
    let request = client.request_once(world(), 1, 1, 42).unwrap();
    assert!(client.cancel(request.correlation_id));
    assert_eq!(
        client.begin_registry(&request.session_id, request.correlation_id, None, 0, &vec![]),
        Ok(RegistryStep::Ignore)
    );
}

#[test]
fn cached_registry_is_bound_to_later_request() {
    let mut client = SnapshotClient::new([9; 16]).unwrap();
    let first = client.request_once(world(), -7, 5, 42).unwrap();
    push_registry(&mut client, first.correlation_id, &world(), 42, 1);
    let second = client.request_once(world(), -7, 5, 42).unwrap();
    assert_eq!(deliver_snapshot(&mut client, second.correlation_id, &world(), -7, 5, 42), SnapshotStep::Decode(1));
}

#[test]
fn sibling_in_flight_snapshot_uses_registry_cached_by_the_other_request() {
    let mut client = SnapshotClient::new([9; 16]).unwrap();
    let first = client.request_once(world(), 0, 0, 42).unwrap();
    let second = client.request_once(world(), 1, 0, 42).unwrap();
    push_registry(&mut client, first.correlation_id, &world(), 42, 1);
    assert_eq!(deliver_snapshot(&mut client, second.correlation_id, &world(), 1, 0, 42), SnapshotStep::Decode(1));
}

#[test]
fn later_dirty_revision_sibling_uses_fresh_registry_not_stale_request_cache() {
    let mut client = SnapshotClient::new([9; 16]).unwrap();
    let first = client.request_once(world(), 0, 0, 42).unwrap();
    push_registry_bytes(&mut client, first.correlation_id, &world(), 42, vec![1, 42], 1);
    assert_eq!(deliver_snapshot(&mut client, first.correlation_id, &world(), 0, 0, 42), SnapshotStep::Decode(1));
    let center = client.request_once(world(), 2, 0, 43).unwrap();
    let neighbor = client.request_once(world(), 3, 0, 43).unwrap();
    push_registry_bytes(&mut client, center.correlation_id, &world(), 43, vec![1, 43], 2);
    assert_eq!(deliver_snapshot(&mut client, neighbor.correlation_id, &world(), 3, 0, 43), SnapshotStep::Decode(2));
}

#[test]
fn cached_palette_decodes_a_later_dirty_revision_without_a_new_registry_replace() {
    let mut client = SnapshotClient::new([9; 16]).unwrap();
    let first = client.request_once(world(), 0, 0, 42).unwrap();
    push_registry(&mut client, first.correlation_id, &world(), 42, 1);
    assert_eq!(deliver_snapshot(&mut client, first.correlation_id, &world(), 0, 0, 42), SnapshotStep::Decode(1));
    let second = client.request_once(world(), 1, 0, 43).unwrap();
    assert_eq!(deliver_snapshot(&mut client, second.correlation_id, &world(), 1, 0, 43), SnapshotStep::Decode(1));
}

#[test]
fn cancelled_request_still_caches_registry_for_sibling_snapshot() {
    let mut client = SnapshotClient::new([9; 16]).unwrap();
    let first = client.request_once(world(), 0, 0, 42).unwrap();
    let second = client.request_once(world(), 1, 0, 42).unwrap();
    client.cancel(first.correlation_id);
    push_registry(&mut client, first.correlation_id, &world(), 42, 1);
    assert_eq!(deliver_snapshot(&mut client, second.correlation_id, &world(), 1, 0, 42), SnapshotStep::Decode(1));
}

#[test]
fn registry_generation_is_reset_for_new_world_epoch() {
    let mut client = SnapshotClient::new([9; 16]).unwrap();
    let first = client.request_once(world(), 0, 0, 42).unwrap();
    push_registry(&mut client, first.correlation_id, &world(), 42, 1);
    let new_world = WorldIdentity { epoch: 4, ..world() };
    let second = client.request_once(new_world.clone(), 1, 1, 42).unwrap();
    push_registry(&mut client, second.correlation_id, &new_world, 42, 2);
    assert_eq!(deliver_snapshot(&mut client, second.correlation_id, &new_world, 1, 1, 42), SnapshotStep::Decode(2));
}

#[test]
fn unsolicited_snapshot_and_registry_are_ignored_without_mutation() {
    let mut client = SnapshotClient::new([9; 16]).unwrap();
    assert_eq!(client.begin_registry(&[9; 16], 0, Some(&world()), 42, &vec![1, 2, 3]), Ok(RegistryStep::Ignore));
    assert_eq!(
        client.accept_snapshot(&[9; 16], 999, Some(&world()), Some(ChunkCoordinate { x: 0, z: 0 }), 42, vec![]),
        Ok(SnapshotStep::Nothing)
    );
    assert_eq!(client.in_flight(), 0);
}

#[test]
fn identical_registry_replacement_pins_new_request_generation() {
    let mut client = SnapshotClient::new([9; 16]).unwrap();
    let first = client.request_once(world(), 4, 4, 42).unwrap();
    push_registry(&mut client, first.correlation_id, &world(), 42, 1);
    assert_eq!(deliver_snapshot(&mut client, first.correlation_id, &world(), 4, 4, 42), SnapshotStep::Decode(1));
    let second = client.request_once(world(), 3, 4, 42).unwrap();
    assert_eq!(
        client.begin_registry(&second.session_id, second.correlation_id, Some(&world()), 42, &vec![1, 2, 3]),
        Ok(RegistryStep::Unchanged(None))
    );
    assert_eq!(deliver_snapshot(&mut client, second.correlation_id, &world(), 3, 4, 42), SnapshotStep::Decode(1));
}

#[test]
fn delayed_same_revision_snapshots_keep_their_registry_generation() {
    let mut client = SnapshotClient::new([9; 16]).unwrap();
    let first = client.request_once(world(), 4, 4, 42).unwrap();
    push_registry_bytes(&mut client, first.correlation_id, &world(), 42, vec![0x03, 0x02, 0x01], 1);
    let second = client.request_once(world(), 5, 4, 42).unwrap();
    push_registry_bytes(&mut client, second.correlation_id, &world(), 42, vec![0xd0, 0xe0, 0xf0], 2);
    assert_eq!(deliver_snapshot(&mut client, second.correlation_id, &world(), 5, 4, 42), SnapshotStep::Decode(2));
    assert_eq!(deliver_snapshot(&mut client, first.correlation_id, &world(), 4, 4, 42), SnapshotStep::Decode(1));
    assert_eq!(client.in_flight(), 0);
}

#[test]
fn registry_revisions_are_monotonic_but_equal_revision_replaces_generation() {
    let mut client = SnapshotClient::new([9; 16]).unwrap();
    let first = client.request_once(world(), 0, 0, 43).unwrap();
    push_registry_bytes(&mut client, first.correlation_id, &world(), 43, vec![1], 1);
    push_registry_bytes(&mut client, first.correlation_id, &world(), 43, vec![1 ^ 1], 2);
    let second = client.request_once(world(), 1, 1, 42).unwrap();
    assert_eq!(
        client.begin_registry(&second.session_id, second.correlation_id, Some(&world()), 42, &vec![1, 2, 3]),
        Ok(RegistryStep::Ignore)
    );
    let third = client.request_once(world(), 2, 2, 43).unwrap();
    assert_eq!(
        client.begin_registry(&third.session_id, third.correlation_id, Some(&world()), 43, &vec![1 ^ 2]),
        Ok(RegistryStep::Replace)
    );
    assert!(client.registry_replaced(third.correlation_id, &world(), 43, vec![1 ^ 2], 3).is_none());
    assert_eq!(deliver_snapshot(&mut client, first.correlation_id, &world(), 0, 0, 43), SnapshotStep::Decode(1));
    assert_eq!(deliver_snapshot(&mut client, third.correlation_id, &world(), 2, 2, 43), SnapshotStep::Decode(3));
}

#[test]
fn tombstone_pruning_keeps_the_oldest_cancellations() {
    let mut client = SnapshotClient::new([9; 16]).unwrap();
    let oldest = client.request_once(world(), 0, 0, 42).unwrap();
    let mut last = 0;
    for i in 0..(MAX_CANCELLED + 1) {
        let extra = client.request_once(world(), i as i32 + 1, 0, 42).unwrap();
        assert!(client.cancel(extra.correlation_id));
        last = extra.correlation_id;
    }
    assert_eq!(client.tombstone_count(), MAX_CANCELLED);
    assert_eq!(client.begin_registry(&[9; 16], oldest.correlation_id + 1, None, 42, &vec![]), Ok(RegistryStep::Ignore));
    assert_eq!(
        client.begin_registry(&[9; 16], last, None, 42, &vec![]),
        Err(SnapshotClientError::InvalidResponse("registry missing world"))
    );
    assert!(client.cancel(oldest.correlation_id));
    assert_eq!(client.in_flight(), 0);
}

#[test]
fn answers_to_requests_dropped_by_abort_stay_ignored() {
    let mut client = SnapshotClient::new([9; 16]).unwrap();
    let first = client.request_once(world(), 1, 2, 42).unwrap();
    let second = client.request_once(world(), 3, 4, 42).unwrap();
    assert_eq!(client.abort_pending(), 2);
    assert_eq!(client.in_flight(), 0);
    let later = client.request_once(world(), 5, 6, 43).unwrap();
    assert!(later.correlation_id > second.correlation_id);
    let missing = client.accept_missing(&first.session_id, first.correlation_id, Some(&world()), Some(ChunkCoordinate { x: 1, z: 2 }), 42, 1);
    assert_eq!(missing, Ok(None));
    let snapshot = client.accept_snapshot(&second.session_id, second.correlation_id, Some(&world()), Some(ChunkCoordinate { x: 3, z: 4 }), 42, vec![1]);
    assert_eq!(snapshot, Ok(SnapshotStep::Nothing));
    assert_eq!(client.in_flight(), 1);
}
