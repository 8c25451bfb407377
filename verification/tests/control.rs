use squaremap_server::control::{control_response, BackendResultCode, ControlKind, ControlRequest, ControlState};
use squaremap_server::wire::WorldIdentity;

fn world(namespace: &str, value: &str, epoch: u64) -> WorldIdentity {
    WorldIdentity { namespace: namespace.into(), value: value.into(), epoch }
}

fn request(kind: ControlKind, identity: Option<WorldIdentity>) -> ControlRequest {
    ControlRequest { kind: Some(kind), world: identity, center_x: 0, center_z: 0, radius: 4, coordinates: Vec::new() }
}

#[test]
fn controls_are_unavailable_without_fake_state_mutation() {
    let configured = world("minecraft", "overworld", 7);
    let mut state = ControlState::default();
    state.replace_worlds(vec![configured.clone()]);
    for kind in [ControlKind::FullRender, ControlKind::RadiusRender, ControlKind::CancelRender, ControlKind::PauseRenders, ControlKind::ResetMap] {
        assert_eq!(state.handle(&request(kind, Some(configured.clone()))).code, BackendResultCode::BackendUnavailable);
    }
    assert_eq!(state.world_count(), 1);
}

#[test]
fn health_requires_an_accepted_configuration() {
    let health = request(ControlKind::Health, None);
    let mut state = ControlState::default();
    assert_eq!(state.handle(&health).code, BackendResultCode::BackendUnavailable);
    state.replace_worlds(vec![world("minecraft", "overworld", 1)]);
    assert_eq!(state.handle(&health).code, BackendResultCode::Healthy);
}

#[test]
fn accepted_world_epoch_is_resolved_and_unknown_world_is_rejected() {
    let configured = world("minecraft", "overworld", 9);
    let mut state = ControlState::default();
    state.replace_worlds(vec![configured.clone()]);
    assert_eq!(state.handle(&request(ControlKind::FullRender, Some(configured))).code, BackendResultCode::BackendUnavailable);
    assert_eq!(state.handle(&request(ControlKind::FullRender, Some(world("minecraft", "overworld", 0)))).code, BackendResultCode::UnknownWorld);
}

#[test]
fn accepted_config_replaces_old_world_table() {
    let mut state = ControlState::default();
    let first = world("minecraft", "overworld", 1);
    let second = world("minecraft", "nether", 2);
    state.replace_worlds(vec![first.clone()]);
    state.replace_worlds(vec![second.clone()]);
    assert_eq!(state.world_count(), 1);
    assert_eq!(state.handle(&request(ControlKind::FullRender, Some(first))).code, BackendResultCode::UnknownWorld);
    assert_eq!(state.handle(&request(ControlKind::FullRender, Some(second))).code, BackendResultCode::BackendUnavailable);
}

#[test]
fn reload_does_not_fake_success_without_java_reload_executor() {
    let mut state = ControlState::default();
    state.replace_worlds(vec![world("minecraft", "overworld", 1)]);
    assert_eq!(state.handle(&request(ControlKind::Reload, None)).code, BackendResultCode::BackendUnavailable);
}

#[test]
fn duplicate_identities_count_once_and_results_name_the_world() {
    let mut state = ControlState::new();
    let w = world("minecraft", "overworld", 3);
    state.replace_worlds(vec![w.clone(), w.clone(), world("minecraft", "nether", 3)]);
    assert_eq!(state.world_count(), 2);
    assert!(state.is_in_config());
    let result = state.handle(&request(ControlKind::PauseRenders, Some(w.clone())));
    assert_eq!(result.substitutions.len(), 1);
    assert_eq!(result.substitutions[0].key, "world");
    assert_eq!(result.substitutions[0].world, w);
    assert_eq!(result.rendered_chunks, 0);
}

#[test]
fn unknown_kind_and_missing_world_are_invalid() {
    let mut state = ControlState::new();
    state.replace_worlds(vec![world("minecraft", "overworld", 3)]);
    let mut unknown = request(ControlKind::FullRender, None);
    unknown.kind = None;
    assert_eq!(state.handle(&unknown).code, BackendResultCode::InvalidRequest);
    assert_eq!(state.handle(&request(ControlKind::FullRender, None)).code, BackendResultCode::InvalidRequest);
    let unspecified = state.handle(&request(ControlKind::Unspecified, Some(world("minecraft", "overworld", 3))));
    assert_eq!(unspecified.code, BackendResultCode::InvalidRequest);
    assert_eq!(unspecified.substitutions.len(), 1);
}

#[test]
fn a_result_names_its_world() {
    let named = control_response(BackendResultCode::MapReset, Some(&world("minecraft", "overworld", 3)));
    assert_eq!(named.code, BackendResultCode::MapReset);
    assert_eq!(named.rendered_chunks, 0);
    assert_eq!(named.substitutions.len(), 1);
    assert_eq!(named.substitutions[0].key, "world");
    assert_eq!(named.substitutions[0].world, world("minecraft", "overworld", 3));
    let bare = control_response(BackendResultCode::Healthy, None);
    assert!(bare.substitutions.is_empty());
}

#[test]
fn an_empty_table_accepts_the_configuration_for_good() {
    let health = request(ControlKind::Health, None);
    let mut state = ControlState::default();
    assert!(!state.is_in_config());
    state.handle(&health);
    assert!(!state.is_in_config());
    state.replace_worlds(Vec::new());
    assert!(state.is_in_config());
    state.handle(&health);
    state.handle(&request(ControlKind::FullRender, None));
    assert!(state.is_in_config());
    assert_eq!(state.handle(&health).code, BackendResultCode::Healthy);
}
