use squaremap_server::control::{BackendResultCode, ControlKind, ControlRequest};
use squaremap_server::renders::{
    control_step, ControlAction, ControlEvent, ControlStage, coordinate_verdict, pause_toggle, radius_source, started_code, CancelPlan, RadiusSource, RenderRegistry,
    MAX_CONTROL_CHUNKS,
};
use squaremap_server::scheduler::jobs::JobKind;
use squaremap_server::wire::{ChunkCoordinate, WorldIdentity};

fn world(value: &str) -> WorldIdentity {
    WorldIdentity { namespace: "minecraft".to_string(), value: value.to_string(), epoch: 1 }
}

#[test]
fn one_render_per_world() {
    let mut registry = RenderRegistry::new();
    assert!(registry.reserve(&world("a")));
    assert!(!registry.reserve(&world("a")));
    assert!(registry.reserve(&world("b")));
    assert!(registry.in_progress(&world("a")));
    registry.release(&world("a"));
    assert!(!registry.in_progress(&world("a")));
    assert!(registry.in_progress(&world("b")));
}

#[test]
fn cancelled_discovery_is_not_promoted() {
    let mut registry = RenderRegistry::new();
    assert!(registry.reserve(&world("a")));
    assert_eq!(registry.cancel(&world("a")), CancelPlan::StopDiscovery);
    assert!(!registry.in_progress(&world("a")));
    assert!(registry.promote(&world("a"), vec![1, 2]));
    assert!(!registry.in_progress(&world("a")));
}

#[test]
fn running_job_is_cancelled_by_id() {
    let mut registry = RenderRegistry::new();
    assert!(registry.reserve(&world("a")));
    assert!(!registry.promote(&world("a"), vec![9]));
    assert!(registry.promote(&world("a"), vec![8]));
    assert_eq!(registry.cancel(&world("a")), CancelPlan::CancelJob(vec![9]));
    registry.release_job(&world("a"), &vec![8]);
    assert!(registry.in_progress(&world("a")));
    registry.release_job(&world("a"), &vec![9]);
    assert!(!registry.in_progress(&world("a")));
    assert_eq!(registry.cancel(&world("a")), CancelPlan::NotInProgress);
}

#[test]
fn drain_empties_the_registry() {
    let mut registry = RenderRegistry::new();
    registry.reserve(&world("a"));
    registry.reserve(&world("b"));
    let drained = registry.drain();
    assert_eq!(drained.len(), 2);
    assert!(!registry.in_progress(&world("a")));
}

#[test]
fn pause_toggles() {
    assert_eq!(pause_toggle(true), (BackendResultCode::RendersResumed, false));
    assert_eq!(pause_toggle(false), (BackendResultCode::RendersPaused, true));
}

fn request(radius: u32, coordinates: Vec<ChunkCoordinate>) -> ControlRequest {
    ControlRequest {
        kind: Some(ControlKind::RadiusRender),
        world: Some(world("a")),
        center_x: 0,
        center_z: 0,
        radius,
        coordinates,
    }
}

#[test]
fn radius_sources() {
    assert_eq!(radius_source(&request(5, vec![ChunkCoordinate { x: 0, z: 0 }])), RadiusSource::Listed);
    assert_eq!(radius_source(&request(5, vec![])), RadiusSource::Blocks(5));
    assert_eq!(radius_source(&request(u32::MAX, vec![])), RadiusSource::Invalid);
    let many = vec![ChunkCoordinate { x: 0, z: 0 }; MAX_CONTROL_CHUNKS + 1];
    assert_eq!(radius_source(&request(5, many)), RadiusSource::Invalid);
}

#[test]
fn coordinate_counts() {
    assert_eq!(coordinate_verdict(ControlKind::FullRender, MAX_CONTROL_CHUNKS + 1), Some(BackendResultCode::Failed));
    assert_eq!(coordinate_verdict(ControlKind::RadiusRender, MAX_CONTROL_CHUNKS + 1), Some(BackendResultCode::InvalidRequest));
    assert_eq!(coordinate_verdict(ControlKind::FullRender, 0), Some(BackendResultCode::InvalidRequest));
    assert_eq!(coordinate_verdict(ControlKind::RadiusRender, 3), None);
    assert_eq!(started_code(ControlKind::FullRender), BackendResultCode::FullRenderStarted);
    assert_eq!(started_code(ControlKind::RadiusRender), BackendResultCode::RadiusRenderStarted);
}

fn control(kind: ControlKind, value: &str) -> ControlRequest {
    ControlRequest {
        kind: Some(kind),
        world: Some(world(value)),
        center_x: 0,
        center_z: 0,
        radius: 0,
        coordinates: Vec::new(),
    }
}

#[test]
fn a_full_render_reserves_discovers_starts_and_hands_over_its_world() {
    let mut registry = RenderRegistry::new();
    let mut request = control(ControlKind::FullRender, "a");
    request.coordinates = vec![ChunkCoordinate { x: 99, z: 99 }];
    let (stage, action) = control_step(&ControlStage::Received, &request, 11, ControlEvent::Arrived { scheduler: true }, &mut registry);
    assert_eq!((stage.clone(), action), (ControlStage::Discovering, ControlAction::Discover));
    assert!(registry.in_progress(&world("a")));
    let found = vec![ChunkCoordinate { x: 3, z: 4 }];
    let (stage, action) = control_step(&stage, &request, 11, ControlEvent::Discovered(Some(found.clone())), &mut registry);
    assert_eq!((stage.clone(), action), (ControlStage::Starting, ControlAction::StartJob(JobKind::Full, found, 11)));
    let (stage, action) = control_step(&stage, &request, 11, ControlEvent::JobStarted(Some(vec![7])), &mut registry);
    assert_eq!(stage, ControlStage::Done);
    assert_eq!(action, ControlAction::Spawn(vec![7], BackendResultCode::FullRenderStarted));
    assert_eq!(registry.cancel(&world("a")), CancelPlan::CancelJob(vec![7]));
}

#[test]
fn a_second_render_of_a_world_is_refused_and_failures_release_it() {
    let mut registry = RenderRegistry::new();
    let request = control(ControlKind::FullRender, "a");
    let (stage, _) = control_step(&ControlStage::Received, &request, 11, ControlEvent::Arrived { scheduler: true }, &mut registry);
    let again = control_step(&ControlStage::Received, &request, 11, ControlEvent::Arrived { scheduler: true }, &mut registry);
    assert_eq!(again, (ControlStage::Done, ControlAction::Answer(BackendResultCode::RenderInProgress)));
    let failed = control_step(&stage, &request, 11, ControlEvent::Discovered(Some(vec![ChunkCoordinate { x: 0, z: 0 }; MAX_CONTROL_CHUNKS + 1])), &mut registry);
    assert_eq!(failed, (ControlStage::Done, ControlAction::Answer(BackendResultCode::Failed)));
    assert!(!registry.in_progress(&world("a")));
}

#[test]
fn a_radius_render_filters_the_block_square_and_refuses_nothing_visible() {
    let mut registry = RenderRegistry::new();
    let mut request = control(ControlKind::RadiusRender, "a");
    request.radius = 16;
    let (stage, action) = control_step(&ControlStage::Received, &request, 11, ControlEvent::Arrived { scheduler: true }, &mut registry);
    assert_eq!(stage, ControlStage::Filtering);
    match action {
        ControlAction::Filter(chunks) => assert_eq!(chunks.len(), 9),
        other => panic!("unexpected action {other:?}"),
    }
    let refused = control_step(&stage, &request, 11, ControlEvent::Filtered(Vec::new()), &mut registry);
    assert_eq!(refused, (ControlStage::Done, ControlAction::Answer(BackendResultCode::InvalidRequest)));
    assert!(!registry.in_progress(&world("a")));
}

#[test]
fn requests_without_kind_world_or_scheduler() {
    let mut registry = RenderRegistry::new();
    let mut request = control(ControlKind::FullRender, "a");
    let without_scheduler = control_step(&ControlStage::Received, &request, 11, ControlEvent::Arrived { scheduler: false }, &mut registry);
    assert_eq!(without_scheduler, (ControlStage::Done, ControlAction::Baseline));
    request.world = None;
    let without_world = control_step(&ControlStage::Received, &request, 11, ControlEvent::Arrived { scheduler: true }, &mut registry);
    assert_eq!(without_world, (ControlStage::Done, ControlAction::Answer(BackendResultCode::InvalidRequest)));
    let health = control(ControlKind::Health, "a");
    let baseline = control_step(&ControlStage::Received, &health, 11, ControlEvent::Arrived { scheduler: true }, &mut registry);
    assert_eq!(baseline, (ControlStage::Done, ControlAction::Baseline));
}

#[test]
fn cancel_pause_and_reset_steps() {
    let mut registry = RenderRegistry::new();
    assert!(registry.reserve(&world("a")));
    assert!(!registry.promote(&world("a"), vec![5]));
    let cancel = control(ControlKind::CancelRender, "a");
    let (stage, action) = control_step(&ControlStage::Received, &cancel, 11, ControlEvent::Arrived { scheduler: true }, &mut registry);
    assert_eq!(stage, ControlStage::Cancelling(vec![5]));
    assert_eq!(action, ControlAction::CancelJob(vec![5]));
    let reset = control(ControlKind::ResetMap, "a");
    let busy = control_step(&ControlStage::Received, &reset, 11, ControlEvent::Arrived { scheduler: true }, &mut registry);
    assert_eq!(busy, (ControlStage::Done, ControlAction::Answer(BackendResultCode::RenderInProgress)));
    let done = control_step(&stage, &cancel, 11, ControlEvent::JobCancelled(true), &mut registry);
    assert_eq!(done, (ControlStage::Done, ControlAction::Answer(BackendResultCode::RenderCancelled)));
    assert!(!registry.in_progress(&world("a")));
    let (stage, action) = control_step(&ControlStage::Received, &reset, 11, ControlEvent::Arrived { scheduler: true }, &mut registry);
    assert_eq!((stage.clone(), action), (ControlStage::Resetting, ControlAction::Reset));
    let (stage, action) = control_step(&stage, &reset, 11, ControlEvent::ResetDone(true), &mut registry);
    assert_eq!((stage.clone(), action), (ControlStage::RemovingTiles, ControlAction::RemoveTiles));
    let last = control_step(&stage, &reset, 11, ControlEvent::TilesRemoved(true), &mut registry);
    assert_eq!(last, (ControlStage::Done, ControlAction::Answer(BackendResultCode::MapReset)));
    let pause = control(ControlKind::PauseRenders, "a");
    let (stage, action) = control_step(&ControlStage::Received, &pause, 11, ControlEvent::Arrived { scheduler: true }, &mut registry);
    assert_eq!(action, ControlAction::ReadPause);
    let toggled = control_step(&stage, &pause, 11, ControlEvent::PauseRead(false), &mut registry);
    assert_eq!(toggled, (ControlStage::Done, ControlAction::SetPause(true, BackendResultCode::RendersPaused)));
}
