use sha2::Digest;
use squaremap_server::scheduler::jobs::{
    cancel_transition, job_id, job_id_input, legacy_cursor, run_begin, run_start, validate_job_start, FinishAction, JobCursor,
    JobKind, JobProgress, JobState, LegacyResumeEntry, RunStart, StepAction, StepEvent,
};
use squaremap_server::scheduler::{validate_scheduler_config, RenderDisposition, SchedulerConfig, SchedulerError};
use squaremap_server::wire::{ChunkCoordinate, WorldIdentity};

fn world() -> WorldIdentity {
    WorldIdentity { namespace: "minecraft".to_string(), value: "overworld".to_string(), epoch: 3 }
}

fn c(x: i32, z: i32) -> ChunkCoordinate {
    ChunkCoordinate { x, z }
}

#[test]
fn only_full_and_radius_jobs_with_coordinates_start() {
    assert_eq!(validate_job_start(JobKind::Full, &vec![c(0, 0)]), Ok(()));
    assert_eq!(validate_job_start(JobKind::Radius, &vec![c(0, 0)]), Ok(()));
    assert_eq!(
        validate_job_start(JobKind::Resume, &vec![c(0, 0)]),
        Err(SchedulerError::InvalidJob("scheduler can only start full or radius jobs"))
    );
    assert_eq!(
        validate_job_start(JobKind::Full, &vec![]),
        Err(SchedulerError::InvalidJob("render job requires at least one coordinate"))
    );
}

#[test]
fn job_id_hashes_world_kind_and_nonce() {
    let input = job_id_input(&world(), JobKind::Radius, 0x0102);
    let mut expected = b"minecraft\0overworld\0".to_vec();
    expected.extend_from_slice(&3u64.to_le_bytes());
    expected.push(1);
    expected.extend_from_slice(&0x0102u64.to_le_bytes());
    assert_eq!(input, expected);
    let id = job_id(&world(), JobKind::Radius, 0x0102);
    assert_eq!(id.len(), 32);
    assert_eq!(id, sha2::Sha256::digest(&expected).to_vec());
    assert_ne!(id, job_id(&world(), JobKind::Radius, 0x0103));
}

#[test]
fn legacy_resume_payload_keeps_unfinished_coordinates() {
    let cursor = legacy_cursor(&vec![
        LegacyResumeEntry(c(1, 1), true),
        LegacyResumeEntry(c(2, 2), false),
        LegacyResumeEntry(c(3, 3), false),
    ]);
    assert_eq!(cursor, JobCursor { coordinates: vec![c(2, 2), c(3, 3)], next: 0, revision: 0 });
}

#[test]
fn run_start_decisions() {
    let cursor = JobCursor { coordinates: vec![c(0, 0), c(1, 0)], next: 1, revision: 7 };
    assert_eq!(run_start(JobState::Cancelled, &cursor, 0, false), Ok(RunStart::Cancelled));
    assert_eq!(run_start(JobState::Failed, &cursor, 0, false), Ok(RunStart::Finished));
    assert_eq!(
        run_start(JobState::Running, &cursor, 0, false),
        Err(SchedulerError::InvalidJob("render job cursor and completed count disagree"))
    );
    assert_eq!(run_start(JobState::Resumable, &cursor, 1, false), Ok(RunStart::Proceed));
    assert_eq!(run_start(JobState::Resumable, &cursor, 1, true), Ok(RunStart::Cancelled));
    let empty = JobCursor { coordinates: vec![], next: 0, revision: 0 };
    assert_eq!(run_start(JobState::Running, &empty, 0, true), Ok(RunStart::CompleteEmpty));
}

#[test]
fn a_run_advances_until_done() {
    let mut progress = JobProgress::new(0, 2, 10);
    assert!(progress.wants_step());
    assert_eq!(
        progress.record(StepEvent::Rendered(RenderDisposition::Installed, false)),
        StepAction::Advanced(JobState::Running)
    );
    assert_eq!(
        progress.record(StepEvent::Rendered(RenderDisposition::Missing, false)),
        StepAction::Advanced(JobState::Completed)
    );
    assert!(!progress.wants_step());
    assert_eq!(progress.report.completed, 2);
    assert_eq!(progress.report.selected, 2);
    assert_eq!(progress.finish(), FinishAction::Nothing);
}

#[test]
fn a_stale_render_leaves_the_job_resumable() {
    let mut progress = JobProgress::new(0, 3, 10);
    progress.record(StepEvent::Rendered(RenderDisposition::Installed, false));
    assert_eq!(progress.record(StepEvent::Rendered(RenderDisposition::Stale, false)), StepAction::Stop);
    assert!(!progress.wants_step());
    assert_eq!(progress.report.stale, 1);
    assert_eq!(progress.next, 1);
    assert_eq!(progress.finish(), FinishAction::MarkResumable);
}

#[test]
fn cancels_stop_the_run() {
    let mut before = JobProgress::new(0, 3, 10);
    assert_eq!(before.record(StepEvent::CancelledBefore), StepAction::Stop);
    assert_eq!(before.report.selected, 0);
    assert_eq!(before.finish(), FinishAction::MarkCancelled);
    let mut after = JobProgress::new(0, 3, 10);
    assert_eq!(after.record(StepEvent::Rendered(RenderDisposition::Installed, true)), StepAction::Stop);
    assert_eq!(after.next, 0);
    assert_eq!(after.report.selected, 1);
    assert!(after.report.cancelled);
}

#[test]
fn steps_are_bounded() {
    let mut progress = JobProgress::new(0, 5, 1);
    progress.record(StepEvent::Rendered(RenderDisposition::Installed, false));
    assert!(!progress.wants_step());
    assert_eq!(progress.finish(), FinishAction::MarkResumable);
}

#[test]
fn cancel_moves_unfinished_jobs_only() {
    assert_eq!(cancel_transition(JobState::Running), Some(JobState::Cancelled));
    assert_eq!(cancel_transition(JobState::Resumable), Some(JobState::Cancelled));
    assert_eq!(cancel_transition(JobState::Completed), None);
    assert_eq!(cancel_transition(JobState::Failed), None);
    assert_eq!(cancel_transition(JobState::Cancelled), None);
}

#[test]
fn scheduler_limits_must_be_positive() {
    let defaults = SchedulerConfig::default();
    assert_eq!(defaults.max_active_snapshots, 96);
    assert_eq!(defaults.dirty_page_size, 256);
    assert_eq!(defaults.background_interval_seconds, 15);
    assert_eq!(defaults.transient_retry_delay_millis, 25);
    assert_eq!(validate_scheduler_config(&defaults), Ok(()));
    assert_eq!(
        validate_scheduler_config(&SchedulerConfig::with_limits(0, 1, 1)),
        Err(SchedulerError::InvalidConfig("snapshot credit count must be positive"))
    );
    assert_eq!(
        validate_scheduler_config(&SchedulerConfig::with_limits(1, 0, 1)),
        Err(SchedulerError::InvalidConfig("dirty page size must be positive"))
    );
    assert_eq!(
        validate_scheduler_config(&SchedulerConfig::with_limits(1, 1, 0)),
        Err(SchedulerError::InvalidConfig("background interval must be positive"))
    );
}

#[test]
fn scheduler_errors_read_as_their_messages() {
    assert_eq!(SchedulerError::MissingJob.display_text(), "render job does not exist");
    assert_eq!(SchedulerError::Install("full".to_string()).display_text(), "tile installation failed: full");
    assert_eq!(SchedulerError::InvalidJob("render job cancelled").display_text(), "render job cancelled");
    assert_eq!(SchedulerError::Repository("locked".to_string()).display_text(), "locked");
    assert_eq!(
        SchedulerError::Bridge(squaremap_server::scheduler::BridgeError::Transient("slow".to_string())).display_text(),
        "transient snapshot bridge error: slow"
    );
    assert_eq!(
        squaremap_server::scheduler::BridgeError::Permanent("gone".to_string()).display_text(),
        "snapshot bridge error: gone"
    );
}

#[test]
fn a_run_of_a_missing_job_fails_and_finished_jobs_stay_stored() {
    let cursor = JobCursor { coordinates: vec![ChunkCoordinate { x: 0, z: 0 }], next: 0, revision: 1 };
    assert_eq!(run_begin(None, false), Err(SchedulerError::MissingJob));
    let cancelled = run_begin(Some((JobState::Cancelled, &cursor, 0)), false).unwrap();
    assert_eq!(cancelled, RunStart::Cancelled);
    assert_eq!(cancelled.stored_state(), None);
    let finished = run_begin(Some((JobState::Completed, &cursor, 0)), false).unwrap();
    assert_eq!(finished.stored_state(), None);
    let failed = run_begin(Some((JobState::Failed, &cursor, 0)), false).unwrap();
    assert_eq!(failed, RunStart::Finished);
    let running = run_begin(Some((JobState::Resumable, &cursor, 0)), false).unwrap();
    assert_eq!(running.stored_state(), Some(JobState::Running));
    let empty = JobCursor { coordinates: Vec::new(), next: 0, revision: 1 };
    let done = run_begin(Some((JobState::Running, &empty, 0)), false).unwrap();
    assert_eq!(done.stored_state(), Some(JobState::Completed));
    assert!(run_begin(Some((JobState::Running, &cursor, 1)), false).is_err());
}
