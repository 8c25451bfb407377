//! Render jobs: the checks on a new job, its identifier, the cursor that a
//! job persists, and the decisions of a job run between its renders.
use vstd::prelude::*;
use vstd::string::StrSliceExecFns;
use vstd::utf8::encode_utf8;
use sha2::Digest;
use super::{RenderDisposition, RunReport, SchedulerError};
use crate::wire::{ChunkCoordinate, WorldIdentity, WorldKey};

verus! {

/// What a render job covers.
#[derive(Clone, Copy, Debug, PartialEq, Eq, Structural)]
pub enum JobKind {
    Full,
    Radius,
    Resume,
}

/// The byte that stands for a job kind in a job identifier.
pub open spec fn job_kind_code(kind: JobKind) -> u8 {
    match kind {
        JobKind::Full => 0,
        JobKind::Radius => 1,
        JobKind::Resume => 2,
    }
}

impl JobKind {
    pub fn code(&self) -> (c: u8)
        ensures
            c == job_kind_code(*self),
    {
        match self {
            JobKind::Full => 0,
            JobKind::Radius => 1,
            JobKind::Resume => 2,
        }
    }
}

/// Where a render job stands.
#[derive(Clone, Copy, Debug, PartialEq, Eq, Structural)]
pub enum JobState {
    Running,
    Resumable,
    Completed,
    Failed,
    Cancelled,
}

/// The progress a job persists: its coordinates, the index of the next one to
/// render and the revision its renders install at.
#[derive(Clone, Debug, PartialEq, Eq)]
pub struct JobCursor {
    pub coordinates: Vec<ChunkCoordinate>,
    pub next: usize,
    pub revision: u64,
}

/// One entry of the older resume payload: a coordinate and whether it was done.
#[derive(Clone, Copy, Debug, PartialEq, Eq)]
pub struct LegacyResumeEntry(pub ChunkCoordinate, pub bool);

/// The coordinates of `entries` that were not done, in order.
pub open spec fn pending_of(entries: Seq<LegacyResumeEntry>) -> Seq<ChunkCoordinate>
    decreases entries.len(),
{
    if entries.len() == 0 {
        Seq::empty()
    } else {
        let rest = pending_of(entries.drop_last());
        if entries.last().1 {
            rest
        } else {
            rest.push(entries.last().0)
        }
    }
}

/// The cursor that an older resume payload stands for: the entries not yet
/// done, from the start, at revision zero.
pub fn legacy_cursor(entries: &Vec<LegacyResumeEntry>) -> (c: JobCursor)
    ensures
        c.coordinates@ == pending_of(entries@),
        c.next == 0,
        c.revision == 0,
{
    let mut coordinates: Vec<ChunkCoordinate> = Vec::new();
    let mut i: usize = 0;
    while i < entries.len()
        invariant
            i <= entries@.len(),
            coordinates@ == pending_of(entries@.subrange(0, i as int)),
        decreases entries@.len() - i,
    {
        let entry = entries[i];
        proof {
            assert(entries@.subrange(0, i + 1).drop_last() =~= entries@.subrange(0, i as int));
        }
        if !entry.1 {
            coordinates.push(entry.0);
        }
        i = i + 1;
    }
    assert(entries@.subrange(0, entries@.len() as int) =~= entries@);
    JobCursor { coordinates, next: 0, revision: 0 }
}

/// What starting a job with `count` coordinates answers.
pub open spec fn start_verdict(kind: JobKind, count: nat) -> Result<(), SchedulerError> {
    if !(kind == JobKind::Full || kind == JobKind::Radius) {
        Err(SchedulerError::InvalidJob("scheduler can only start full or radius jobs"))
    } else if count == 0 {
        Err(SchedulerError::InvalidJob("render job requires at least one coordinate"))
    } else {
        Ok(())
    }
}

/// Checks that a new job is a full or radius job with at least one coordinate.
pub fn validate_job_start(kind: JobKind, coordinates: &Vec<ChunkCoordinate>) -> (r: Result<(), SchedulerError>)
    ensures
        r == start_verdict(kind, coordinates@.len()),
{
    match kind {
        JobKind::Full | JobKind::Radius => {},
        JobKind::Resume => {
            return Err(SchedulerError::InvalidJob("scheduler can only start full or radius jobs"));
        },
    }
    if coordinates.len() == 0 {
        return Err(SchedulerError::InvalidJob("render job requires at least one coordinate"));
    }
    Ok(())
}

/// The `n` low bytes of `v`, least significant first.
pub open spec fn le_bytes(v: nat, n: nat) -> Seq<u8>
    decreases n,
{
    if n == 0 {
        Seq::empty()
    } else {
        seq![(v % 256) as u8] + le_bytes(v / 256, (n - 1) as nat)
    }
}

fn push_le(out: &mut Vec<u8>, v: u64, n: usize)
    ensures
        final(out)@ == old(out)@ + le_bytes(v as nat, n as nat),
    decreases n,
{
    if n > 0 {
        out.push((v % 256) as u8);
        push_le(out, v / 256, n - 1);
        proof {
            assert(old(out)@ + le_bytes(v as nat, n as nat) =~= old(out)@.push((v % 256) as u8) + le_bytes(
                (v / 256) as nat,
                (n - 1) as nat,
            ));
        }
    } else {
        assert(old(out)@ + le_bytes(v as nat, 0) =~= old(out)@);
    }
}

/// The bytes a job identifier is hashed from: the world's namespace and value
/// in UTF-8, each closed by a zero byte, the epoch in eight little-endian
/// bytes, the kind's byte and the nonce in eight little-endian bytes.
pub open spec fn job_id_preimage(world: WorldKey, kind: JobKind, nonce: u64) -> Seq<u8> {
    encode_utf8(world.0) + seq![0u8] + encode_utf8(world.1) + seq![0u8] + le_bytes(world.2 as nat, 8)
        + seq![job_kind_code(kind)] + le_bytes(nonce as nat, 8)
}

/// Builds the bytes a job identifier is hashed from.
pub fn job_id_input(world: &WorldIdentity, kind: JobKind, nonce: u64) -> (bytes: Vec<u8>)
    ensures
        bytes@ == job_id_preimage(world@, kind, nonce),
{
    let mut bytes = world.namespace.as_str().as_bytes_vec();
    bytes.push(0);
    let mut value = world.value.as_str().as_bytes_vec();
    bytes.append(&mut value);
    bytes.push(0);
    push_le(&mut bytes, world.epoch, 8);
    bytes.push(kind.code());
    push_le(&mut bytes, nonce, 8);
    proof {
        assert(bytes@ =~= job_id_preimage(world@, kind, nonce));
    }
    bytes
}

/// The SHA-256 digest of a byte string.
pub uninterp spec fn sha256_digest(data: Seq<u8>) -> Seq<u8>;

/// `sha2::Sha256::digest`: the 32-byte SHA-256 digest of `data`.
///
/// Claims that the result is the digest named `sha256_digest` of the input
/// and that it is 32 bytes long, as the `U32` output size of `Sha256` fixes.
#[verifier::external_body]
fn sha256(data: &Vec<u8>) -> (digest: Vec<u8>)
    ensures
        digest@ == sha256_digest(data@),
        digest@.len() == 32,
{
    sha2::Sha256::digest(data.as_slice()).to_vec()
}

/// The identifier of a new job: the SHA-256 digest of its preimage.
pub fn job_id(world: &WorldIdentity, kind: JobKind, nonce: u64) -> (id: Vec<u8>)
    ensures
        id@ == sha256_digest(job_id_preimage(world@, kind, nonce)),
        id@.len() == 32,
{
    let input = job_id_input(world, kind, nonce);
    sha256(&input)
}

/// How a run begins on a loaded job.
#[derive(Clone, Copy, Debug, PartialEq, Eq, Structural)]
pub enum RunStart {
    /// The job was cancelled: report a cancelled run.
    Cancelled,
    /// The job already completed or failed: report an empty run.
    Finished,
    /// The job has no coordinates: mark it completed and report an empty run.
    CompleteEmpty,
    /// Mark the job running and render.
    Proceed,
}

/// The message of a cursor that disagrees with the job's completed count.
pub open spec fn cursor_mismatch() -> SchedulerError {
    SchedulerError::InvalidJob("render job cursor and completed count disagree")
}

/// How a run begins, given the job's state, its cursor, its completed count
/// and whether the job was asked to cancel.
pub open spec fn run_start_spec(
    state: JobState,
    next: nat,
    count: nat,
    completed: nat,
    cancel_requested: bool,
) -> Result<RunStart, SchedulerError> {
    if state == JobState::Cancelled {
        Ok(RunStart::Cancelled)
    } else if state == JobState::Completed || state == JobState::Failed {
        Ok(RunStart::Finished)
    } else if next > count || completed != next {
        Err(cursor_mismatch())
    } else if count == 0 {
        Ok(RunStart::CompleteEmpty)
    } else if cancel_requested {
        Ok(RunStart::Cancelled)
    } else {
        Ok(RunStart::Proceed)
    }
}

/// Decides how a run begins.
pub fn run_start(state: JobState, cursor: &JobCursor, completed_chunks: u64, cancel_requested: bool) -> (r: Result<
    RunStart,
    SchedulerError,
>)
    ensures
        r == run_start_spec(state, cursor.next as nat, cursor.coordinates@.len(), completed_chunks as nat, cancel_requested),
{
    if state == JobState::Cancelled {
        return Ok(RunStart::Cancelled);
    }
    if state == JobState::Completed || state == JobState::Failed {
        return Ok(RunStart::Finished);
    }
    if cursor.next > cursor.coordinates.len() || completed_chunks != cursor.next as u64 {
        return Err(SchedulerError::InvalidJob("render job cursor and completed count disagree"));
    }
    if cursor.coordinates.len() == 0 {
        return Ok(RunStart::CompleteEmpty);
    }
    if cancel_requested {
        return Ok(RunStart::Cancelled);
    }
    Ok(RunStart::Proceed)
}

/// How a run of the job looked up by its identifier begins: a job that is not
/// stored is an error, and a stored one begins as [`run_start`] decides from
/// its state, cursor and completed count.
pub fn run_begin(job: Option<(JobState, &JobCursor, u64)>, cancel_requested: bool) -> (r: Result<
    RunStart,
    SchedulerError,
>)
    ensures
        match job {
            None => r == Err::<RunStart, SchedulerError>(SchedulerError::MissingJob),
            Some((state, cursor, completed)) => r == run_start_spec(
                state,
                cursor.next as nat,
                cursor.coordinates@.len(),
                completed as nat,
                cancel_requested,
            ),
        },
{
    match job {
        None => Err(SchedulerError::MissingJob),
        Some((state, cursor, completed)) => run_start(state, cursor, completed, cancel_requested),
    }
}

/// The state a run stores its job in before it goes on, or `None` where the
/// stored job stays as it is.
pub open spec fn stored_state_spec(start: RunStart) -> Option<JobState> {
    match start {
        RunStart::Cancelled => None,
        RunStart::Finished => None,
        RunStart::CompleteEmpty => Some(JobState::Completed),
        RunStart::Proceed => Some(JobState::Running),
    }
}

impl RunStart {
    /// The state the job is stored in as the run begins: a cancelled or
    /// finished job is left untouched, an empty one completes, and a job that
    /// renders is marked running.
    pub fn stored_state(&self) -> (s: Option<JobState>)
        ensures
            s == stored_state_spec(*self),
    {
        match self {
            RunStart::Cancelled => None,
            RunStart::Finished => None,
            RunStart::CompleteEmpty => Some(JobState::Completed),
            RunStart::Proceed => Some(JobState::Running),
        }
    }
}

/// What one step of a run saw: a cancel before the render, or the render's
/// outcome together with whether a cancel came in while it ran.
#[derive(Clone, Copy, Debug, PartialEq, Eq, Structural)]
pub enum StepEvent {
    CancelledBefore,
    Rendered(RenderDisposition, bool),
}

/// What the run does after a step.
#[derive(Clone, Copy, Debug, PartialEq, Eq, Structural)]
pub enum StepAction {
    /// The cursor advanced: persist it with this state and go on.
    Advanced(JobState),
    /// The run stops here.
    Stop,
}

/// What the run does once its loop ends.
#[derive(Clone, Copy, Debug, PartialEq, Eq, Structural)]
pub enum FinishAction {
    /// Mark the stored job cancelled, unless it already is.
    MarkCancelled,
    /// Persist the cursor and mark the job resumable.
    MarkResumable,
    /// Nothing is left to persist.
    Nothing,
}

/// The loop state of one job run.
#[derive(Clone, Copy, Debug, PartialEq, Eq)]
pub struct JobProgress {
    pub start: usize,
    pub next: usize,
    pub total: usize,
    pub max_steps: usize,
    pub report: RunReport,
}

impl JobProgress {
    /// What every run state keeps: the cursor stays within its coordinates,
    /// no more steps are taken than allowed, and each completed render
    /// advanced the cursor by one.
    pub open spec fn wf(&self) -> bool {
        &&& self.start <= self.next <= self.total
        &&& self.report.selected <= self.max_steps
        &&& self.report.completed == self.next - self.start
        &&& self.report.completed + self.report.stale <= self.report.selected
    }

    /// Whether the loop takes another step.
    pub open spec fn wants_step_spec(&self) -> bool {
        self.next < self.total && self.report.selected < self.max_steps && !self.report.cancelled
            && self.report.stale == 0
    }

    /// A run that starts at `next` of `total` coordinates and takes at most
    /// `max_steps` steps.
    pub fn new(next: usize, total: usize, max_steps: usize) -> (p: JobProgress)
        requires
            next <= total,
        ensures
            p.wf(),
            p.start == next,
            p.next == next,
            p.total == total,
            p.max_steps == max_steps,
            p.report == (RunReport { selected: 0, completed: 0, stale: 0, cancelled: false }),
    {
        JobProgress { start: next, next, total, max_steps, report: RunReport::empty() }
    }

    /// Whether the loop takes another step.
    pub fn wants_step(&self) -> (b: bool)
        ensures
            b == self.wants_step_spec(),
    {
        self.next < self.total && self.report.selected < self.max_steps && !self.report.cancelled
            && self.report.stale == 0
    }

    /// Records one step. A cancel before the render stops the run; an
    /// installed or missing chunk advances the cursor unless a cancel came in
    /// while it rendered; a stale or cancelled render stops the run.
    pub fn record(&mut self, event: StepEvent) -> (action: StepAction)
        requires
            old(self).wf(),
            old(self).wants_step_spec(),
        ensures
            final(self).wf(),
            final(self).start == old(self).start,
            final(self).total == old(self).total,
            final(self).max_steps == old(self).max_steps,
            match event {
                StepEvent::CancelledBefore => {
                    &&& action == StepAction::Stop
                    &&& final(self).next == old(self).next
                    &&& final(self).report == (RunReport { cancelled: true, ..old(self).report })
                },
                StepEvent::Rendered(d, cancelled_after) => {
                    &&& final(self).report.selected == old(self).report.selected + 1
                    &&& match d {
                        RenderDisposition::Installed | RenderDisposition::Missing => if cancelled_after {
                            &&& action == StepAction::Stop
                            &&& final(self).next == old(self).next
                            &&& final(self).report == (RunReport {
                                selected: (old(self).report.selected + 1) as usize,
                                cancelled: true,
                                ..old(self).report
                            })
                        } else {
                            &&& final(self).next == old(self).next + 1
                            &&& action == StepAction::Advanced(
                                if final(self).next == old(self).total { JobState::Completed } else { JobState::Running },
                            )
                            &&& final(self).report == (RunReport {
                                selected: (old(self).report.selected + 1) as usize,
                                completed: (old(self).report.completed + 1) as usize,
                                ..old(self).report
                            })
                        },
                        RenderDisposition::Stale => {
                            &&& action == StepAction::Stop
                            &&& final(self).next == old(self).next
                            &&& final(self).report == (RunReport {
                                selected: (old(self).report.selected + 1) as usize,
                                stale: (old(self).report.stale + 1) as usize,
                                ..old(self).report
                            })
                        },
                        RenderDisposition::Cancelled => {
                            &&& action == StepAction::Stop
                            &&& final(self).next == old(self).next
                            &&& final(self).report == (RunReport {
                                selected: (old(self).report.selected + 1) as usize,
                                cancelled: true,
                                ..old(self).report
                            })
                        },
                    }
                },
            },
    {
        match event {
            StepEvent::CancelledBefore => {
                self.report.cancelled = true;
                StepAction::Stop
            },
            StepEvent::Rendered(d, cancelled_after) => {
                self.report.selected = self.report.selected + 1;
                match d {
                    RenderDisposition::Installed | RenderDisposition::Missing => {
                        if cancelled_after {
                            self.report.cancelled = true;
                            StepAction::Stop
                        } else {
                            self.next = self.next + 1;
                            self.report.completed = self.report.completed + 1;
                            if self.next == self.total {
                                StepAction::Advanced(JobState::Completed)
                            } else {
                                StepAction::Advanced(JobState::Running)
                            }
                        }
                    },
                    RenderDisposition::Stale => {
                        self.report.stale = self.report.stale + 1;
                        StepAction::Stop
                    },
                    RenderDisposition::Cancelled => {
                        self.report.cancelled = true;
                        StepAction::Stop
                    },
                }
            },
        }
    }

    /// What is left to persist once the loop ends.
    pub fn finish(&self) -> (action: FinishAction)
        ensures
            action == (if self.report.cancelled {
                FinishAction::MarkCancelled
            } else if self.next < self.total {
                FinishAction::MarkResumable
            } else {
                FinishAction::Nothing
            }),
    {
        if self.report.cancelled {
            FinishAction::MarkCancelled
        } else if self.next < self.total {
            FinishAction::MarkResumable
        } else {
            FinishAction::Nothing
        }
    }
}

/// The state a cancel request moves a stored job to: running and resumable
/// jobs become cancelled, finished ones stay as they are.
pub fn cancel_transition(state: JobState) -> (next: Option<JobState>)
    ensures
        next == (if state == JobState::Completed || state == JobState::Failed || state == JobState::Cancelled {
            None::<JobState>
        } else {
            Some(JobState::Cancelled)
        }),
{
    match state {
        JobState::Completed | JobState::Failed | JobState::Cancelled => None,
        JobState::Running | JobState::Resumable => Some(JobState::Cancelled),
    }
}

} // verus!
