//! The renders that control requests start, one per world at most: a world
//! is first reserved while its coordinates are discovered, then holds the
//! job that renders them, and is released when the job ends or is cancelled.
use vstd::prelude::*;
use crate::control::{BackendResultCode, ControlKind, ControlRequest};
use crate::assoc::{distinct_keys, lemma_map_of_dom, lemma_map_of_push, lemma_map_of_remove, lemma_map_of_update, map_of};
use crate::wire::{ChunkCoordinate, WorldIdentity, WorldKey};
use crate::radius::{chunk_of, chunks_from_blocks, square_chunk};
use crate::scheduler::jobs::JobKind;

verus! {

/// The most chunks one control request may render.
pub const MAX_CONTROL_CHUNKS: usize = 16384;

/// Where a world's render stands.
#[derive(Debug, Clone, PartialEq, Eq)]
pub enum RenderEntry {
    /// Its coordinates are being discovered.
    Discovering,
    /// The job with this identifier renders it.
    Running(Vec<u8>),
}

/// The mathematical content of a [`RenderEntry`]: `None` while discovering,
/// the job identifier once running.
pub open spec fn entry_view(e: RenderEntry) -> Option<Seq<u8>> {
    match e {
        RenderEntry::Discovering => None,
        RenderEntry::Running(id) => Some(id@),
    }
}

pub open spec fn pair_view(p: (WorldIdentity, RenderEntry)) -> (WorldKey, Option<Seq<u8>>) {
    (p.0@, entry_view(p.1))
}

/// The renders in progress, one entry per world.
pub struct RenderRegistry {
    entries: Vec<(WorldIdentity, RenderEntry)>,
}

impl View for RenderRegistry {
    type V = Map<WorldKey, Option<Seq<u8>>>;

    closed spec fn view(&self) -> Map<WorldKey, Option<Seq<u8>>> {
        map_of(self.entries@.map_values(|p: (WorldIdentity, RenderEntry)| pair_view(p)))
    }
}

/// What cancelling a world's render takes.
#[derive(Debug, Clone, PartialEq, Eq)]
pub enum CancelPlan {
    /// Nothing renders the world.
    NotInProgress,
    /// Its discovery was stopped and the world released.
    StopDiscovery,
    /// The job with this identifier must be cancelled.
    CancelJob(Vec<u8>),
}

impl RenderRegistry {
    closed spec fn pairs(&self) -> Seq<(WorldKey, Option<Seq<u8>>)> {
        self.entries@.map_values(|p: (WorldIdentity, RenderEntry)| pair_view(p))
    }

    /// No world has two entries.
    pub closed spec fn wf(&self) -> bool {
        distinct_keys(self.pairs())
    }

    pub fn new() -> (r: RenderRegistry)
        ensures
            r.wf(),
            r@ == Map::<WorldKey, Option<Seq<u8>>>::empty(),
    {
        let r = RenderRegistry { entries: Vec::new() };
        assert(r.pairs() =~= Seq::<(WorldKey, Option<Seq<u8>>)>::empty());
        r
    }

    fn find(&self, world: &WorldIdentity) -> (r: Option<usize>)
        requires
            self.wf(),
        ensures
            match r {
                Some(i) => i < self.entries@.len() && self.entries@[i as int].0@ == world@ && self@.dom().contains(
                    world@,
                ) && self@[world@] == entry_view(self.entries@[i as int].1),
                None => !self@.dom().contains(world@),
            },
    {
        let mut i: usize = 0;
        while i < self.entries.len()
            invariant
                i <= self.entries@.len(),
                self.wf(),
                forall|j: int| 0 <= j < i ==> self.entries@[j].0@ != world@,
            decreases self.entries@.len() - i,
        {
            if self.entries[i].0.same(world) {
                proof {
                    lemma_map_of_dom(self.pairs(), world@);
                    assert(self.pairs()[i as int].0 == world@);
                }
                return Some(i);
            }
            i = i + 1;
        }
        proof {
            lemma_map_of_dom(self.pairs(), world@);
            if exists|j: int| 0 <= j < self.pairs().len() && self.pairs()[j].0 == world@ {
                let j = choose|j: int| 0 <= j < self.pairs().len() && self.pairs()[j].0 == world@;
                assert(self.entries@[j].0@ == world@);
            }
        }
        None
    }

    /// Whether a render of `world` is being discovered or run.
    pub fn in_progress(&self, world: &WorldIdentity) -> (b: bool)
        requires
            self.wf(),
        ensures
            b == self@.dom().contains(world@),
    {
        self.find(world).is_some()
    }

    /// Reserves `world` for a new render; refused where one is in progress.
    pub fn reserve(&mut self, world: &WorldIdentity) -> (reserved: bool)
        requires
            old(self).wf(),
        ensures
            final(self).wf(),
            reserved == !old(self)@.dom().contains(world@),
            reserved ==> final(self)@ == old(self)@.insert(world@, None),
            !reserved ==> final(self)@ == old(self)@,
    {
        if self.find(world).is_some() {
            return false;
        }
        let ghost before = self.pairs();
        self.entries.push((world.duplicate(), RenderEntry::Discovering));
        proof {
            assert(self.pairs() =~= before.push((world@, None)));
            lemma_map_of_push(before, world@, None);
        }
        true
    }

    /// Releases `world`, whatever its render's state.
    pub fn release(&mut self, world: &WorldIdentity)
        requires
            old(self).wf(),
        ensures
            final(self).wf(),
            final(self)@ == old(self)@.remove(world@),
    {
        match self.find(world) {
            None => {
                assert(self@ =~= self@.remove(world@));
            },
            Some(i) => {
                let ghost before = self.pairs();
                self.entries.remove(i);
                proof {
                    assert(self.pairs() =~= before.remove(i as int));
                    lemma_map_of_remove(before, i as int);
                }
            },
        }
    }

    /// Hands a reserved world to the job that renders it. Answers whether
    /// the render was cancelled meanwhile: the world is no longer being
    /// discovered, and nothing changes.
    pub fn promote(&mut self, world: &WorldIdentity, job_id: Vec<u8>) -> (cancelled: bool)
        requires
            old(self).wf(),
        ensures
            final(self).wf(),
            cancelled == !(old(self)@.dom().contains(world@) && old(self)@[world@] is None),
            !cancelled ==> final(self)@ == old(self)@.insert(world@, Some(job_id@)),
            cancelled ==> final(self)@ == old(self)@,
    {
        match self.find(world) {
            None => true,
            Some(i) => {
                let discovering = match &self.entries[i].1 {
                    RenderEntry::Discovering => true,
                    RenderEntry::Running(_) => false,
                };
                if !discovering {
                    return true;
                }
                let ghost before = self.pairs();
                let key = self.entries[i].0.duplicate();
                let ghost id = job_id@;
                self.entries.set(i, (key, RenderEntry::Running(job_id)));
                proof {
                    assert(self.pairs() =~= before.update(i as int, (before[i as int].0, Some(id))));
                    lemma_map_of_update(before, i as int, Some(id));
                }
                false
            },
        }
    }

    /// Looks up what cancelling `world`'s render takes. A render still being
    /// discovered is stopped at once and the world released; a running job is
    /// left for the caller to cancel.
    pub fn cancel(&mut self, world: &WorldIdentity) -> (plan: CancelPlan)
        requires
            old(self).wf(),
        ensures
            final(self).wf(),
            !old(self)@.dom().contains(world@) ==> plan == CancelPlan::NotInProgress && final(self)@ == old(self)@,
            old(self)@.dom().contains(world@) && old(self)@[world@] is None ==> plan == CancelPlan::StopDiscovery
                && final(self)@ == old(self)@.remove(world@),
            old(self)@.dom().contains(world@) && old(self)@[world@] is Some ==> (plan matches CancelPlan::CancelJob(id)
                && Some(id@) == old(self)@[world@]) && final(self)@ == old(self)@,
    {
        match self.find(world) {
            None => CancelPlan::NotInProgress,
            Some(i) => {
                let running = match &self.entries[i].1 {
                    RenderEntry::Discovering => None,
                    RenderEntry::Running(id) => Some(id.clone()),
                };
                match running {
                    Some(id) => CancelPlan::CancelJob(id),
                    None => {
                        self.release(world);
                        CancelPlan::StopDiscovery
                    },
                }
            },
        }
    }

    /// Releases `world` if the job `job_id` still renders it.
    pub fn release_job(&mut self, world: &WorldIdentity, job_id: &Vec<u8>)
        requires
            old(self).wf(),
        ensures
            final(self).wf(),
            old(self)@.dom().contains(world@) && old(self)@[world@] == Some(job_id@) ==> final(self)@ == old(
                self,
            )@.remove(world@),
            !(old(self)@.dom().contains(world@) && old(self)@[world@] == Some(job_id@)) ==> final(self)@ == old(
                self,
            )@,
    {
        if let Some(i) = self.find(world) {
            let same = match &self.entries[i].1 {
                RenderEntry::Discovering => false,
                RenderEntry::Running(id) => bytes_equal(id, job_id),
            };
            if same {
                self.release(world);
            }
        }
    }

    /// Empties the registry and hands out every entry, for shutdown.
    pub fn drain(&mut self) -> (drained: Vec<(WorldIdentity, RenderEntry)>)
        requires
            old(self).wf(),
        ensures
            final(self).wf(),
            final(self)@ == Map::<WorldKey, Option<Seq<u8>>>::empty(),
            map_of(drained@.map_values(|p: (WorldIdentity, RenderEntry)| pair_view(p))) == old(self)@,
    {
        let mut drained: Vec<(WorldIdentity, RenderEntry)> = Vec::new();
        std::mem::swap(&mut drained, &mut self.entries);
        assert(self.pairs() =~= Seq::<(WorldKey, Option<Seq<u8>>)>::empty());
        drained
    }
}

fn bytes_equal(a: &Vec<u8>, b: &Vec<u8>) -> (r: bool)
    ensures
        r == (a@ == b@),
{
    crate::wire::bytes_equal(a, b)
}

/// The answer to a pause request: a paused world resumes, a running one pauses.
pub fn pause_toggle(paused: bool) -> (r: (BackendResultCode, bool))
    ensures
        r == (if paused {
            (BackendResultCode::RendersResumed, false)
        } else {
            (BackendResultCode::RendersPaused, true)
        }),
{
    if paused {
        (BackendResultCode::RendersResumed, false)
    } else {
        (BackendResultCode::RendersPaused, true)
    }
}

/// Where the coordinates of a radius render come from.
#[derive(Debug, Clone, Copy, PartialEq, Eq, Structural)]
pub enum RadiusSource {
    /// The request names too many coordinates, or a radius beyond `i32`.
    Invalid,
    /// The request's own coordinates, filtered by the world's visibility.
    Listed,
    /// The chunks within `radius` blocks of the request's centre.
    Blocks(i32),
}

/// Picks the coordinates of a radius render.
pub fn radius_source(request: &ControlRequest) -> (s: RadiusSource)
    ensures
        s == (if request.coordinates@.len() > 0 {
            if request.coordinates@.len() > MAX_CONTROL_CHUNKS {
                RadiusSource::Invalid
            } else {
                RadiusSource::Listed
            }
        } else if request.radius > i32::MAX {
            RadiusSource::Invalid
        } else {
            RadiusSource::Blocks(request.radius as i32)
        }),
{
    if request.coordinates.len() > 0 {
        if request.coordinates.len() > MAX_CONTROL_CHUNKS {
            RadiusSource::Invalid
        } else {
            RadiusSource::Listed
        }
    } else if request.radius > 2147483647u32 {
        RadiusSource::Invalid
    } else {
        RadiusSource::Blocks(request.radius as i32)
    }
}

/// The code a render start answers when its coordinates are refused, or
/// `None` where there are between one and [`MAX_CONTROL_CHUNKS`] of them.
/// Discovered coordinates of a full render that are too many fail; every
/// other refusal is an invalid request.
pub fn coordinate_verdict(kind: ControlKind, count: usize) -> (r: Option<BackendResultCode>)
    ensures
        r == (if kind == ControlKind::FullRender && count > MAX_CONTROL_CHUNKS {
            Some(BackendResultCode::Failed)
        } else if count == 0 || count > MAX_CONTROL_CHUNKS {
            Some(BackendResultCode::InvalidRequest)
        } else {
            None::<BackendResultCode>
        }),
{
    if kind == ControlKind::FullRender && count > MAX_CONTROL_CHUNKS {
        Some(BackendResultCode::Failed)
    } else if count == 0 || count > MAX_CONTROL_CHUNKS {
        Some(BackendResultCode::InvalidRequest)
    } else {
        None
    }
}

/// The code a started render answers.
pub fn started_code(kind: ControlKind) -> (c: BackendResultCode)
    ensures
        c == (if kind == ControlKind::FullRender {
            BackendResultCode::FullRenderStarted
        } else {
            BackendResultCode::RadiusRenderStarted
        }),
{
    if kind == ControlKind::FullRender {
        BackendResultCode::FullRenderStarted
    } else {
        BackendResultCode::RadiusRenderStarted
    }
}

/// Releasing a world right after reserving it leaves the registry as it was.
pub proof fn lemma_reserve_then_release(before: Map<WorldKey, Option<Seq<u8>>>, w: WorldKey)
    requires
        !before.dom().contains(w),
    ensures
        before.insert(w, None).remove(w) == before,
{
    assert(before.insert(w, None).remove(w) =~= before);
}


/// The square of chunks within `radius_blocks` blocks of a block centre, row by row.
pub open spec fn block_square(center_x: i32, center_z: i32, radius_blocks: i32) -> Seq<ChunkCoordinate> {
    let rad = chunk_of(radius_blocks);
    let n = 2 * rad + 1;
    Seq::new((n * n) as nat, |i: int| square_chunk(chunk_of(center_x), chunk_of(center_z), rad, i))
}

/// Where a control request that needs the scheduler stands.
#[derive(Debug, Clone, PartialEq, Eq)]
pub enum ControlStage {
    /// Nothing is done yet.
    Received,
    /// The world is reserved and the chunks of the whole world are being discovered.
    Discovering,
    /// The world is reserved and the chosen chunks are being cut to the visible ones.
    Filtering,
    /// The world is reserved, its chunks are in hand, and its job is being started.
    Starting,
    /// Whether the world's renders are paused is being read.
    Pausing,
    /// The job with this identifier is being cancelled on request.
    Cancelling(Vec<u8>),
    /// The world's durable render state is being reset.
    Resetting,
    /// The world's rendered tiles are being removed.
    RemovingTiles,
    /// The request is answered.
    Done,
}

/// What the scheduler reported for the step in progress.
#[derive(Debug, Clone, PartialEq, Eq)]
pub enum ControlEvent {
    /// The request arrived; whether a scheduler runs.
    Arrived { scheduler: bool },
    /// Discovery ended with these chunks, or failed (`None`).
    Discovered(Option<Vec<ChunkCoordinate>>),
    /// Discovery was stopped by a cancel request.
    DiscoveryCancelled,
    /// These of the chosen chunks are visible.
    Filtered(Vec<ChunkCoordinate>),
    /// The job started with this identifier, or could not start (`None`).
    JobStarted(Option<Vec<u8>>),
    /// Whether the world's renders are paused.
    PauseRead(bool),
    /// Whether cancelling the running job succeeded.
    JobCancelled(bool),
    /// Whether resetting the durable state succeeded.
    ResetDone(bool),
    /// Whether removing the tiles succeeded.
    TilesRemoved(bool),
}

/// What to do next for a control request.
#[derive(Debug, Clone, PartialEq, Eq)]
pub enum ControlAction {
    /// Answer with the control state's own result.
    Baseline,
    /// Answer with this code.
    Answer(BackendResultCode),
    /// Discover the chunks of the whole world.
    Discover,
    /// Cut these chunks to the visible ones.
    Filter(Vec<ChunkCoordinate>),
    /// Start a job of this kind on these chunks, at this configuration revision.
    StartJob(JobKind, Vec<ChunkCoordinate>, u64),
    /// Cancel the job just started, then answer that the render was cancelled.
    CancelStarted(Vec<u8>),
    /// Run the job with this identifier in the background, and answer this code.
    Spawn(Vec<u8>, BackendResultCode),
    /// Read whether the world's renders are paused.
    ReadPause,
    /// Pause the world's renders (`true`) or resume them, and answer this code.
    SetPause(bool, BackendResultCode),
    /// Stop the discovery in progress and answer that the render was cancelled.
    StopDiscovery,
    /// Cancel the running job with this identifier.
    CancelJob(Vec<u8>),
    /// Reset the world's durable render state.
    Reset,
    /// Remove the world's rendered tiles.
    RemoveTiles,
}

/// Whether `event` is what `stage` waits for.
pub open spec fn event_fits(stage: ControlStage, event: ControlEvent) -> bool {
    match stage {
        ControlStage::Received => event is Arrived,
        ControlStage::Discovering => event is Discovered || event is DiscoveryCancelled,
        ControlStage::Filtering => event is Filtered,
        ControlStage::Starting => event is JobStarted,
        ControlStage::Pausing => event is PauseRead,
        ControlStage::Cancelling(_) => event is JobCancelled,
        ControlStage::Resetting => event is ResetDone,
        ControlStage::RemovingTiles => event is TilesRemoved,
        ControlStage::Done => false,
    }
}

/// The code a world's render answers once its chunks are counted, as
/// [`coordinate_verdict`] picks it.
pub open spec fn count_verdict(kind: ControlKind, count: int) -> Option<BackendResultCode> {
    if kind == ControlKind::FullRender && count > MAX_CONTROL_CHUNKS {
        Some(BackendResultCode::Failed)
    } else if count == 0 || count > MAX_CONTROL_CHUNKS {
        Some(BackendResultCode::InvalidRequest)
    } else {
        None
    }
}

/// Takes one step of a control request that needs the scheduler: from the
/// stage it stands in and what the scheduler reported, the next stage and
/// what to do, keeping `registry` (the renders in progress) up to date.
///
/// A request without a kind or a world is invalid; without a scheduler, or
/// for a health or reload request, the control state's own answer stands. A
/// render reserves its world (refused while another render of it is in
/// progress), gathers its chunks (the whole world for a full render, the
/// listed chunks or the square around the centre for a radius render), starts
/// its job and hands the world to it; every failure on the way releases the
/// world. A cancel stops a discovery at once or cancels the running job; a
/// reset is refused while a render is in progress, then resets the durable
/// state and removes the tiles. A job starts on exactly the chunks gathered,
/// at the configuration revision `revision`. Past the first step the request names a world,
/// since a request without one is answered at once.
pub fn control_step(
    stage: &ControlStage,
    request: &ControlRequest,
    revision: u64,
    event: ControlEvent,
    registry: &mut RenderRegistry,
) -> (r: (ControlStage, ControlAction))
    requires
        old(registry).wf(),
        event_fits(*stage, event),
        !(*stage is Received) ==> request.world is Some,
    ensures
        final(registry).wf(),
        // The request arrives.
        event matches ControlEvent::Arrived { scheduler } ==> {
            let kind = request.kind;
            let world = request.world;
            if kind is None || world is None {
                r.0 == ControlStage::Done && r.1 == ControlAction::Answer(BackendResultCode::InvalidRequest)
                    && final(registry)@ == old(registry)@
            } else if !scheduler {
                r.0 == ControlStage::Done && r.1 == ControlAction::Baseline && final(registry)@ == old(registry)@
            } else {
                let k = kind->0;
                let w = (world->0)@;
                if k == ControlKind::FullRender || k == ControlKind::RadiusRender {
                    if old(registry)@.dom().contains(w) {
                        r.0 == ControlStage::Done && r.1 == ControlAction::Answer(BackendResultCode::RenderInProgress)
                            && final(registry)@ == old(registry)@
                    } else if k == ControlKind::FullRender {
                        r.0 == ControlStage::Discovering && r.1 == ControlAction::Discover
                            && final(registry)@ == old(registry)@.insert(w, None)
                    } else if request.coordinates@.len() > 0 && request.coordinates@.len() <= MAX_CONTROL_CHUNKS {
                        r.0 == ControlStage::Filtering && (r.1 matches ControlAction::Filter(c) && c@ == request.coordinates@)
                            && final(registry)@ == old(registry)@.insert(w, None)
                    } else if request.coordinates@.len() == 0 && 1 <= request.radius <= i32::MAX {
                        r.0 == ControlStage::Filtering && (r.1 matches ControlAction::Filter(c)
                            && c@ == block_square(request.center_x, request.center_z, request.radius as i32))
                            && final(registry)@ == old(registry)@.insert(w, None)
                    } else {
                        r.0 == ControlStage::Done && r.1 == ControlAction::Answer(BackendResultCode::InvalidRequest)
                            && final(registry)@ == old(registry)@
                    }
                } else if k == ControlKind::PauseRenders {
                    r.0 == ControlStage::Pausing && r.1 == ControlAction::ReadPause && final(registry)@ == old(registry)@
                } else if k == ControlKind::CancelRender {
                    if !old(registry)@.dom().contains(w) {
                        r.0 == ControlStage::Done && r.1 == ControlAction::Answer(BackendResultCode::RenderNotInProgress)
                            && final(registry)@ == old(registry)@
                    } else if old(registry)@[w] is None {
                        r.0 == ControlStage::Done && r.1 == ControlAction::StopDiscovery
                            && final(registry)@ == old(registry)@.remove(w)
                    } else {
                        (r.0 matches ControlStage::Cancelling(j) && Some(j@) == old(registry)@[w])
                            && (r.1 matches ControlAction::CancelJob(j) && Some(j@) == old(registry)@[w])
                            && final(registry)@ == old(registry)@
                    }
                } else if k == ControlKind::ResetMap {
                    if old(registry)@.dom().contains(w) {
                        r.0 == ControlStage::Done && r.1 == ControlAction::Answer(BackendResultCode::RenderInProgress)
                            && final(registry)@ == old(registry)@
                    } else {
                        r.0 == ControlStage::Resetting && r.1 == ControlAction::Reset && final(registry)@ == old(registry)@
                    }
                } else {
                    r.0 == ControlStage::Done && r.1 == ControlAction::Baseline && final(registry)@ == old(registry)@
                }
            }
        },
        // Discovery of a full render ended.
        event matches ControlEvent::Discovered(found) ==> match found {
            None => r.0 == ControlStage::Done && r.1 == ControlAction::Answer(BackendResultCode::Failed)
                && final(registry)@ == old(registry)@.remove((request.world->0)@),
            Some(chunks) => match count_verdict(ControlKind::FullRender, chunks@.len() as int) {
                Some(code) => r.0 == ControlStage::Done && r.1 == ControlAction::Answer(code)
                    && final(registry)@ == old(registry)@.remove((request.world->0)@),
                None => r.0 == ControlStage::Starting && (r.1 matches ControlAction::StartJob(k, c, rev)
                    && k == JobKind::Full && c@ == chunks@ && rev == revision)
                    && final(registry)@ == old(registry)@,
            },
        },
        event is DiscoveryCancelled ==> r.0 == ControlStage::Done
            && r.1 == ControlAction::Answer(BackendResultCode::RenderCancelled)
            && final(registry)@ == old(registry)@.remove((request.world->0)@),
        // The chunks of a radius render were cut to the visible ones.
        event matches ControlEvent::Filtered(chunks) ==> match count_verdict(ControlKind::RadiusRender, chunks@.len() as int) {
            Some(code) => r.0 == ControlStage::Done && r.1 == ControlAction::Answer(code)
                && final(registry)@ == old(registry)@.remove((request.world->0)@),
            None => r.0 == ControlStage::Starting && (r.1 matches ControlAction::StartJob(k, c, rev)
                && k == JobKind::Radius && c@ == chunks@ && rev == revision)
                && final(registry)@ == old(registry)@,
        },
        // The job was started, or not.
        event matches ControlEvent::JobStarted(started) ==> match started {
            None => r.0 == ControlStage::Done && r.1 == ControlAction::Answer(BackendResultCode::Failed)
                && final(registry)@ == old(registry)@.remove((request.world->0)@),
            Some(id) => {
                let w = (request.world->0)@;
                if old(registry)@.dom().contains(w) && old(registry)@[w] is None {
                    r.0 == ControlStage::Done && (r.1 matches ControlAction::Spawn(j, code) && j@ == id@
                        && code == (if request.kind == Some(ControlKind::FullRender) {
                            BackendResultCode::FullRenderStarted
                        } else {
                            BackendResultCode::RadiusRenderStarted
                        })) && final(registry)@ == old(registry)@.insert(w, Some(id@))
                } else {
                    r.0 == ControlStage::Done && (r.1 matches ControlAction::CancelStarted(j) && j@ == id@)
                        && final(registry)@ == old(registry)@
                }
            },
        },
        // Whether renders were paused was read.
        event matches ControlEvent::PauseRead(paused) ==> r.0 == ControlStage::Done && r.1 == (if paused {
            ControlAction::SetPause(false, BackendResultCode::RendersResumed)
        } else {
            ControlAction::SetPause(true, BackendResultCode::RendersPaused)
        }) && final(registry)@ == old(registry)@,
        // The running job was cancelled, or not.
        event matches ControlEvent::JobCancelled(ok) ==> r.0 == ControlStage::Done && (if ok {
            &&& r.1 == ControlAction::Answer(BackendResultCode::RenderCancelled)
            &&& (stage matches ControlStage::Cancelling(job) && {
                let w = (request.world->0)@;
                if old(registry)@.dom().contains(w) && old(registry)@[w] == Some(job@) {
                    final(registry)@ == old(registry)@.remove(w)
                } else {
                    final(registry)@ == old(registry)@
                }
            })
        } else {
            r.1 == ControlAction::Answer(BackendResultCode::Failed) && final(registry)@ == old(registry)@
        }),
        // The durable state was reset, or not.
        event matches ControlEvent::ResetDone(ok) ==> final(registry)@ == old(registry)@ && (if ok {
            r.0 == ControlStage::RemovingTiles && r.1 == ControlAction::RemoveTiles
        } else {
            r.0 == ControlStage::Done && r.1 == ControlAction::Answer(BackendResultCode::Failed)
        }),
        // The tiles were removed, or not.
        event matches ControlEvent::TilesRemoved(ok) ==> final(registry)@ == old(registry)@
            && r.0 == ControlStage::Done && r.1 == ControlAction::Answer(
            if ok { BackendResultCode::MapReset } else { BackendResultCode::Failed },
        ),
{
    match event {
        ControlEvent::Arrived { scheduler } => {
            let kind = match request.kind {
                Some(k) => k,
                None => return (ControlStage::Done, ControlAction::Answer(BackendResultCode::InvalidRequest)),
            };
            let world = match &request.world {
                Some(w) => w,
                None => return (ControlStage::Done, ControlAction::Answer(BackendResultCode::InvalidRequest)),
            };
            if !scheduler {
                return (ControlStage::Done, ControlAction::Baseline);
            }
            match kind {
                ControlKind::FullRender | ControlKind::RadiusRender => {
                    if !registry.reserve(world) {
                        return (ControlStage::Done, ControlAction::Answer(BackendResultCode::RenderInProgress));
                    }
                    if kind == ControlKind::FullRender {
                        return (ControlStage::Discovering, ControlAction::Discover);
                    }
                    match radius_source(request) {
                        RadiusSource::Invalid => {
                            registry.release(world);
                            proof {
                                lemma_reserve_then_release(old(registry)@, world@);
                            }
                            (ControlStage::Done, ControlAction::Answer(BackendResultCode::InvalidRequest))
                        },
                        RadiusSource::Listed => {
                            let chunks = copy_chunks(&request.coordinates);
                            (ControlStage::Filtering, ControlAction::Filter(chunks))
                        },
                        RadiusSource::Blocks(radius) => match chunks_from_blocks(
                            request.center_x,
                            request.center_z,
                            radius,
                        ) {
                            Ok(chunks) => {
                                assert(chunks@ =~= block_square(request.center_x, request.center_z, radius));
                                (ControlStage::Filtering, ControlAction::Filter(chunks))
                            },
                            Err(_) => {
                                registry.release(world);
                                proof {
                                    lemma_reserve_then_release(old(registry)@, world@);
                                }
                                (ControlStage::Done, ControlAction::Answer(BackendResultCode::InvalidRequest))
                            },
                        },
                    }
                },
                ControlKind::PauseRenders => (ControlStage::Pausing, ControlAction::ReadPause),
                ControlKind::CancelRender => match registry.cancel(world) {
                    CancelPlan::NotInProgress => (
                        ControlStage::Done,
                        ControlAction::Answer(BackendResultCode::RenderNotInProgress),
                    ),
                    CancelPlan::StopDiscovery => (ControlStage::Done, ControlAction::StopDiscovery),
                    CancelPlan::CancelJob(job) => {
                        let copy = job.clone();
                        (ControlStage::Cancelling(copy), ControlAction::CancelJob(job))
                    },
                },
                ControlKind::ResetMap => {
                    if registry.in_progress(world) {
                        (ControlStage::Done, ControlAction::Answer(BackendResultCode::RenderInProgress))
                    } else {
                        (ControlStage::Resetting, ControlAction::Reset)
                    }
                },
                _ => (ControlStage::Done, ControlAction::Baseline),
            }
        },
        ControlEvent::Discovered(found) => match found {
            None => {
                release_requested(request, registry);
                (ControlStage::Done, ControlAction::Answer(BackendResultCode::Failed))
            },
            Some(chunks) => match coordinate_verdict(ControlKind::FullRender, chunks.len()) {
                Some(code) => {
                    release_requested(request, registry);
                    (ControlStage::Done, ControlAction::Answer(code))
                },
                None => (ControlStage::Starting, ControlAction::StartJob(JobKind::Full, chunks, revision)),
            },
        },
        ControlEvent::DiscoveryCancelled => {
            release_requested(request, registry);
            (ControlStage::Done, ControlAction::Answer(BackendResultCode::RenderCancelled))
        },
        ControlEvent::Filtered(chunks) => match coordinate_verdict(ControlKind::RadiusRender, chunks.len()) {
            Some(code) => {
                release_requested(request, registry);
                (ControlStage::Done, ControlAction::Answer(code))
            },
            None => (ControlStage::Starting, ControlAction::StartJob(JobKind::Radius, chunks, revision)),
        },
        ControlEvent::JobStarted(started) => match started {
            None => {
                release_requested(request, registry);
                (ControlStage::Done, ControlAction::Answer(BackendResultCode::Failed))
            },
            Some(id) => {
                let cancelled = match &request.world {
                    Some(world) => registry.promote(world, id.clone()),
                    None => true,
                };
                if cancelled {
                    (ControlStage::Done, ControlAction::CancelStarted(id))
                } else {
                    let full = match request.kind {
                        Some(ControlKind::FullRender) => true,
                        _ => false,
                    };
                    let code = if full {
                        BackendResultCode::FullRenderStarted
                    } else {
                        BackendResultCode::RadiusRenderStarted
                    };
                    (ControlStage::Done, ControlAction::Spawn(id, code))
                }
            },
        },
        ControlEvent::PauseRead(paused) => {
            let (code, pause) = pause_toggle(paused);
            (ControlStage::Done, ControlAction::SetPause(pause, code))
        },
        ControlEvent::JobCancelled(ok) => {
            if ok {
                if let ControlStage::Cancelling(job) = stage {
                    if let Some(world) = &request.world {
                        registry.release_job(world, job);
                    }
                }
                (ControlStage::Done, ControlAction::Answer(BackendResultCode::RenderCancelled))
            } else {
                (ControlStage::Done, ControlAction::Answer(BackendResultCode::Failed))
            }
        },
        ControlEvent::ResetDone(ok) => {
            if ok {
                (ControlStage::RemovingTiles, ControlAction::RemoveTiles)
            } else {
                (ControlStage::Done, ControlAction::Answer(BackendResultCode::Failed))
            }
        },
        ControlEvent::TilesRemoved(ok) => (
            ControlStage::Done,
            ControlAction::Answer(if ok { BackendResultCode::MapReset } else { BackendResultCode::Failed }),
        ),
    }
}

/// Releases the request's world, where it names one.
fn release_requested(request: &ControlRequest, registry: &mut RenderRegistry)
    requires
        old(registry).wf(),
    ensures
        final(registry).wf(),
        request.world matches Some(w) ==> final(registry)@ == old(registry)@.remove(w@),
        request.world is None ==> final(registry)@ == old(registry)@,
{
    if let Some(world) = &request.world {
        registry.release(world);
    }
}

/// A copy of a list of chunks.
fn copy_chunks(chunks: &Vec<ChunkCoordinate>) -> (r: Vec<ChunkCoordinate>)
    ensures
        r@ == chunks@,
{
    let mut r: Vec<ChunkCoordinate> = Vec::new();
    let mut i: usize = 0;
    while i < chunks.len()
        invariant
            i <= chunks@.len(),
            r@ == chunks@.subrange(0, i as int),
        decreases chunks@.len() - i,
    {
        r.push(chunks[i]);
        i = i + 1;
        assert(r@ =~= chunks@.subrange(0, i as int));
    }
    assert(r@ =~= chunks@);
    r
}

} // verus!
