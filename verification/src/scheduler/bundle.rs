//! Rendering one chunk: the checks before and after staging its tiles, the
//! retry rule for transient bridge failures, and how the snapshots of the
//! chunk and its neighbours are gathered into one bundle.
use vstd::prelude::*;
use super::{RenderDisposition, SchedulerError, LIVE_SNAPSHOT_TRANSIENT_ATTEMPTS};
use crate::wire::ChunkCoordinate;

verus! {

/// The bridge's answer for one chunk.
#[derive(Debug, Clone, PartialEq, Eq)]
pub enum Answer<T> {
    Snapshot(T),
    /// The chunk could not be captured; `unloaded` where the reason is that
    /// it is not loaded.
    Missing { unloaded: bool },
}

/// What becomes of a render before its snapshots are fetched: a paused world
/// whose wait ended in a cancel, or a cancelled job, cancels it; a chunk
/// outside the world's visibility counts as installed without rendering.
pub fn entry_verdict(wait_completed: bool, cancelled: bool, visible: bool) -> (d: Option<RenderDisposition>)
    ensures
        d == (if !wait_completed || cancelled {
            Some(RenderDisposition::Cancelled)
        } else if !visible {
            Some(RenderDisposition::Installed)
        } else {
            None::<RenderDisposition>
        }),
{
    if !wait_completed || cancelled {
        Some(RenderDisposition::Cancelled)
    } else if !visible {
        Some(RenderDisposition::Installed)
    } else {
        None
    }
}

/// After a transient bridge failure: the number of attempts so far, and
/// whether a live request (one without a job) gives up and reports the chunk
/// as unloaded. Requests of a job retry until cancelled.
pub fn after_transient(attempts: u32, live: bool) -> (r: (u32, bool))
    requires
        attempts < u32::MAX,
    ensures
        r.0 == attempts + 1,
        r.1 == (live && attempts + 1 >= LIVE_SNAPSHOT_TRANSIENT_ATTEMPTS),
{
    let next = attempts + 1;
    (next, live && next >= LIVE_SNAPSHOT_TRANSIENT_ATTEMPTS)
}

/// How the answer for the chunk itself is used.
#[derive(Debug, Clone, PartialEq, Eq)]
pub enum CenterOutcome<T> {
    Render(T),
    Missing,
    Stale,
}

/// The chunk's own answer: a snapshot renders; an unloaded chunk of a world
/// still current is missing and otherwise stale; any other miss is stale.
pub fn center_outcome<T>(answer: Answer<T>, world_current: bool) -> (o: CenterOutcome<T>)
    ensures
        o == match answer {
            Answer::Snapshot(s) => CenterOutcome::Render(s),
            Answer::Missing { unloaded } => if unloaded && world_current {
                CenterOutcome::<T>::Missing
            } else {
                CenterOutcome::<T>::Stale
            },
        },
{
    match answer {
        Answer::Snapshot(s) => CenterOutcome::Render(s),
        Answer::Missing { unloaded } => {
            if unloaded && world_current {
                CenterOutcome::Missing
            } else {
                CenterOutcome::Stale
            }
        },
    }
}

/// The offsets of a chunk's neighbours, in the order they are fetched:
/// north, south, west, east, then the four corners.
pub open spec fn neighbor_offsets() -> Seq<(int, int)> {
    seq![(0, -1), (0, 1), (-1, 0), (1, 0), (-1, -1), (1, -1), (-1, 1), (1, 1)]
}

/// The eight neighbours of a chunk, in fetch order.
pub fn neighbor_coordinates(center: ChunkCoordinate) -> (n: Vec<ChunkCoordinate>)
    requires
        i32::MIN < center.x < i32::MAX,
        i32::MIN < center.z < i32::MAX,
    ensures
        n@.len() == 8,
        forall|i: int|
            0 <= i < 8 ==> (#[trigger] n@[i]).x == center.x + neighbor_offsets()[i].0 && n@[i].z == center.z
                + neighbor_offsets()[i].1,
{
    let x = center.x;
    let z = center.z;
    let n = vec![
        ChunkCoordinate { x, z: z - 1 },
        ChunkCoordinate { x, z: z + 1 },
        ChunkCoordinate { x: x - 1, z },
        ChunkCoordinate { x: x + 1, z },
        ChunkCoordinate { x: x - 1, z: z - 1 },
        ChunkCoordinate { x: x + 1, z: z - 1 },
        ChunkCoordinate { x: x - 1, z: z + 1 },
        ChunkCoordinate { x: x + 1, z: z + 1 },
    ];
    n
}

/// The neighbours of a rendered chunk: its north and south snapshots where
/// captured, and the other captured neighbours as biome sources.
#[derive(Debug, Clone, PartialEq, Eq)]
pub struct Neighbors<T> {
    pub north: Option<T>,
    pub south: Option<T>,
    pub biome_sources: Vec<T>,
}

/// A captured answer's snapshot, or nothing for a miss.
pub open spec fn captured<T>(a: Answer<T>) -> Option<T> {
    match a {
        Answer::Snapshot(s) => Some(s),
        Answer::Missing { .. } => None,
    }
}

/// Whether a reply is a request given up for a cancelled job.
pub open spec fn is_cancel_reply<T>(r: Result<Answer<T>, SchedulerError>) -> bool {
    r matches Err(SchedulerError::InvalidJob(m)) && m@ == "render job cancelled"@
}

/// The first error among `rs`, in order.
pub open spec fn first_error<T>(rs: Seq<Result<Answer<T>, SchedulerError>>) -> Option<SchedulerError>
    decreases rs.len(),
{
    if rs.len() == 0 {
        None
    } else {
        match rs[0] {
            Err(e) => Some(e),
            Ok(_) => first_error(rs.subrange(1, rs.len() as int)),
        }
    }
}

/// The captured snapshots among `rs`, in order.
pub open spec fn captured_all<T>(rs: Seq<Result<Answer<T>, SchedulerError>>) -> Seq<T>
    decreases rs.len(),
{
    if rs.len() == 0 {
        Seq::empty()
    } else {
        let rest = captured_all(rs.drop_last());
        match rs.last() {
            Ok(Answer::Snapshot(s)) => rest.push(s),
            _ => rest,
        }
    }
}

proof fn lemma_first_error_split<T>(rs: Seq<Result<Answer<T>, SchedulerError>>, k: int)
    requires
        0 <= k <= rs.len(),
        forall|j: int| 0 <= j < k ==> rs[j] is Ok,
    ensures
        first_error(rs) == first_error(rs.subrange(k, rs.len() as int)),
    decreases k,
{
    if k > 0 {
        let t = rs.subrange(1, rs.len() as int);
        assert forall|j: int| 0 <= j < k - 1 implies t[j] is Ok by {
            assert(t[j] == rs[j + 1]);
        }
        lemma_first_error_split(t, k - 1);
        assert(t.subrange(k - 1, t.len() as int) =~= rs.subrange(k, rs.len() as int));
    } else {
        assert(rs.subrange(0, rs.len() as int) =~= rs);
    }
}

/// Gathers the eight neighbour answers of a chunk, in fetch order. A request
/// given up for a cancelled job cancels the bundle (`None`); otherwise the
/// first error, in fetch order, is the bundle's error; otherwise the north
/// and south answers and the captured corner and side answers make it up.
pub fn assemble_neighbors<T>(replies: Vec<Result<Answer<T>, SchedulerError>>) -> (r: Result<
    Option<Neighbors<T>>,
    SchedulerError,
>)
    requires
        replies@.len() == 8,
    ensures
        (exists|j: int| 0 <= j < 8 && is_cancel_reply(#[trigger] replies@[j])) ==> r == Ok::<
            Option<Neighbors<T>>,
            SchedulerError,
        >(None),
        !(exists|j: int| 0 <= j < 8 && is_cancel_reply(#[trigger] replies@[j])) ==> match first_error(replies@) {
            Some(e) => r == Err::<Option<Neighbors<T>>, SchedulerError>(e),
            None => r matches Ok(Some(n)) && n.north == captured(replies@[0]->Ok_0) && n.south == captured(
                replies@[1]->Ok_0,
            ) && n.biome_sources@ == captured_all(replies@.subrange(2, 8)),
        },
{
    let mut i: usize = 0;
    while i < replies.len()
        invariant
            i <= replies@.len(),
            replies@.len() == 8,
            forall|j: int| 0 <= j < i ==> !is_cancel_reply(#[trigger] replies@[j]),
        decreases replies@.len() - i,
    {
        let is_cancel = match &replies[i] {
            Err(SchedulerError::InvalidJob(m)) => same_message(*m, "render job cancelled"),
            _ => false,
        };
        if is_cancel {
            proof {
                assert(is_cancel_reply(replies@[i as int]));
            }
            return Ok(None);
        }
        i = i + 1;
    }
    let ghost all = replies@;
    let mut rest = replies;
    let north_reply = rest.remove(0);
    let south_reply = rest.remove(0);
    assert(rest@ =~= all.subrange(2, 8));
    let north = match north_reply {
        Err(e) => {
            return Err(e);
        },
        Ok(Answer::Snapshot(s)) => Some(s),
        Ok(Answer::Missing { .. }) => None,
    };
    let south = match south_reply {
        Err(e) => {
            proof {
                assert(all[0] is Ok);
                lemma_first_error_split(all, 1);
                assert(all.subrange(1, 8)[0] == all[1]);
            }
            return Err(e);
        },
        Ok(Answer::Snapshot(s)) => Some(s),
        Ok(Answer::Missing { .. }) => None,
    };
    proof {
        lemma_first_error_split(all, 2);
    }
    let mut biome_sources: Vec<T> = Vec::new();
    let ghost tail = all.subrange(2, 8);
    let mut k: usize = 0;
    let n = rest.len();
    let mut items = rest;
    while k < n
        invariant
            n == 6,
            k <= n,
            tail.len() == 6,
            tail == all.subrange(2, 8),
            all == replies@,
            all.len() == 8,
            forall|j: int| 0 <= j < 8 ==> !is_cancel_reply(#[trigger] all[j]),
            items@ == tail.subrange(k as int, 6),
            forall|j: int| 0 <= j < k ==> tail[j] is Ok,
            biome_sources@ == captured_all(tail.subrange(0, k as int)),
            first_error(all) == first_error(tail),
        decreases n - k,
    {
        let item = items.remove(0);
        assert(item == tail[k as int]);
        assert(items@ =~= tail.subrange(k + 1, 6));
        proof {
            assert(tail.subrange(0, k + 1).drop_last() =~= tail.subrange(0, k as int));
        }
        match item {
            Err(e) => {
                proof {
                    lemma_first_error_split(tail, k as int);
                    let t = tail.subrange(k as int, tail.len() as int);
                    assert(t[0] == tail[k as int]);
                }
                return Err(e);
            },
            Ok(Answer::Snapshot(s)) => {
                biome_sources.push(s);
            },
            Ok(Answer::Missing { .. }) => {},
        }
        k = k + 1;
    }
    proof {
        assert(tail.subrange(0, 6) =~= tail);
        lemma_first_error_split(tail, 6);
        assert(tail.subrange(6, 6) =~= Seq::<Result<Answer<T>, SchedulerError>>::empty());
    }
    Ok(Some(Neighbors { north, south, biome_sources }))
}

fn same_message(a: &str, b: &str) -> (r: bool)
    ensures
        r == (a@ == b@),
{
    crate::paths::same_text(a, b)
}

/// What becomes of a render once its tiles are staged: a fence moved by a
/// world reset, or a cancelled job, cancels it; a world no longer current
/// makes it stale; otherwise the tiles are published.
pub fn install_verdict(fence_moved: bool, cancelled: bool, world_current: bool) -> (d: Option<RenderDisposition>)
    ensures
        d == (if fence_moved || cancelled {
            Some(RenderDisposition::Cancelled)
        } else if !world_current {
            Some(RenderDisposition::Stale)
        } else {
            None::<RenderDisposition>
        }),
{
    if fence_moved || cancelled {
        Some(RenderDisposition::Cancelled)
    } else if !world_current {
        Some(RenderDisposition::Stale)
    } else {
        None
    }
}

} // verus!
