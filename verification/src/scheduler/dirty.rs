//! Dirty-page decisions: which rows a page selects, how many render at once,
//! and what each render outcome does to its dirty row.
use vstd::prelude::*;
use super::{LIVE_DIRTY_CONCURRENCY, LIVE_DIRTY_PAGE_SIZE, RenderDisposition};

verus! {

/// What happens to a dirty row after its render.
#[derive(Clone, Copy, Debug, Eq, PartialEq, Structural)]
pub enum DirtyFollowUp {
    /// Mark the revision done.
    Complete,
    /// Push the row back so other rows get a turn.
    Defer,
    /// Leave the row as it is.
    Keep,
}

/// The follow-up of a background page: installed rows complete, missing chunks
/// are deferred, stale and cancelled renders leave the row.
pub fn background_follow_up(disposition: RenderDisposition) -> (f: DirtyFollowUp)
    ensures
        f == match disposition {
            RenderDisposition::Installed => DirtyFollowUp::Complete,
            RenderDisposition::Missing => DirtyFollowUp::Defer,
            _ => DirtyFollowUp::Keep,
        },
{
    match disposition {
        RenderDisposition::Installed => DirtyFollowUp::Complete,
        RenderDisposition::Missing => DirtyFollowUp::Defer,
        RenderDisposition::Stale | RenderDisposition::Cancelled => DirtyFollowUp::Keep,
    }
}

/// The follow-up of an owner-scoped live page. A render error counts as
/// stale; stale rows are deferred so already-loaded chunks can enter the next
/// page instead of pinning it.
pub fn live_follow_up(disposition: Option<RenderDisposition>) -> (f: DirtyFollowUp)
    ensures
        f == match disposition {
            Some(RenderDisposition::Installed) => DirtyFollowUp::Complete,
            Some(RenderDisposition::Cancelled) => DirtyFollowUp::Keep,
            _ => DirtyFollowUp::Defer,
        },
{
    match disposition {
        Some(RenderDisposition::Installed) => DirtyFollowUp::Complete,
        Some(RenderDisposition::Missing) => DirtyFollowUp::Defer,
        Some(RenderDisposition::Stale) | None => DirtyFollowUp::Defer,
        Some(RenderDisposition::Cancelled) => DirtyFollowUp::Keep,
    }
}

/// The disposition a live row reports: an installed row whose owner-scoped
/// completion no longer matched is stale; a render error is stale.
pub fn live_disposition(rendered: Option<RenderDisposition>, completion_matched: bool) -> (d: RenderDisposition)
    ensures
        d == match rendered {
            None => RenderDisposition::Stale,
            Some(RenderDisposition::Installed) => if completion_matched { RenderDisposition::Installed } else { RenderDisposition::Stale },
            Some(other) => other,
        },
{
    match rendered {
        None => RenderDisposition::Stale,
        Some(RenderDisposition::Installed) => if completion_matched { RenderDisposition::Installed } else { RenderDisposition::Stale },
        Some(other) => other,
    }
}

/// How many rows a live page selects.
pub fn live_page_limit(dirty_page_size: usize) -> (n: usize)
    ensures
        n == if dirty_page_size < LIVE_DIRTY_PAGE_SIZE { dirty_page_size } else { LIVE_DIRTY_PAGE_SIZE },
{
    if dirty_page_size < LIVE_DIRTY_PAGE_SIZE { dirty_page_size } else { LIVE_DIRTY_PAGE_SIZE }
}

/// How many renders of a page run at once: all of a background page, at most
/// two of a live page, and never fewer than one.
pub fn page_concurrency(selected: usize, live: bool) -> (n: usize)
    ensures
        n >= 1,
        live ==> n == (if selected < 1 { 1int } else if selected < LIVE_DIRTY_CONCURRENCY { selected as int } else { LIVE_DIRTY_CONCURRENCY as int }),
        !live ==> n == (if selected < 1 { 1int } else { selected as int }),
{
    let bounded = if live && selected > LIVE_DIRTY_CONCURRENCY { LIVE_DIRTY_CONCURRENCY } else { selected };
    if bounded < 1 { 1 } else { bounded }
}


#[verifier::external_type_specification]
#[verifier::external_body]
pub struct ExSystemTime(std::time::SystemTime);

/// The whole seconds that `Duration::as_secs` gives for a duration.
pub uninterp spec fn secs_of(value: std::time::Duration) -> u64;

/// Reads the machine's clock (`SystemTime::now`).
///
/// Nothing is claimed of the reading: it is the machine's clock.
#[verifier::external_body]
fn clock_now() -> std::time::SystemTime {
    std::time::SystemTime::now()
}

/// How long after the Unix epoch `time` lies (`SystemTime::duration_since`
/// with `UNIX_EPOCH`), or `None` for a time before the epoch.
///
/// Nothing is claimed of the duration: Verus sees no field of a `SystemTime`.
#[verifier::external_body]
fn since_epoch(time: &std::time::SystemTime) -> Option<std::time::Duration> {
    time.duration_since(std::time::UNIX_EPOCH).ok()
}

/// The whole seconds of a duration (`Duration::as_secs`), named [`secs_of`].
#[verifier::external_body]
fn duration_secs(value: &std::time::Duration) -> (r: u64)
    ensures
        r == secs_of(*value),
{
    value.as_secs()
}

/// A clock reading as the signed seconds that dirty rows are stamped with:
/// zero for a clock before the epoch, and the largest `i64` past it.
pub fn stamp_seconds(reading: Option<u64>) -> (s: i64)
    ensures
        s == match reading {
            None => 0,
            Some(secs) => if secs <= i64::MAX as u64 { secs as int } else { i64::MAX as int },
        },
{
    match reading {
        None => 0,
        Some(secs) => if secs <= 9223372036854775807u64 { secs as i64 } else { 9223372036854775807i64 },
    }
}

/// The current time in the seconds that dirty rows are stamped with.
pub fn current_seconds() -> (s: i64)
    ensures
        s >= 0,
{
    let now = clock_now();
    match since_epoch(&now) {
        Some(elapsed) => stamp_seconds(Some(duration_secs(&elapsed))),
        None => stamp_seconds(None),
    }
}

} // verus!
