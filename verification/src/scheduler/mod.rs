//! Render scheduling decisions: configuration, run reports, job cursors and the
//! live bridge dispatchers.
use vstd::prelude::*;

pub mod bundle;
pub mod dirty;
pub mod jobs;
pub mod live;

verus! {

pub const DEFAULT_MAX_ACTIVE_SNAPSHOTS: usize = 96;
pub const DEFAULT_DIRTY_PAGE_SIZE: usize = 256;
/// Live ticks pick a small newest page so fly-in chunks are not stuck behind a
/// long generation backlog.
pub const LIVE_DIRTY_PAGE_SIZE: usize = 32;
pub const LIVE_DIRTY_CONCURRENCY: usize = 2;
/// Live dirty ticks have no job cancel token; transient retries are bounded so
/// one chunk cannot stall the rest of the page.
pub const LIVE_SNAPSHOT_TRANSIENT_ATTEMPTS: u32 = 3;
pub const DEFAULT_BACKGROUND_INTERVAL_SECONDS: u64 = 15;
pub const DEFAULT_TRANSIENT_RETRY_DELAY_MILLIS: u64 = 25;

/// A failure of the snapshot bridge.
#[derive(Clone, Debug, PartialEq, Eq)]
pub enum BridgeError {
    /// The request may succeed when retried.
    Transient(String),
    /// The request cannot succeed.
    Permanent(String),
}

/// The display text of a [`BridgeError`].
pub open spec fn bridge_error_text(e: BridgeError) -> Seq<char> {
    match e {
        BridgeError::Transient(m) => "transient snapshot bridge error: "@ + m@,
        BridgeError::Permanent(m) => "snapshot bridge error: "@ + m@,
    }
}

impl BridgeError {
    pub fn display_text(&self) -> (s: String)
        ensures
            s@ == bridge_error_text(*self),
    {
        match self {
            BridgeError::Transient(m) => {
                let mut s = String::from_str("transient snapshot bridge error: ");
                s.append(m.as_str());
                s
            },
            BridgeError::Permanent(m) => {
                let mut s = String::from_str("snapshot bridge error: ");
                s.append(m.as_str());
                s
            },
        }
    }
}

/// Scheduler limits. The two pauses are held as whole seconds and
/// milliseconds; the transport turns them into timers.
#[derive(Clone, Copy, Debug, PartialEq, Eq)]
pub struct SchedulerConfig {
    pub max_active_snapshots: usize,
    pub dirty_page_size: usize,
    /// The pause between background dirty pages, in seconds.
    pub background_interval_seconds: u64,
    /// The pause before a transient bridge failure is retried, in milliseconds.
    pub transient_retry_delay_millis: u64,
}

impl SchedulerConfig {
    /// Limits with the given snapshot credits, dirty page size and background
    /// interval, and the default transient retry delay.
    pub fn with_limits(max_active_snapshots: usize, dirty_page_size: usize, background_interval_seconds: u64) -> (c:
        SchedulerConfig)
        ensures
            c == (SchedulerConfig {
                max_active_snapshots,
                dirty_page_size,
                background_interval_seconds,
                transient_retry_delay_millis: DEFAULT_TRANSIENT_RETRY_DELAY_MILLIS,
            }),
    {
        SchedulerConfig {
            max_active_snapshots,
            dirty_page_size,
            background_interval_seconds,
            transient_retry_delay_millis: DEFAULT_TRANSIENT_RETRY_DELAY_MILLIS,
        }
    }
}

impl Default for SchedulerConfig {
    fn default() -> (c: SchedulerConfig)
        ensures
            c == (SchedulerConfig {
                max_active_snapshots: DEFAULT_MAX_ACTIVE_SNAPSHOTS,
                dirty_page_size: DEFAULT_DIRTY_PAGE_SIZE,
                background_interval_seconds: DEFAULT_BACKGROUND_INTERVAL_SECONDS,
                transient_retry_delay_millis: DEFAULT_TRANSIENT_RETRY_DELAY_MILLIS,
            }),
    {
        SchedulerConfig::with_limits(
            DEFAULT_MAX_ACTIVE_SNAPSHOTS,
            DEFAULT_DIRTY_PAGE_SIZE,
            DEFAULT_BACKGROUND_INTERVAL_SECONDS,
        )
    }
}

/// Why the scheduler refused an operation.
#[derive(Debug, Clone, PartialEq, Eq)]
pub enum SchedulerError {
    InvalidConfig(&'static str),
    Repository(String),
    Bridge(BridgeError),
    Install(String),
    MissingJob,
    InvalidJob(&'static str),
    Serialization(String),
    Join(String),
}

/// The display text of a [`SchedulerError`]; the errors of the repository,
/// the serializer and the task runtime carry their own text.
pub open spec fn scheduler_error_text(e: SchedulerError) -> Seq<char> {
    match e {
        SchedulerError::InvalidConfig(m) => m@,
        SchedulerError::InvalidJob(m) => m@,
        SchedulerError::Repository(m) => m@,
        SchedulerError::Bridge(b) => bridge_error_text(b),
        SchedulerError::Install(m) => "tile installation failed: "@ + m@,
        SchedulerError::MissingJob => "render job does not exist"@,
        SchedulerError::Serialization(m) => m@,
        SchedulerError::Join(m) => m@,
    }
}

impl SchedulerError {
    /// The user-facing text of the error.
    pub fn display_text(&self) -> (s: String)
        ensures
            s@ == scheduler_error_text(*self),
    {
        match self {
            SchedulerError::InvalidConfig(m) => String::from_str(m),
            SchedulerError::InvalidJob(m) => String::from_str(m),
            SchedulerError::Repository(m) => m.clone(),
            SchedulerError::Bridge(b) => b.display_text(),
            SchedulerError::Install(m) => {
                let mut s = String::from_str("tile installation failed: ");
                s.append(m.as_str());
                s
            },
            SchedulerError::MissingJob => String::from_str("render job does not exist"),
            SchedulerError::Serialization(m) => m.clone(),
            SchedulerError::Join(m) => m.clone(),
        }
    }
}

/// Checks the scheduler limits: snapshot credits, dirty page size and
/// background interval must all be positive.
pub fn validate_scheduler_config(config: &SchedulerConfig) -> (r: Result<(), SchedulerError>)
    ensures
        config.max_active_snapshots == 0 ==> r == Err::<(), SchedulerError>(SchedulerError::InvalidConfig("snapshot credit count must be positive")),
        config.max_active_snapshots != 0 && config.dirty_page_size == 0 ==> r == Err::<(), SchedulerError>(SchedulerError::InvalidConfig("dirty page size must be positive")),
        config.max_active_snapshots != 0 && config.dirty_page_size != 0 && config.background_interval_seconds == 0 ==> r
            == Err::<(), SchedulerError>(SchedulerError::InvalidConfig("background interval must be positive")),
        config.max_active_snapshots != 0 && config.dirty_page_size != 0 && config.background_interval_seconds != 0 ==> r is Ok,
{
    if config.max_active_snapshots == 0 {
        return Err(SchedulerError::InvalidConfig("snapshot credit count must be positive"));
    }
    if config.dirty_page_size == 0 {
        return Err(SchedulerError::InvalidConfig("dirty page size must be positive"));
    }
    if config.background_interval_seconds == 0 {
        return Err(SchedulerError::InvalidConfig("background interval must be positive"));
    }
    Ok(())
}

/// What one scheduling pass did.
#[derive(Clone, Copy, Debug, Default, Eq, PartialEq)]
pub struct RunReport {
    pub selected: usize,
    pub completed: usize,
    pub stale: usize,
    pub cancelled: bool,
}

/// How rendering one chunk ended.
#[derive(Clone, Copy, Debug, Eq, PartialEq, Structural)]
pub enum RenderDisposition {
    Installed,
    Missing,
    Stale,
    Cancelled,
}

/// How many dispositions in `ds` equal `d`.
pub open spec fn count_of(ds: Seq<RenderDisposition>, d: RenderDisposition) -> nat
    decreases ds.len(),
{
    if ds.len() == 0 {
        0
    } else {
        count_of(ds.drop_last(), d) + if ds.last() == d { 1nat } else { 0nat }
    }
}

proof fn lemma_count_bounded(ds: Seq<RenderDisposition>, d: RenderDisposition)
    ensures
        count_of(ds, d) <= ds.len(),
    decreases ds.len(),
{
    if ds.len() > 0 {
        lemma_count_bounded(ds.drop_last(), d);
    }
}

impl RunReport {
    pub fn empty() -> (r: RunReport)
        ensures
            r == (RunReport { selected: 0, completed: 0, stale: 0, cancelled: false }),
    {
        RunReport { selected: 0, completed: 0, stale: 0, cancelled: false }
    }

    /// The report of a page of `selected` rows whose renders ended as `dispositions`.
    pub fn tally(selected: usize, dispositions: &Vec<RenderDisposition>) -> (r: RunReport)
        ensures
            r.selected == selected,
            r.completed == count_of(dispositions@, RenderDisposition::Installed),
            r.stale == count_of(dispositions@, RenderDisposition::Stale),
            r.cancelled == dispositions@.contains(RenderDisposition::Cancelled),
    {
        let mut report = RunReport { selected, completed: 0, stale: 0, cancelled: false };
        let mut i: usize = 0;
        while i < dispositions.len()
            invariant
                i <= dispositions@.len(),
                report.selected == selected,
                report.completed == count_of(dispositions@.subrange(0, i as int), RenderDisposition::Installed),
                report.stale == count_of(dispositions@.subrange(0, i as int), RenderDisposition::Stale),
                report.cancelled == dispositions@.subrange(0, i as int).contains(RenderDisposition::Cancelled),
            decreases dispositions@.len() - i,
        {
            let ghost prefix = dispositions@.subrange(0, i as int);
            let ghost next = dispositions@.subrange(0, i + 1);
            proof {
                assert(next.drop_last() =~= prefix);
                lemma_count_bounded(prefix, RenderDisposition::Installed);
                lemma_count_bounded(prefix, RenderDisposition::Stale);
            }
            match dispositions[i] {
                RenderDisposition::Installed => report.completed = report.completed + 1,
                RenderDisposition::Missing => {},
                RenderDisposition::Stale => report.stale = report.stale + 1,
                RenderDisposition::Cancelled => report.cancelled = true,
            }
            proof {
                assert(next.last() == dispositions@[i as int]);
                if next.contains(RenderDisposition::Cancelled) && dispositions@[i as int] != RenderDisposition::Cancelled {
                    let k = choose|k: int| 0 <= k < next.len() && next[k] == RenderDisposition::Cancelled;
                    assert(prefix[k] == RenderDisposition::Cancelled);
                }
                if prefix.contains(RenderDisposition::Cancelled) {
                    let k = choose|k: int| 0 <= k < prefix.len() && prefix[k] == RenderDisposition::Cancelled;
                    assert(next[k] == RenderDisposition::Cancelled);
                }
                if dispositions@[i as int] == RenderDisposition::Cancelled {
                    assert(next[i as int] == RenderDisposition::Cancelled);
                }
            }
            i = i + 1;
        }
        assert(dispositions@.subrange(0, dispositions@.len() as int) =~= dispositions@);
        report
    }

    /// Adds another pass's counts to this report.
    pub fn absorb(&mut self, other: &RunReport)
        requires
            old(self).selected + other.selected <= usize::MAX,
            old(self).completed + other.completed <= usize::MAX,
            old(self).stale + other.stale <= usize::MAX,
        ensures
            final(self).selected == old(self).selected + other.selected,
            final(self).completed == old(self).completed + other.completed,
            final(self).stale == old(self).stale + other.stale,
            final(self).cancelled == (old(self).cancelled || other.cancelled),
    {
        self.selected = self.selected + other.selected;
        self.completed = self.completed + other.completed;
        self.stale = self.stale + other.stale;
        self.cancelled = self.cancelled || other.cancelled;
    }
}

} // verus!
