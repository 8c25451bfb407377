use vstd::prelude::*;

verus! {

/// Process-wide counters exported by the backend.
pub struct Metrics {
    queue_depth: u64,
    render_latency_nanos: u64,
    http_requests: u64,
    restarts: u64,
    protocol_errors: u64,
}

/// A consistent copy of every counter in [`Metrics`].
#[derive(Debug, Clone, Copy, PartialEq, Eq)]
pub struct MetricsSnapshot {
    pub queue_depth: u64,
    pub render_latency_nanos: u64,
    pub http_requests: u64,
    pub restarts: u64,
    pub protocol_errors: u64,
}

/// Adds one to a counter, wrapping at `u64::MAX` as an atomic `fetch_add` does.
pub open spec fn bump(value: u64) -> u64 {
    if value == u64::MAX { 0 } else { (value + 1) as u64 }
}

/// Clamps a nanosecond duration into the `u64` range.
pub open spec fn clamp_nanos(nanos: u128) -> u64 {
    if nanos > u64::MAX as u128 { u64::MAX } else { nanos as u64 }
}

impl View for Metrics {
    type V = MetricsSnapshot;

    closed spec fn view(&self) -> MetricsSnapshot {
        MetricsSnapshot {
            queue_depth: self.queue_depth,
            render_latency_nanos: self.render_latency_nanos,
            http_requests: self.http_requests,
            restarts: self.restarts,
            protocol_errors: self.protocol_errors,
        }
    }
}

/// The whole nanoseconds that `Duration::as_nanos` gives for a duration.
pub uninterp spec fn nanos_of(value: std::time::Duration) -> u128;

/// Reads the length of a duration in nanoseconds (`Duration::as_nanos`).
///
/// The result is named [`nanos_of`] of the duration: Verus sees no field of a
/// `Duration`, so its value is not stated further.
#[verifier::external_body]
fn duration_as_nanos(value: &std::time::Duration) -> (r: u128)
    ensures
        r == nanos_of(*value),
{
    value.as_nanos()
}

fn wrapping_increment(value: u64) -> (r: u64)
    ensures
        r == bump(value),
{
    if value == u64::MAX { 0 } else { value + 1 }
}

impl Default for Metrics {
    fn default() -> (m: Metrics)
        ensures
            m@ == (MetricsSnapshot { queue_depth: 0, render_latency_nanos: 0, http_requests: 0, restarts: 0, protocol_errors: 0 }),
    {
        Metrics::new()
    }
}

impl Metrics {
    /// A registry with every counter at zero.
    pub fn new() -> (m: Metrics)
        ensures
            m@ == (MetricsSnapshot { queue_depth: 0, render_latency_nanos: 0, http_requests: 0, restarts: 0, protocol_errors: 0 }),
    {
        Metrics { queue_depth: 0, render_latency_nanos: 0, http_requests: 0, restarts: 0, protocol_errors: 0 }
    }

    pub fn set_queue_depth(&mut self, value: u64)
        ensures
            final(self)@ == (MetricsSnapshot { queue_depth: value, ..old(self)@ }),
    {
        self.queue_depth = value;
    }

    /// Records the latest render latency of `value`, saturating at `u64::MAX` nanoseconds.
    pub fn observe_render_latency(&mut self, value: std::time::Duration)
        ensures
            final(self)@ == (MetricsSnapshot { render_latency_nanos: clamp_nanos(nanos_of(value)), ..old(self)@ }),
    {
        let nanos = duration_as_nanos(&value);
        self.observe_render_latency_nanos(nanos);
    }

    /// Records the latest render latency, saturating at `u64::MAX` nanoseconds.
    pub fn observe_render_latency_nanos(&mut self, nanos: u128)
        ensures
            final(self)@ == (MetricsSnapshot { render_latency_nanos: clamp_nanos(nanos), ..old(self)@ }),
    {
        self.render_latency_nanos = if nanos > u64::MAX as u128 { u64::MAX } else { nanos as u64 };
    }

    pub fn inc_http_requests(&mut self)
        ensures
            final(self)@ == (MetricsSnapshot { http_requests: bump(old(self)@.http_requests), ..old(self)@ }),
    {
        self.http_requests = wrapping_increment(self.http_requests);
    }

    pub fn inc_restarts(&mut self)
        ensures
            final(self)@ == (MetricsSnapshot { restarts: bump(old(self)@.restarts), ..old(self)@ }),
    {
        self.restarts = wrapping_increment(self.restarts);
    }

    pub fn inc_protocol_errors(&mut self)
        ensures
            final(self)@ == (MetricsSnapshot { protocol_errors: bump(old(self)@.protocol_errors), ..old(self)@ }),
    {
        self.protocol_errors = wrapping_increment(self.protocol_errors);
    }

    pub fn snapshot(&self) -> (s: MetricsSnapshot)
        ensures
            s == self@,
    {
        MetricsSnapshot {
            queue_depth: self.queue_depth,
            render_latency_nanos: self.render_latency_nanos,
            http_requests: self.http_requests,
            restarts: self.restarts,
            protocol_errors: self.protocol_errors,
        }
    }
}

/// `value` after `n` increments.
pub open spec fn bumped(value: u64, n: nat) -> u64
    decreases n,
{
    if n == 0 {
        value
    } else {
        bump(bumped(value, (n - 1) as nat))
    }
}

/// No increment is lost: `n` increments of a counter add `n` to it, wrapping
/// at `u64::MAX` as `wrapping_add` does.
pub proof fn lemma_increments_add_up(value: u64, n: nat)
    ensures
        bumped(value, n) == (value as int + n) % 0x1_0000_0000_0000_0000,
    decreases n,
{
    if n > 0 {
        lemma_increments_add_up(value, (n - 1) as nat);
        let prev = (value as int + (n - 1)) % 0x1_0000_0000_0000_0000;
        assert((prev + 1) % 0x1_0000_0000_0000_0000 == (value as int + n) % 0x1_0000_0000_0000_0000) by {
            vstd::arithmetic::div_mod::lemma_add_mod_noop(value as int + (n - 1), 1, 0x1_0000_0000_0000_0000);
            vstd::arithmetic::div_mod::lemma_small_mod(1, 0x1_0000_0000_0000_0000);
        }
        assert(0 <= prev < 0x1_0000_0000_0000_0000) by {
            vstd::arithmetic::div_mod::lemma_mod_bound(value as int + (n - 1), 0x1_0000_0000_0000_0000);
        }
        if prev == u64::MAX {
            assert((prev + 1) % 0x1_0000_0000_0000_0000 == 0);
        } else {
            vstd::arithmetic::div_mod::lemma_small_mod((prev + 1) as nat, 0x1_0000_0000_0000_0000);
        }
    }
}

} // verus!
