//! Observability: counts of actions, approvals, blocks, failures, latency,
//! consensus outcomes, drift, rollbacks and verification results.

use vstd::prelude::*;

verus! {

/// The counters at one moment.
#[derive(Debug, Clone, Copy, PartialEq, Eq, Structural)]
pub struct MetricsSnapshot {
    pub total_actions: u64,
    pub approved: u64,
    pub blocked: u64,
    pub failed: u64,
    pub total_latency_ms: u64,
    pub consensus_agreements: u64,
    pub consensus_failures: u64,
    pub drift_detections: u64,
    pub rollbacks: u64,
    pub verifications_passed: u64,
    pub verifications_failed: u64,
}

/// Running counters. Every recorded action is either approved or blocked.
pub struct Metrics {
    counts: MetricsSnapshot,
}

/// All counters at zero.
pub open spec fn zero_counts() -> MetricsSnapshot {
    MetricsSnapshot {
        total_actions: 0,
        approved: 0,
        blocked: 0,
        failed: 0,
        total_latency_ms: 0,
        consensus_agreements: 0,
        consensus_failures: 0,
        drift_detections: 0,
        rollbacks: 0,
        verifications_passed: 0,
        verifications_failed: 0,
    }
}

/// The counters after one action, approved or blocked, that took `latency_ms`.
pub open spec fn counts_after_action(m: MetricsSnapshot, approved: bool, latency_ms: u64) -> MetricsSnapshot {
    MetricsSnapshot {
        total_actions: (m.total_actions + 1) as u64,
        approved: if approved { (m.approved + 1) as u64 } else { m.approved },
        blocked: if approved { m.blocked } else { (m.blocked + 1) as u64 },
        total_latency_ms: (m.total_latency_ms + latency_ms) as u64,
        ..m
    }
}

/// Room for one more action with this latency.
pub open spec fn room_for_action(m: MetricsSnapshot, latency_ms: u64) -> bool {
    m.total_actions < u64::MAX && m.total_latency_ms + latency_ms <= u64::MAX
}

impl Metrics {
    #[verifier::type_invariant]
    spec fn balanced(&self) -> bool {
        self.counts.approved + self.counts.blocked == self.counts.total_actions
    }

    /// The current counters.
    pub closed spec fn view(&self) -> MetricsSnapshot {
        self.counts
    }

    pub fn new() -> (m: Self)
        ensures
            m.view() == zero_counts(),
    {
        Metrics {
            counts: MetricsSnapshot {
                total_actions: 0,
                approved: 0,
                blocked: 0,
                failed: 0,
                total_latency_ms: 0,
                consensus_agreements: 0,
                consensus_failures: 0,
                drift_detections: 0,
                rollbacks: 0,
                verifications_passed: 0,
                verifications_failed: 0,
            },
        }
    }

    /// Records one action, approved or blocked, and its latency.
    pub fn record_action(&mut self, approved: bool, latency_ms: u64)
        requires
            room_for_action(old(self).view(), latency_ms),
        ensures
            final(self).view() == counts_after_action(old(self).view(), approved, latency_ms),
    {
        proof { use_type_invariant(&*self); }
        let mut c = self.counts;
        c.total_actions = c.total_actions + 1;
        c.total_latency_ms = c.total_latency_ms + latency_ms;
        if approved {
            c.approved = c.approved + 1;
        } else {
            c.blocked = c.blocked + 1;
        }
        self.counts = c;
    }

    /// Records whether consensus was reached.
    pub fn record_consensus(&mut self, reached: bool)
        requires
            reached ==> old(self).view().consensus_agreements < u64::MAX,
            !reached ==> old(self).view().consensus_failures < u64::MAX,
        ensures
            final(self).view() == (if reached {
                MetricsSnapshot { consensus_agreements: (old(self).view().consensus_agreements + 1) as u64, ..old(self).view() }
            } else {
                MetricsSnapshot { consensus_failures: (old(self).view().consensus_failures + 1) as u64, ..old(self).view() }
            }),
    {
        proof { use_type_invariant(&*self); }
        let mut c = self.counts;
        if reached {
            c.consensus_agreements = c.consensus_agreements + 1;
        } else {
            c.consensus_failures = c.consensus_failures + 1;
        }
        self.counts = c;
    }

    pub fn record_drift(&mut self)
        requires
            old(self).view().drift_detections < u64::MAX,
        ensures
            final(self).view() == (MetricsSnapshot { drift_detections: (old(self).view().drift_detections + 1) as u64, ..old(self).view() }),
    {
        proof { use_type_invariant(&*self); }
        let mut c = self.counts;
        c.drift_detections = c.drift_detections + 1;
        self.counts = c;
    }

    pub fn record_rollback(&mut self)
        requires
            old(self).view().rollbacks < u64::MAX,
        ensures
            final(self).view() == (MetricsSnapshot { rollbacks: (old(self).view().rollbacks + 1) as u64, ..old(self).view() }),
    {
        proof { use_type_invariant(&*self); }
        let mut c = self.counts;
        c.rollbacks = c.rollbacks + 1;
        self.counts = c;
    }

    pub fn record_failure(&mut self)
        requires
            old(self).view().failed < u64::MAX,
        ensures
            final(self).view() == (MetricsSnapshot { failed: (old(self).view().failed + 1) as u64, ..old(self).view() }),
    {
        proof { use_type_invariant(&*self); }
        let mut c = self.counts;
        c.failed = c.failed + 1;
        self.counts = c;
    }

    /// Records whether a verification passed.
    pub fn record_verification(&mut self, passed: bool)
        requires
            passed ==> old(self).view().verifications_passed < u64::MAX,
            !passed ==> old(self).view().verifications_failed < u64::MAX,
        ensures
            final(self).view() == (if passed {
                MetricsSnapshot { verifications_passed: (old(self).view().verifications_passed + 1) as u64, ..old(self).view() }
            } else {
                MetricsSnapshot { verifications_failed: (old(self).view().verifications_failed + 1) as u64, ..old(self).view() }
            }),
    {
        proof { use_type_invariant(&*self); }
        let mut c = self.counts;
        if passed {
            c.verifications_passed = c.verifications_passed + 1;
        } else {
            c.verifications_failed = c.verifications_failed + 1;
        }
        self.counts = c;
    }

    /// The counters now.
    pub fn snapshot(&self) -> (s: MetricsSnapshot)
        ensures
            s == self.view(),
            s.approved + s.blocked == s.total_actions,
    {
        proof { use_type_invariant(self); }
        self.counts
    }
}

#[verifier::external_type_specification]
#[verifier::external_body]
pub struct ExInstant(std::time::Instant);

/// Calls `std::time::Instant::now`. The clock reading is left free.
#[verifier::external_body]
fn instant_now() -> (r: std::time::Instant) {
    std::time::Instant::now()
}

/// Calls `Instant::elapsed`: the time since `start`, zero where the clock
/// reads earlier. The reading depends on the clock; nothing is stated of it.
#[verifier::external_body]
fn elapsed_since(start: &std::time::Instant) -> (r: std::time::Duration) {
    start.elapsed()
}

/// Calls `Duration::as_secs`: the whole seconds of a duration. A
/// `Duration` is opaque here, so the seconds are not tied to anything that
/// the library states.
#[verifier::external_body]
fn duration_secs(d: &std::time::Duration) -> (r: u64) {
    d.as_secs()
}

/// Calls `Duration::subsec_nanos`: the nanoseconds past the whole seconds,
/// which std documents as always less than one second.
#[verifier::external_body]
fn duration_subsec_nanos(d: &std::time::Duration) -> (r: u32)
    ensures
        r < 1_000_000_000,
{
    d.subsec_nanos()
}

/// The whole milliseconds of a duration of `secs` seconds and `nanos`
/// nanoseconds past them.
pub open spec fn millis_of(secs: u64, nanos: u32) -> int {
    secs * 1000 + nanos / 1_000_000
}

/// The whole milliseconds of a duration, as `Duration::as_millis` counts
/// them, from its seconds and the nanoseconds past them.
pub fn duration_millis(secs: u64, nanos: u32) -> (r: u128)
    requires
        nanos < 1_000_000_000,
    ensures
        r == millis_of(secs, nanos),
{
    (secs as u128) * 1000 + ((nanos / 1_000_000) as u128)
}

/// Timer helper for measuring operation latency.
pub struct Timer {
    start: std::time::Instant,
}

impl Timer {
    pub fn start() -> (t: Self) {
        Timer { start: instant_now() }
    }

    /// Milliseconds since the timer started, cut to 64 bits as `as u64` does.
    pub fn elapsed_ms(&self) -> (ms: u64) {
        let d = elapsed_since(&self.start);
        let ms = duration_millis(duration_secs(&d), duration_subsec_nanos(&d));
        #[verifier::truncate]
        (ms as u64)
    }
}

} // verus!
