//! Metric snapshots: the immutable values that reporters turn into output.

use vstd::prelude::*;

verus! {

/// A meter's state at one instant. The rates are floating-point values and are
/// held in the decimal text in which they are reported.
pub struct MeterSnapshot {
    pub count: i64,
    pub m1: String,
    pub m5: String,
    pub m15: String,
    pub mean: String,
}

/// The readings of a histogram taken at one instant: its sample count and the
/// values at the reported percentiles (`max` is the 100th, `min` the 0th).
pub struct HistogramSnapshot {
    pub count: u64,
    pub max: u64,
    pub min: u64,
    pub p50: u64,
    pub p75: u64,
    pub p95: u64,
    pub p98: u64,
    pub p99: u64,
    pub p999: u64,
    pub p9999: u64,
    pub p99999: u64,
}

/// The exported value of a metric, tagged with its kind. A gauge's
/// floating-point value is held in its decimal text.
pub enum MetricValue {
    Counter(i64),
    Gauge(String),
    Meter(MeterSnapshot),
    Histogram(HistogramSnapshot),
}

/// A metric that can produce a point-in-time snapshot of itself.
pub trait Snaphot {
    /// Whether `v` is a snapshot that the metric may export in its current
    /// state. A metric that others mutate concurrently may admit several.
    spec fn may_export(&self, v: MetricValue) -> bool;

    fn export_metric(&self) -> (r: MetricValue)
        ensures
            self.may_export(r),
    ;
}

/// An integer counter.
pub struct StdCounter {
    pub value: i64,
}

/// The counter after one increment.
pub open spec fn incremented(c: StdCounter) -> StdCounter {
    StdCounter { value: (c.value + 1) as i64 }
}

/// The counter after `n` increments.
pub open spec fn incremented_times(c: StdCounter, n: nat) -> StdCounter
    decreases n,
{
    if n == 0 { c } else { incremented(incremented_times(c, (n - 1) as nat)) }
}

/// What a counter exports.
pub open spec fn counter_snapshot(c: StdCounter) -> MetricValue {
    MetricValue::Counter(c.value)
}

impl StdCounter {
    /// A counter at zero.
    pub fn new() -> (r: StdCounter)
        ensures
            r.value == 0,
    {
        StdCounter { value: 0 }
    }

    /// Adds one.
    pub fn inc(&mut self)
        requires
            old(self).value < i64::MAX,
        ensures
            *final(self) == incremented(*old(self)),
    {
        self.value = self.value + 1;
    }

    /// Adds `n`.
    pub fn add(&mut self, n: i64)
        requires
            i64::MIN <= old(self).value + n <= i64::MAX,
        ensures
            final(self).value == old(self).value + n,
    {
        self.value = self.value + n;
    }

    /// Resets to zero.
    pub fn clear(&mut self)
        ensures
            final(self).value == 0,
    {
        self.value = 0;
    }

    /// The counter's current value as a snapshot.
    pub fn snapshot(&self) -> (r: MetricValue)
        ensures
            r == counter_snapshot(*self),
    {
        MetricValue::Counter(self.value)
    }
}

impl Snaphot for StdCounter {
    open spec fn may_export(&self, v: MetricValue) -> bool {
        v == counter_snapshot(*self)
    }

    fn export_metric(&self) -> (r: MetricValue) {
        self.snapshot()
    }
}

/// A counter started at zero and incremented `n` times exports `n`.
pub proof fn lemma_counter_counts_increments(n: nat)
    requires
        n <= i64::MAX,
    ensures
        counter_snapshot(incremented_times(StdCounter { value: 0 }, n)) == MetricValue::Counter(n as i64),
    decreases n,
{
    if n > 0 {
        lemma_counter_counts_increments((n - 1) as nat);
    }
}

} // verus!
