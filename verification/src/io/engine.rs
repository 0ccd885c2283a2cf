//! The engine's part that computes: which workloads a run consists of, the
//! worker for each, and the aggregation of the workers' counters.

use crate::config::{Config, IoMode, Workload};
use crate::io::model::{valid_setup, WorkerView};
use crate::io::worker::{sat_add, sat_sub, IoWorker, WorkerError, WorkerStats};
use vstd::prelude::*;

verus! {

/// Nanoseconds in a second.
pub const NANOS_PER_SEC: u64 = 1_000_000_000;

/// Nanoseconds in a microsecond.
pub const NANOS_PER_MICRO: u64 = 1000;

/// Bytes in a mebibyte.
pub const BYTES_PER_MIB: u64 = 1048576;

/// The totals of a run. Rates and means are derived from them on demand.
#[derive(Debug, Clone, Copy, PartialEq, Eq, Structural)]
pub struct BenchmarkResults {
    pub total_bytes_read: u64,
    pub total_bytes_written: u64,
    /// Operations that completed with success.
    pub total_ops: u64,
    /// Operations that completed with an error.
    pub failed_ops: u64,
    /// The time that the rates are taken over.
    pub duration_ns: u64,
    /// Sum of the sampled latencies.
    pub total_latency_ns: u64,
    /// Number of sampled latencies.
    pub latency_samples: u64,
    pub min_latency_ns: u64,
    pub max_latency_ns: u64,
}

/// `count` events in `duration_ns` nanoseconds as a whole number per second,
/// rounded down; zero for an empty duration.
pub open spec fn spec_per_second(count: u64, duration_ns: u64) -> nat {
    if duration_ns == 0 {
        0
    } else {
        ((count as nat) * (NANOS_PER_SEC as nat)) / (duration_ns as nat)
    }
}

/// `count` events in `duration_ns` nanoseconds as a whole number per second.
pub fn per_second(count: u64, duration_ns: u64) -> (rate: u128)
    ensures
        rate == spec_per_second(count, duration_ns),
{
    if duration_ns == 0 {
        0
    } else {
        assert((count as nat) * (NANOS_PER_SEC as nat) <= 0xffff_ffff_ffff_ffff * 1_000_000_000)
            by (nonlinear_arith)
            requires
                count <= 0xffff_ffff_ffff_ffff,
                NANOS_PER_SEC == 1_000_000_000,
        ;
        (count as u128) * (NANOS_PER_SEC as u128) / (duration_ns as u128)
    }
}

/// `bytes` bytes in `duration_ns` nanoseconds as whole mebibytes per second,
/// rounded down; zero for an empty duration.
pub open spec fn spec_mib_per_second(bytes: u64, duration_ns: u64) -> nat {
    spec_per_second(bytes, duration_ns) / (BYTES_PER_MIB as nat)
}

impl BenchmarkResults {
    /// Totals of nothing, over `duration_ns` nanoseconds.
    pub open spec fn spec_empty(duration_ns: u64) -> BenchmarkResults {
        BenchmarkResults {
            total_bytes_read: 0,
            total_bytes_written: 0,
            total_ops: 0,
            failed_ops: 0,
            duration_ns,
            total_latency_ns: 0,
            latency_samples: 0,
            min_latency_ns: u64::MAX,
            max_latency_ns: 0,
        }
    }

    /// The totals that the counters of one worker stand for.
    pub open spec fn spec_of_stats(stats: WorkerStats, duration_ns: u64) -> BenchmarkResults {
        BenchmarkResults {
            total_bytes_read: stats.bytes_read,
            total_bytes_written: stats.bytes_written,
            total_ops: stats.ops_completed,
            failed_ops: stats.ops_failed,
            duration_ns,
            total_latency_ns: stats.total_latency_ns,
            latency_samples: stats.latency_samples,
            min_latency_ns: stats.min_latency_ns,
            max_latency_ns: stats.max_latency_ns,
        }
    }

    /// The totals of `self` and `other` together, over `duration_ns`
    /// nanoseconds: counts are added, held at the largest 64-bit value; the
    /// minimum is the smaller and the maximum the larger of the two.
    pub open spec fn spec_merged(self, other: BenchmarkResults, duration_ns: u64)
        -> BenchmarkResults {
        BenchmarkResults {
            total_bytes_read: sat_add(self.total_bytes_read, other.total_bytes_read),
            total_bytes_written: sat_add(self.total_bytes_written, other.total_bytes_written),
            total_ops: sat_add(self.total_ops, other.total_ops),
            failed_ops: sat_add(self.failed_ops, other.failed_ops),
            duration_ns,
            total_latency_ns: sat_add(self.total_latency_ns, other.total_latency_ns),
            latency_samples: sat_add(self.latency_samples, other.latency_samples),
            min_latency_ns: if other.min_latency_ns < self.min_latency_ns {
                other.min_latency_ns
            } else {
                self.min_latency_ns
            },
            max_latency_ns: if other.max_latency_ns > self.max_latency_ns {
                other.max_latency_ns
            } else {
                self.max_latency_ns
            },
        }
    }

    /// The totals with the counters of one more worker of the same run.
    pub open spec fn spec_absorb(self, stats: WorkerStats) -> BenchmarkResults {
        self.spec_merged(Self::spec_of_stats(stats, self.duration_ns), self.duration_ns)
    }

    /// The totals with those of one more run, the durations added.
    pub open spec fn spec_combine(self, run: BenchmarkResults) -> BenchmarkResults {
        self.spec_merged(run, sat_add(self.duration_ns, run.duration_ns))
    }

    /// Whether the latency sum or the sample count has reached the largest
    /// value that it can hold.
    pub open spec fn latency_saturated(&self) -> bool {
        self.total_latency_ns == u64::MAX || self.latency_samples == u64::MAX
    }

    /// Unless one of them has saturated, the latency sum lies between the
    /// sample count times the minimum and the sample count times the maximum.
    pub open spec fn latency_consistent(&self) -> bool {
        !self.latency_saturated() ==> {
            &&& self.min_latency_ns * self.latency_samples <= self.total_latency_ns
            &&& self.total_latency_ns <= self.max_latency_ns * self.latency_samples
        }
    }

    /// Whether a latency has been sampled if any operation has completed.
    pub open spec fn sampled_if_any(&self) -> bool {
        self.total_ops > 0 ==> self.latency_samples > 0
    }

    /// The mean of the sampled latencies, rounded down; zero without samples.
    pub open spec fn spec_avg_latency_ns(&self) -> u64 {
        if self.latency_samples == 0 {
            0
        } else {
            self.total_latency_ns / self.latency_samples
        }
    }

    /// Totals of nothing, over `duration_ns` nanoseconds.
    pub fn empty(duration_ns: u64) -> (results: BenchmarkResults)
        ensures
            results == Self::spec_empty(duration_ns),
            results.latency_consistent(),
            results.sampled_if_any(),
    {
        BenchmarkResults {
            total_bytes_read: 0,
            total_bytes_written: 0,
            total_ops: 0,
            failed_ops: 0,
            duration_ns,
            total_latency_ns: 0,
            latency_samples: 0,
            min_latency_ns: u64::MAX,
            max_latency_ns: 0,
        }
    }

    fn merge(&mut self, other: &BenchmarkResults, duration_ns: u64)
        ensures
            *final(self) == old(self).spec_merged(*other, duration_ns),
    {
        self.total_bytes_read = self.total_bytes_read.saturating_add(other.total_bytes_read);
        self.total_bytes_written = self.total_bytes_written.saturating_add(
            other.total_bytes_written,
        );
        self.total_ops = self.total_ops.saturating_add(other.total_ops);
        self.failed_ops = self.failed_ops.saturating_add(other.failed_ops);
        self.duration_ns = duration_ns;
        self.total_latency_ns = self.total_latency_ns.saturating_add(other.total_latency_ns);
        self.latency_samples = self.latency_samples.saturating_add(other.latency_samples);
        if other.min_latency_ns < self.min_latency_ns {
            self.min_latency_ns = other.min_latency_ns;
        }
        if other.max_latency_ns > self.max_latency_ns {
            self.max_latency_ns = other.max_latency_ns;
        }
    }

    /// Adds the counters of one more worker of the same run.
    pub fn absorb(&mut self, stats: &WorkerStats)
        ensures
            *final(self) == old(self).spec_absorb(*stats),
    {
        let other = BenchmarkResults {
            total_bytes_read: stats.bytes_read,
            total_bytes_written: stats.bytes_written,
            total_ops: stats.ops_completed,
            failed_ops: stats.ops_failed,
            duration_ns: self.duration_ns,
            total_latency_ns: stats.total_latency_ns,
            latency_samples: stats.latency_samples,
            min_latency_ns: stats.min_latency_ns,
            max_latency_ns: stats.max_latency_ns,
        };
        let duration_ns = self.duration_ns;
        self.merge(&other, duration_ns);
    }

    /// Adds the totals of one more run: counts and durations are summed, the
    /// minimum and maximum latency are those over both.
    pub fn combine(&mut self, run: &BenchmarkResults)
        ensures
            *final(self) == old(self).spec_combine(*run),
            old(self).latency_consistent() && run.latency_consistent()
                ==> final(self).latency_consistent(),
            old(self).sampled_if_any() && run.sampled_if_any() ==> final(self).sampled_if_any(),
    {
        let duration_ns = self.duration_ns.saturating_add(run.duration_ns);
        proof {
            if self.latency_consistent() && run.latency_consistent() {
                lemma_merged_latency_consistent(*self, *run, duration_ns);
            }
        }
        self.merge(run, duration_ns);
    }

    /// The mean of the sampled latencies in nanoseconds, rounded down.
    #[verifier::when_used_as_spec(spec_avg_latency_ns)]
    pub fn avg_latency_ns(&self) -> (avg: u64)
        ensures
            avg == self.spec_avg_latency_ns(),
    {
        if self.latency_samples == 0 {
            0
        } else {
            self.total_latency_ns / self.latency_samples
        }
    }

    /// The mean of the sampled latencies in whole microseconds.
    pub fn avg_latency_us(&self) -> (avg: u64)
        ensures
            avg == self.spec_avg_latency_ns() / NANOS_PER_MICRO,
    {
        self.avg_latency_ns() / NANOS_PER_MICRO
    }

    /// The smallest sampled latency in whole microseconds.
    pub fn min_latency_us(&self) -> (min: u64)
        ensures
            min == self.min_latency_ns / NANOS_PER_MICRO,
    {
        self.min_latency_ns / NANOS_PER_MICRO
    }

    /// The largest sampled latency in whole microseconds.
    pub fn max_latency_us(&self) -> (max: u64)
        ensures
            max == self.max_latency_ns / NANOS_PER_MICRO,
    {
        self.max_latency_ns / NANOS_PER_MICRO
    }

    /// Completed operations per second of the duration, rounded down.
    pub fn iops(&self) -> (rate: u128)
        ensures
            rate == spec_per_second(self.total_ops, self.duration_ns),
    {
        per_second(self.total_ops, self.duration_ns)
    }

    /// Bytes read per second of the duration, rounded down.
    pub fn read_bytes_per_second(&self) -> (rate: u128)
        ensures
            rate == spec_per_second(self.total_bytes_read, self.duration_ns),
    {
        per_second(self.total_bytes_read, self.duration_ns)
    }

    /// Whole mebibytes read per second of the duration.
    pub fn read_mib_per_second(&self) -> (rate: u128)
        ensures
            rate == spec_mib_per_second(self.total_bytes_read, self.duration_ns),
    {
        per_second(self.total_bytes_read, self.duration_ns) / (BYTES_PER_MIB as u128)
    }

    /// Whole mebibytes written per second of the duration.
    pub fn write_mib_per_second(&self) -> (rate: u128)
        ensures
            rate == spec_mib_per_second(self.total_bytes_written, self.duration_ns),
    {
        per_second(self.total_bytes_written, self.duration_ns) / (BYTES_PER_MIB as u128)
    }

    /// Bytes written per second of the duration, rounded down.
    pub fn write_bytes_per_second(&self) -> (rate: u128)
        ensures
            rate == spec_per_second(self.total_bytes_written, self.duration_ns),
    {
        per_second(self.total_bytes_written, self.duration_ns)
    }
}

/// The totals of the workers `stats` of one run that lasted `duration_ns`
/// nanoseconds.
pub open spec fn spec_aggregate(stats: Seq<WorkerStats>, duration_ns: u64) -> BenchmarkResults
    decreases stats.len(),
{
    if stats.len() == 0 {
        BenchmarkResults::spec_empty(duration_ns)
    } else {
        spec_aggregate(stats.drop_last(), duration_ns).spec_absorb(stats.last())
    }
}

/// The totals of the runs `runs` taken together, from nothing over no time.
pub open spec fn spec_combine_all(runs: Seq<BenchmarkResults>) -> BenchmarkResults
    decreases runs.len(),
{
    if runs.len() == 0 {
        BenchmarkResults::spec_empty(0)
    } else {
        spec_combine_all(runs.drop_last()).spec_combine(runs.last())
    }
}

/// The exact sum of one counter over the workers.
pub open spec fn sum_of(stats: Seq<WorkerStats>, counter: spec_fn(WorkerStats) -> u64) -> nat
    decreases stats.len(),
{
    if stats.len() == 0 {
        0
    } else {
        sum_of(stats.drop_last(), counter) + counter(stats.last()) as nat
    }
}

/// Merging keeps the latency bookkeeping consistent.
pub proof fn lemma_merged_latency_consistent(
    a: BenchmarkResults,
    b: BenchmarkResults,
    duration_ns: u64,
)
    requires
        a.latency_consistent(),
        b.latency_consistent(),
    ensures
        a.spec_merged(b, duration_ns).latency_consistent(),
{
    let m = a.spec_merged(b, duration_ns);
    if !m.latency_saturated() {
        let lo = m.min_latency_ns as int;
        let hi = m.max_latency_ns as int;
        let an = a.latency_samples as int;
        let bn = b.latency_samples as int;
        assert(lo * (an + bn) == lo * an + lo * bn) by (nonlinear_arith);
        assert(hi * (an + bn) == hi * an + hi * bn) by (nonlinear_arith);
        assert(lo * an <= (a.min_latency_ns as int) * an) by (nonlinear_arith)
            requires
                0 <= an,
                lo <= a.min_latency_ns,
        ;
        assert(lo * bn <= (b.min_latency_ns as int) * bn) by (nonlinear_arith)
            requires
                0 <= bn,
                lo <= b.min_latency_ns,
        ;
        assert((a.max_latency_ns as int) * an <= hi * an) by (nonlinear_arith)
            requires
                0 <= an,
                a.max_latency_ns <= hi,
        ;
        assert((b.max_latency_ns as int) * bn <= hi * bn) by (nonlinear_arith)
            requires
                0 <= bn,
                b.max_latency_ns <= hi,
        ;
    }
}

/// Aggregation keeps what the workers' counters keep: consistent latency
/// bookkeeping, and a sample wherever an operation completed.
pub proof fn lemma_aggregate_consistent(stats: Seq<WorkerStats>, duration_ns: u64)
    requires
        forall|i: int| 0 <= i < stats.len() ==> (#[trigger] stats[i]).latency_consistent(),
        forall|i: int| 0 <= i < stats.len() ==> (#[trigger] stats[i]).sampled_if_any(),
    ensures
        spec_aggregate(stats, duration_ns).latency_consistent(),
        spec_aggregate(stats, duration_ns).sampled_if_any(),
        spec_aggregate(stats, duration_ns).duration_ns == duration_ns,
    decreases stats.len(),
{
    if stats.len() > 0 {
        let rest = stats.drop_last();
        assert forall|i: int| 0 <= i < rest.len() implies (#[trigger] rest[i]).latency_consistent()
            && rest[i].sampled_if_any() by {
            assert(rest[i] == stats[i]);
        }
        lemma_aggregate_consistent(rest, duration_ns);
        let last = stats.last();
        assert(last.latency_consistent() && last.sampled_if_any());
        lemma_merged_latency_consistent(
            spec_aggregate(rest, duration_ns),
            BenchmarkResults::spec_of_stats(last, duration_ns),
            duration_ns,
        );
    }
}

/// Byte conservation at aggregation: every total that has not reached the
/// largest 64-bit value is the exact sum of the workers' counters.
pub proof fn lemma_aggregate_sums(stats: Seq<WorkerStats>, duration_ns: u64)
    ensures
        ({
            let r = spec_aggregate(stats, duration_ns);
            &&& r.total_bytes_read < u64::MAX ==> r.total_bytes_read == sum_of(
                stats,
                |s: WorkerStats| s.bytes_read,
            )
            &&& r.total_bytes_written < u64::MAX ==> r.total_bytes_written == sum_of(
                stats,
                |s: WorkerStats| s.bytes_written,
            )
            &&& r.total_ops < u64::MAX ==> r.total_ops == sum_of(
                stats,
                |s: WorkerStats| s.ops_completed,
            )
            &&& r.failed_ops < u64::MAX ==> r.failed_ops == sum_of(
                stats,
                |s: WorkerStats| s.ops_failed,
            )
        }),
    decreases stats.len(),
{
    if stats.len() > 0 {
        lemma_aggregate_sums(stats.drop_last(), duration_ns);
    }
}

/// The exact sum of one total over the runs.
pub open spec fn sum_of_runs(
    runs: Seq<BenchmarkResults>,
    total: spec_fn(BenchmarkResults) -> u64,
) -> nat
    decreases runs.len(),
{
    if runs.len() == 0 {
        0
    } else {
        sum_of_runs(runs.drop_last(), total) + total(runs.last()) as nat
    }
}

/// The combined totals are the element-wise sums of the runs' totals: every
/// combined total, the duration among them, that has not reached the largest
/// 64-bit value is the exact sum over the runs.
pub proof fn lemma_combine_all_sums(runs: Seq<BenchmarkResults>)
    ensures
        ({
            let r = spec_combine_all(runs);
            &&& r.total_bytes_read < u64::MAX ==> r.total_bytes_read == sum_of_runs(
                runs,
                |x: BenchmarkResults| x.total_bytes_read,
            )
            &&& r.total_bytes_written < u64::MAX ==> r.total_bytes_written == sum_of_runs(
                runs,
                |x: BenchmarkResults| x.total_bytes_written,
            )
            &&& r.total_ops < u64::MAX ==> r.total_ops == sum_of_runs(
                runs,
                |x: BenchmarkResults| x.total_ops,
            )
            &&& r.failed_ops < u64::MAX ==> r.failed_ops == sum_of_runs(
                runs,
                |x: BenchmarkResults| x.failed_ops,
            )
            &&& r.duration_ns < u64::MAX ==> r.duration_ns == sum_of_runs(
                runs,
                |x: BenchmarkResults| x.duration_ns,
            )
        }),
    decreases runs.len(),
{
    if runs.len() > 0 {
        lemma_combine_all_sums(runs.drop_last());
    }
}

/// Combining runs keeps what the runs keep: consistent latency bookkeeping,
/// and a sample wherever an operation completed.
pub proof fn lemma_combine_all_consistent(runs: Seq<BenchmarkResults>)
    requires
        forall|i: int| 0 <= i < runs.len() ==> (#[trigger] runs[i]).latency_consistent(),
        forall|i: int| 0 <= i < runs.len() ==> (#[trigger] runs[i]).sampled_if_any(),
    ensures
        spec_combine_all(runs).latency_consistent(),
        spec_combine_all(runs).sampled_if_any(),
    decreases runs.len(),
{
    if runs.len() > 0 {
        let rest = runs.drop_last();
        assert forall|i: int| 0 <= i < rest.len() implies (#[trigger] rest[i]).latency_consistent()
            && rest[i].sampled_if_any() by {
            assert(rest[i] == runs[i]);
        }
        lemma_combine_all_consistent(rest);
        let last = runs.last();
        assert(last.latency_consistent() && last.sampled_if_any());
        let before = spec_combine_all(rest);
        lemma_merged_latency_consistent(before, last, sat_add(before.duration_ns, last.duration_ns));
    }
}

/// The latency order: with consistent bookkeeping that has not saturated and
/// at least one completed operation, the minimum is at most the mean and the
/// mean at most the maximum, in nanoseconds and in whole microseconds.
pub proof fn lemma_latency_order(r: BenchmarkResults)
    requires
        r.latency_consistent(),
        r.sampled_if_any(),
        !r.latency_saturated(),
        r.total_ops > 0,
    ensures
        r.min_latency_ns <= r.spec_avg_latency_ns() <= r.max_latency_ns,
        r.min_latency_ns / NANOS_PER_MICRO <= r.spec_avg_latency_ns() / NANOS_PER_MICRO
            <= r.max_latency_ns / NANOS_PER_MICRO,
{
    let n = r.latency_samples as int;
    let t = r.total_latency_ns as int;
    let lo = r.min_latency_ns as int;
    let hi = r.max_latency_ns as int;
    assert(lo <= t / n) by (nonlinear_arith)
        requires
            n > 0,
            lo * n <= t,
    ;
    assert(t / n <= hi) by (nonlinear_arith)
        requires
            n > 0,
            0 <= t <= hi * n,
    ;
}

/// The totals of the workers `stats` of one run of `duration_ns` nanoseconds.
pub fn aggregate(stats: &Vec<WorkerStats>, duration_ns: u64) -> (results: BenchmarkResults)
    ensures
        results == spec_aggregate(stats@, duration_ns),
{
    let mut results = BenchmarkResults::empty(duration_ns);
    let mut i: usize = 0;
    while i < stats.len()
        invariant
            i <= stats.len(),
            results == spec_aggregate(stats@.take(i as int), duration_ns),
        decreases stats.len() - i,
    {
        proof {
            assert(stats@.take(i + 1).drop_last() == stats@.take(i as int));
            lemma_aggregate_duration(stats@.take(i as int), duration_ns);
        }
        results.absorb(&stats[i]);
        i = i + 1;
    }
    assert(stats@.take(stats.len() as int) == stats@);
    results
}

/// An aggregate runs over the duration that it was given.
proof fn lemma_aggregate_duration(stats: Seq<WorkerStats>, duration_ns: u64)
    ensures
        spec_aggregate(stats, duration_ns).duration_ns == duration_ns,
    decreases stats.len(),
{
    if stats.len() > 0 {
        lemma_aggregate_duration(stats.drop_last(), duration_ns);
    }
}

/// The totals of several runs taken together, as for the workload that runs
/// all others: counts and durations are summed, the rates follow from the
/// sums, and the mean latency is the summed latency over the summed samples.
pub fn combine_all(runs: &Vec<BenchmarkResults>) -> (results: BenchmarkResults)
    ensures
        results == spec_combine_all(runs@),
{
    let mut results = BenchmarkResults::empty(0);
    let mut i: usize = 0;
    while i < runs.len()
        invariant
            i <= runs.len(),
            results == spec_combine_all(runs@.take(i as int)),
        decreases runs.len() - i,
    {
        proof {
            assert(runs@.take(i + 1).drop_last() == runs@.take(i as int));
        }
        results.combine(&runs[i]);
        i = i + 1;
    }
    assert(runs@.take(runs.len() as int) == runs@);
    results
}

/// What the monitor shows of the workers' progress.
#[derive(Debug, Clone, Copy, PartialEq, Eq, Structural)]
pub struct Progress {
    pub bytes_read: u64,
    pub bytes_written: u64,
    pub ops: u64,
}

/// One status line of the monitor, rates in whole units per second.
#[derive(Debug, Clone, Copy, PartialEq, Eq, Structural)]
pub struct MonitorLine {
    /// Whole seconds since the start of the run.
    pub elapsed_secs: u64,
    /// Bytes read per second over the last interval.
    pub read_rate: u128,
    /// Bytes read per second since the start.
    pub avg_read_rate: u128,
    /// Bytes written per second over the last interval.
    pub write_rate: u128,
    /// Operations per second over the last interval.
    pub iops: u128,
    /// Operations per second since the start.
    pub avg_iops: u128,
}

impl Progress {
    /// The progress that the totals `results` show.
    pub open spec fn spec_of(results: BenchmarkResults) -> Progress {
        Progress {
            bytes_read: results.total_bytes_read,
            bytes_written: results.total_bytes_written,
            ops: results.total_ops,
        }
    }

    /// What was done since `earlier`; zero where a counter went back.
    pub open spec fn spec_since(self, earlier: Progress) -> Progress {
        Progress {
            bytes_read: sat_sub(self.bytes_read, earlier.bytes_read),
            bytes_written: sat_sub(self.bytes_written, earlier.bytes_written),
            ops: sat_sub(self.ops, earlier.ops),
        }
    }

    /// The progress of the workers with the counters `stats`.
    pub fn of_workers(stats: &Vec<WorkerStats>) -> (progress: Progress)
        ensures
            progress == Self::spec_of(spec_aggregate(stats@, 0)),
    {
        let totals = aggregate(stats, 0);
        Progress {
            bytes_read: totals.total_bytes_read,
            bytes_written: totals.total_bytes_written,
            ops: totals.total_ops,
        }
    }

    /// What was done since `earlier`.
    pub fn since(&self, earlier: &Progress) -> (delta: Progress)
        ensures
            delta == self.spec_since(*earlier),
    {
        Progress {
            bytes_read: self.bytes_read.saturating_sub(earlier.bytes_read),
            bytes_written: self.bytes_written.saturating_sub(earlier.bytes_written),
            ops: self.ops.saturating_sub(earlier.ops),
        }
    }
}

/// The monitor's memory between two status lines.
#[derive(Debug, Clone, Copy, PartialEq, Eq, Structural)]
pub struct Monitor {
    /// When the run began.
    pub start_ns: u64,
    /// When the last line was made.
    pub last_ns: u64,
    /// The progress at the last line.
    pub last: Progress,
}

impl Monitor {
    /// The status line for the progress `now` at the time `now_ns`, if time
    /// has passed since the last line.
    pub open spec fn spec_line(self, now: Progress, now_ns: u64) -> Option<MonitorLine> {
        let interval_ns = sat_sub(now_ns, self.last_ns);
        let elapsed_ns = sat_sub(now_ns, self.start_ns);
        let delta = now.spec_since(self.last);
        if interval_ns == 0 {
            None
        } else {
            Some(
                MonitorLine {
                    elapsed_secs: elapsed_ns / NANOS_PER_SEC,
                    read_rate: spec_per_second(delta.bytes_read, interval_ns) as u128,
                    avg_read_rate: spec_per_second(now.bytes_read, elapsed_ns) as u128,
                    write_rate: spec_per_second(delta.bytes_written, interval_ns) as u128,
                    iops: spec_per_second(delta.ops, interval_ns) as u128,
                    avg_iops: spec_per_second(now.ops, elapsed_ns) as u128,
                },
            )
        }
    }

    /// A monitor for a run that begins at `start_ns`.
    pub fn new(start_ns: u64) -> (monitor: Monitor)
        ensures
            monitor == (Monitor {
                start_ns,
                last_ns: start_ns,
                last: Progress { bytes_read: 0, bytes_written: 0, ops: 0 },
            }),
    {
        Monitor {
            start_ns,
            last_ns: start_ns,
            last: Progress { bytes_read: 0, bytes_written: 0, ops: 0 },
        }
    }

    /// Whether the monitor goes on: until a stop is asked for or the run's
    /// duration has passed.
    pub fn keeps_running(&self, stop_requested: bool, now_ns: u64, duration_ns: u64) -> (go_on:
        bool)
        ensures
            go_on == (!stop_requested && sat_sub(now_ns, self.start_ns) < duration_ns),
    {
        !stop_requested && now_ns.saturating_sub(self.start_ns) < duration_ns
    }

    /// Makes the status line for the progress `now` at the time `now_ns` and
    /// remembers both; without time passed since the last line there is no
    /// line and nothing changes.
    pub fn sample(&mut self, now: Progress, now_ns: u64) -> (line: Option<MonitorLine>)
        ensures
            line == old(self).spec_line(now, now_ns),
            *final(self) == if line is Some {
                Monitor { start_ns: old(self).start_ns, last_ns: now_ns, last: now }
            } else {
                *old(self)
            },
    {
        let interval_ns = now_ns.saturating_sub(self.last_ns);
        if interval_ns == 0 {
            return None;
        }
        let elapsed_ns = now_ns.saturating_sub(self.start_ns);
        let delta = now.since(&self.last);
        let line = MonitorLine {
            elapsed_secs: elapsed_ns / NANOS_PER_SEC,
            read_rate: per_second(delta.bytes_read, interval_ns),
            avg_read_rate: per_second(now.bytes_read, elapsed_ns),
            write_rate: per_second(delta.bytes_written, interval_ns),
            iops: per_second(delta.ops, interval_ns),
            avg_iops: per_second(now.ops, elapsed_ns),
        };
        self.last_ns = now_ns;
        self.last = now;
        Some(line)
    }
}

/// The engine: what to run and on what, and how the workers' counters become
/// results. Threads, the ring and the device are run from outside.
pub struct IoEngine {
    config: Config,
    device_size: u64,
}

impl IoEngine {
    pub closed spec fn spec_config(&self) -> Config {
        self.config
    }

    pub closed spec fn spec_device_size(&self) -> u64 {
        self.device_size
    }

    /// An engine for the device of `device_size` bytes that `config` names.
    pub fn new(config: Config, device_size: u64) -> (engine: IoEngine)
        ensures
            engine.spec_config() == config,
            engine.spec_device_size() == device_size,
    {
        IoEngine { config, device_size }
    }

    /// The configuration of the run.
    pub fn config(&self) -> (config: &Config)
        ensures
            *config == self.spec_config(),
    {
        &self.config
    }

    /// The size of the device in bytes.
    pub fn device_size(&self) -> (size: u64)
        ensures
            size == self.spec_device_size(),
    {
        self.device_size
    }

    /// The workloads to run, in order: the six concrete ones where all are
    /// asked for, else the configured one.
    pub fn workloads(&self) -> (list: Vec<Workload>)
        ensures
            list@ == self.spec_config().workload.spec_expand(),
    {
        self.config.workload.expand()
    }

    /// The number of workers of each run.
    pub fn threads(&self) -> (n: usize)
        ensures
            n == self.spec_config().threads,
    {
        self.config.threads
    }

    /// A worker for `workload`: the pattern and the share of reads are those
    /// of the workload, block size and queue depth those of the
    /// configuration.
    pub fn worker(&self, workload: Workload) -> (r: Result<IoWorker, WorkerError>)
        ensures
            match r {
                Ok(worker) => {
                    &&& worker@ == WorkerView::initial(
                        self.spec_device_size(),
                        workload.spec_mode(),
                        self.spec_config().block_size,
                        self.spec_config().queue_depth,
                        workload.spec_read_percent(),
                    )
                    &&& worker@.wf()
                },
                Err(error) => error == IoWorker::setup_error(
                    self.spec_device_size(),
                    self.spec_config().block_size,
                    self.spec_config().queue_depth,
                ),
            },
            r is Ok <==> valid_setup(
                self.spec_device_size(),
                self.spec_config().block_size,
                self.spec_config().queue_depth,
            ),
    {
        IoWorker::new_with_read_percent(
            self.device_size,
            IoMode::from(workload),
            self.config.block_size,
            self.config.queue_depth,
            workload.read_percent(),
        )
    }

    /// The results of one run from the counters of its workers; the rates are
    /// taken over the configured duration.
    pub fn results(&self, stats: &Vec<WorkerStats>) -> (results: BenchmarkResults)
        ensures
            results == spec_aggregate(stats@, self.spec_config().duration_ns),
    {
        aggregate(stats, self.config.duration_ns)
    }
}

} // verus!
