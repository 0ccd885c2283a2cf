//! One worker: its counters, and the submit/reap loop as a state machine that
//! is driven by what the kernel ring reports.

use crate::config::IoMode;
use crate::io::laws::{
    lemma_admitted_request_ok, lemma_complete_keeps_wf, lemma_reap_keeps_latency_consistent,
    lemma_reap_one_sided, lemma_refill_begins, lemma_refill_ends, lemma_refill_step,
    refill_progress,
};
use crate::io::model::{request_ok, slot_before, valid_setup, WorkerView};
use crate::io::patterns::IoPattern;
use std::collections::VecDeque;
use vstd::prelude::*;

verus! {

/// Loop iterations between two looks at the clock and the stop flag.
pub const ELAPSED_CHECK_INTERVAL: u64 = 1000;

/// One successful operation in this many has its latency measured.
pub const LATENCY_SAMPLE_RATE: u64 = 100;

/// Queued operations from which a batch is handed to the kernel.
pub const SUBMIT_BATCH: usize = 8;

/// Operations in flight below which the worker blocks for a completion.
pub const LOW_WATER_MARK: usize = 8;

/// Alignment that direct I/O asks of offsets, lengths and buffers.
pub const SECTOR_SIZE: usize = 512;

/// The deepest queue a worker can be given.
pub const MAX_QUEUE_DEPTH: usize = 32768;

/// `a + b`, held at the largest 64-bit value.
pub open spec fn sat_add(a: u64, b: u64) -> u64 {
    if a + b > u64::MAX {
        u64::MAX
    } else {
        (a + b) as u64
    }
}

/// `a - b`, held at zero.
pub open spec fn sat_sub(a: u64, b: u64) -> u64 {
    if a < b {
        0
    } else {
        (a - b) as u64
    }
}

/// The counters of one worker. Each only grows (the minimum only shrinks) and
/// stays at the largest 64-bit value once it has reached it.
#[derive(Debug, Clone, Copy, PartialEq, Eq, Structural)]
pub struct WorkerStats {
    pub bytes_read: u64,
    pub bytes_written: u64,
    /// Operations that completed with success.
    pub ops_completed: u64,
    /// Operations that completed with an error.
    pub ops_failed: u64,
    /// Sum of the latencies that were sampled.
    pub total_latency_ns: u64,
    /// Number of latencies that were sampled.
    pub latency_samples: u64,
    pub min_latency_ns: u64,
    pub max_latency_ns: u64,
}

impl WorkerStats {
    /// Counters before any operation.
    pub open spec fn spec_new() -> WorkerStats {
        WorkerStats {
            bytes_read: 0,
            bytes_written: 0,
            ops_completed: 0,
            ops_failed: 0,
            total_latency_ns: 0,
            latency_samples: 0,
            min_latency_ns: u64::MAX,
            max_latency_ns: 0,
        }
    }

    /// Whether the latency sum or the sample count has reached the largest
    /// value that it can hold, so that it may stand for more.
    pub open spec fn latency_saturated(&self) -> bool {
        self.total_latency_ns == u64::MAX || self.latency_samples == u64::MAX
    }

    /// What the latency counters owe each other: unless one has saturated,
    /// the sum lies between the sample count times the minimum and the
    /// sample count times the maximum.
    pub open spec fn latency_consistent(&self) -> bool {
        !self.latency_saturated() ==> {
            &&& self.min_latency_ns * self.latency_samples <= self.total_latency_ns
            &&& self.total_latency_ns <= self.max_latency_ns * self.latency_samples
        }
    }

    /// Whether a latency has been sampled if any operation has completed.
    pub open spec fn sampled_if_any(&self) -> bool {
        self.ops_completed > 0 ==> self.latency_samples > 0
    }

    /// The counters with `bytes` added on the side of the reads or of the
    /// writes.
    pub open spec fn spec_add_bytes(self, bytes: usize, is_read: bool) -> WorkerStats {
        if is_read {
            WorkerStats { bytes_read: sat_add(self.bytes_read, bytes as u64), ..self }
        } else {
            WorkerStats { bytes_written: sat_add(self.bytes_written, bytes as u64), ..self }
        }
    }

    /// The counters after one successful operation whose latency was sampled.
    pub open spec fn spec_record_op(self, bytes: usize, latency_ns: u64, is_read: bool)
        -> WorkerStats {
        WorkerStats {
            ops_completed: sat_add(self.ops_completed, 1),
            total_latency_ns: sat_add(self.total_latency_ns, latency_ns),
            latency_samples: sat_add(self.latency_samples, 1),
            min_latency_ns: if latency_ns < self.min_latency_ns {
                latency_ns
            } else {
                self.min_latency_ns
            },
            max_latency_ns: if latency_ns > self.max_latency_ns {
                latency_ns
            } else {
                self.max_latency_ns
            },
            ..self.spec_add_bytes(bytes, is_read)
        }
    }

    /// The counters after one successful operation whose latency was not
    /// sampled.
    pub open spec fn spec_record_unsampled(self, bytes: usize, is_read: bool) -> WorkerStats {
        WorkerStats {
            ops_completed: sat_add(self.ops_completed, 1),
            ..self.spec_add_bytes(bytes, is_read)
        }
    }

    /// The counters after one failed operation.
    pub open spec fn spec_record_failure(self) -> WorkerStats {
        WorkerStats { ops_failed: sat_add(self.ops_failed, 1), ..self }
    }

    /// Counters before any operation: all zero, the minimum at the largest
    /// value.
    pub fn new() -> (stats: WorkerStats)
        ensures
            stats == Self::spec_new(),
            stats.latency_consistent(),
            stats.sampled_if_any(),
    {
        WorkerStats {
            bytes_read: 0,
            bytes_written: 0,
            ops_completed: 0,
            ops_failed: 0,
            total_latency_ns: 0,
            latency_samples: 0,
            min_latency_ns: u64::MAX,
            max_latency_ns: 0,
        }
    }

    /// Counts one successful operation of `bytes` bytes whose latency was
    /// measured.
    pub fn record_op(&mut self, bytes: usize, latency_ns: u64, is_read: bool)
        ensures
            *final(self) == old(self).spec_record_op(bytes, latency_ns, is_read),
            old(self).latency_consistent() ==> final(self).latency_consistent(),
            final(self).sampled_if_any(),
    {
        if is_read {
            self.bytes_read = self.bytes_read.saturating_add(bytes as u64);
        } else {
            self.bytes_written = self.bytes_written.saturating_add(bytes as u64);
        }
        self.ops_completed = self.ops_completed.saturating_add(1);
        self.total_latency_ns = self.total_latency_ns.saturating_add(latency_ns);
        self.latency_samples = self.latency_samples.saturating_add(1);
        if latency_ns < self.min_latency_ns {
            self.min_latency_ns = latency_ns;
        }
        if latency_ns > self.max_latency_ns {
            self.max_latency_ns = latency_ns;
        }
        proof {
            if old(self).latency_consistent() {
                lemma_record_keeps_latency_consistent(*old(self), bytes, latency_ns, is_read);
            }
        }
    }

    /// Counts one successful operation of `bytes` bytes whose latency was not
    /// measured.
    pub fn record_unsampled(&mut self, bytes: usize, is_read: bool)
        ensures
            *final(self) == old(self).spec_record_unsampled(bytes, is_read),
            old(self).latency_consistent() ==> final(self).latency_consistent(),
            old(self).latency_samples > 0 ==> final(self).sampled_if_any(),
    {
        if is_read {
            self.bytes_read = self.bytes_read.saturating_add(bytes as u64);
        } else {
            self.bytes_written = self.bytes_written.saturating_add(bytes as u64);
        }
        self.ops_completed = self.ops_completed.saturating_add(1);
    }

    /// Counts one operation that the kernel completed with an error.
    pub fn record_failure(&mut self)
        ensures
            *final(self) == old(self).spec_record_failure(),
            old(self).latency_consistent() ==> final(self).latency_consistent(),
            old(self).sampled_if_any() ==> final(self).sampled_if_any(),
    {
        self.ops_failed = self.ops_failed.saturating_add(1);
    }
}

/// A sampled operation keeps the latency counters consistent.
pub proof fn lemma_record_keeps_latency_consistent(
    stats: WorkerStats,
    bytes: usize,
    latency_ns: u64,
    is_read: bool,
)
    requires
        stats.latency_consistent(),
    ensures
        stats.spec_record_op(bytes, latency_ns, is_read).latency_consistent(),
{
    let after = stats.spec_record_op(bytes, latency_ns, is_read);
    if !after.latency_saturated() {
        let n = stats.latency_samples as int;
        let lo = after.min_latency_ns as int;
        let hi = after.max_latency_ns as int;
        assert(lo * (n + 1) == lo * n + lo) by (nonlinear_arith);
        assert(hi * (n + 1) == hi * n + hi) by (nonlinear_arith);
        assert(lo * n <= (stats.min_latency_ns as int) * n) by (nonlinear_arith)
            requires
                0 <= n,
                lo <= stats.min_latency_ns,
        ;
        assert((stats.max_latency_ns as int) * n <= hi * n) by (nonlinear_arith)
            requires
                0 <= n,
                stats.max_latency_ns <= hi,
        ;
    }
}

/// What the worker remembers of an operation until its completion.
#[derive(Debug, Clone, Copy, PartialEq, Eq, Structural)]
pub struct OpRecord {
    /// The clock when the operation was queued, as far as it was read.
    pub submit_ns: u64,
    pub is_read: bool,
    /// The buffer that the kernel borrows for the operation.
    pub buf_index: u16,
}

/// One operation for the submission ring.
#[derive(Debug, Clone, Copy, PartialEq, Eq, Structural)]
pub struct IoRequest {
    pub is_read: bool,
    /// Byte offset on the device.
    pub offset: u64,
    /// Bytes to transfer.
    pub len: u32,
    /// Index of the worker's buffer to use.
    pub buf_index: u16,
    /// Whether to use the opcode for registered buffers.
    pub fixed_buffer: bool,
    /// Whether to name the device by its registered slot.
    pub fixed_file: bool,
}

/// Why a worker cannot be made or has stopped.
#[derive(Debug, Clone, Copy, PartialEq, Eq, Structural)]
pub enum WorkerError {
    /// The queue depth is zero or beyond `MAX_QUEUE_DEPTH`.
    InvalidQueueDepth,
    /// The block size is zero, no multiple of the sector size, or too large
    /// for one operation.
    InvalidBlockSize,
    /// The device holds less than one block.
    DeviceTooSmall,
    /// The submission ring refused an operation.
    SubmissionPush,
    /// The kernel refused a submission.
    Submit,
    /// More completions were reported than operations were in flight.
    UnexpectedCompletion,
    /// An event arrived that does not answer the last action.
    UnexpectedEvent,
}

/// What the worker waits for.
#[derive(Debug, Clone, Copy, PartialEq, Eq, Structural)]
pub enum Expect {
    Start,
    Clock,
    Completions,
    Pushed,
    Submitted,
    Waited,
    Finished,
    Failed,
}

/// What the outside reports to the worker.
#[derive(Debug)]
pub enum WorkerEvent {
    /// The ring is set up. Says how long to run, which registrations the
    /// kernel took, and the time.
    Started { duration_ns: u64, fixed_buffers: bool, fixed_files: bool, now_ns: u64 },
    /// Answer to `PollClock`: the time, and whether a stop was asked for.
    Clock { now_ns: u64, stop_requested: bool },
    /// Answer to `Reap`: the results of the completions found, oldest first,
    /// and the time, read where `needs_clock` asked for it.
    Completions { results: Vec<i32>, now_ns: u64 },
    /// The last action was carried out.
    Done,
    /// The last action failed.
    Failed,
}

/// What the worker asks of the outside next.
#[derive(Debug, Clone, Copy, PartialEq, Eq, Structural)]
pub enum WorkerAction {
    /// Read the clock and the stop flag.
    PollClock,
    /// Take what the completion ring holds, without blocking.
    Reap,
    /// Put the requests handed out on the submission ring.
    Push,
    /// Hand the queued operations to the kernel.
    Submit,
    /// Hand the queued operations to the kernel and block for one completion.
    SubmitAndWait,
    /// Nothing is in flight any more: the run is over.
    Finished,
    /// The worker gave up.
    Aborted(WorkerError),
}

/// The smallest multiple of the sector size that holds `block_size` bytes:
/// the length of a buffer for direct I/O. `None` where it does not fit the
/// machine word.
pub fn aligned_buffer_len(block_size: usize) -> (len: Option<usize>)
    ensures
        match len {
            Some(n) => n % SECTOR_SIZE == 0 && block_size <= n < block_size + SECTOR_SIZE,
            None => block_size + SECTOR_SIZE - 1 > usize::MAX,
        },
{
    match block_size.checked_add(SECTOR_SIZE - 1) {
        Some(padded) => Some(padded - padded % SECTOR_SIZE),
        None => None,
    }
}

/// One worker of the benchmark: a pattern generator, counters, and the state
/// of the submit/reap loop. The loop itself is run from outside: `run` takes
/// what the ring reported and says what to do next.
pub struct IoWorker {
    pattern: IoPattern,
    stats: WorkerStats,
    stop_flag: bool,
    queue_depth: usize,
    read_percent: u8,
    records: VecDeque<OpRecord>,
    queued: usize,
    next_buf: usize,
    sample_phase: u64,
    ticks: u64,
    deadline_ns: u64,
    clock_ns: u64,
    expect: Expect,
    draining: bool,
    fixed_buffers: bool,
    fixed_files: bool,
    offset: u64,
}

impl View for IoWorker {
    type V = WorkerView;

    closed spec fn view(&self) -> WorkerView {
        WorkerView {
            expect: self.expect,
            draining: self.draining,
            stop_flag: self.stop_flag,
            queue_depth: self.queue_depth,
            block_size: self.pattern.spec_block_size(),
            device_size: self.pattern.spec_device_size(),
            mode: self.pattern.spec_mode(),
            read_percent: self.read_percent,
            fixed_buffers: self.fixed_buffers,
            fixed_files: self.fixed_files,
            offset: self.offset,
            outstanding: self.records@,
            queued: self.queued,
            next_buf: self.next_buf,
            sample_phase: self.sample_phase,
            ticks: self.ticks,
            deadline_ns: self.deadline_ns,
            clock_ns: self.clock_ns,
            stats: self.stats,
        }
    }
}

impl IoWorker {
    /// A worker that only reads.
    pub fn new(device_size: u64, mode: IoMode, block_size: usize, queue_depth: usize) -> (r: Result<
        IoWorker,
        WorkerError,
    >)
        ensures
            match r {
                Ok(worker) => {
                    &&& valid_setup(device_size, block_size, queue_depth)
                    &&& worker@ == WorkerView::initial(
                        device_size,
                        mode,
                        block_size,
                        queue_depth,
                        100,
                    )
                    &&& worker@.wf()
                },
                Err(error) => error == Self::setup_error(device_size, block_size, queue_depth)
                    && !valid_setup(device_size, block_size, queue_depth),
            },
    {
        Self::new_with_read_percent(device_size, mode, block_size, queue_depth, 100)
    }

    /// The reason for which a worker cannot be made with these parameters;
    /// the queue depth is looked at first, then the block size, then the
    /// device.
    pub open spec fn setup_error(device_size: u64, block_size: usize, queue_depth: usize)
        -> WorkerError {
        if !(1 <= queue_depth <= MAX_QUEUE_DEPTH) {
            WorkerError::InvalidQueueDepth
        } else if !(block_size > 0 && block_size % SECTOR_SIZE == 0 && block_size <= u32::MAX) {
            WorkerError::InvalidBlockSize
        } else {
            WorkerError::DeviceTooSmall
        }
    }

    /// A worker for a device of `device_size` bytes that keeps `queue_depth`
    /// operations of `block_size` bytes outstanding, `read_percent` in a
    /// hundred of them reads.
    pub fn new_with_read_percent(
        device_size: u64,
        mode: IoMode,
        block_size: usize,
        queue_depth: usize,
        read_percent: u8,
    ) -> (r: Result<IoWorker, WorkerError>)
        ensures
            match r {
                Ok(worker) => {
                    &&& valid_setup(device_size, block_size, queue_depth)
                    &&& worker@ == WorkerView::initial(
                        device_size,
                        mode,
                        block_size,
                        queue_depth,
                        read_percent,
                    )
                    &&& worker@.wf()
                },
                Err(error) => error == Self::setup_error(device_size, block_size, queue_depth)
                    && !valid_setup(device_size, block_size, queue_depth),
            },
    {
        if queue_depth < 1 || queue_depth > MAX_QUEUE_DEPTH {
            return Err(WorkerError::InvalidQueueDepth);
        }
        if block_size == 0 || block_size % SECTOR_SIZE != 0 || block_size > u32::MAX as usize {
            return Err(WorkerError::InvalidBlockSize);
        }
        if (block_size as u64) > device_size {
            return Err(WorkerError::DeviceTooSmall);
        }
        let worker = IoWorker {
            pattern: IoPattern::new(mode, block_size, device_size),
            stats: WorkerStats::new(),
            stop_flag: false,
            queue_depth,
            read_percent,
            records: VecDeque::with_capacity(2 * queue_depth),
            queued: 0,
            next_buf: 0,
            sample_phase: 0,
            ticks: 0,
            deadline_ns: 0,
            clock_ns: 0,
            expect: Expect::Start,
            draining: false,
            fixed_buffers: false,
            fixed_files: false,
            offset: 0,
        };
        assert(worker@.outstanding =~= Seq::<OpRecord>::empty());
        assert(worker@ == WorkerView::initial(
            device_size,
            mode,
            block_size,
            queue_depth,
            read_percent,
        ));
        assert(valid_setup(device_size, block_size, queue_depth));
        assert(0u64 % (block_size as u64) == 0);
        assert(worker@.wf_core());
        Ok(worker)
    }

    /// The worker's counters.
    pub fn stats(&self) -> (stats: WorkerStats)
        ensures
            stats == self@.stats,
    {
        self.stats
    }

    /// Puts other counters in the place of the worker's own.
    pub fn set_stats(&mut self, stats: WorkerStats)
        ensures
            final(self)@ == (WorkerView { stats, ..old(self)@ }),
    {
        self.stats = stats;
    }

    /// Whether the worker was told to stop.
    pub fn stop_flag(&self) -> (stop: bool)
        ensures
            stop == self@.stop_flag,
    {
        self.stop_flag
    }

    /// Tells the worker to stop: it ends the run when it next polls the clock.
    pub fn stop(&mut self)
        ensures
            final(self)@ == (WorkerView { stop_flag: true, ..old(self)@ }),
    {
        self.stop_flag = true;
    }

    /// What the worker waits for.
    pub fn expect(&self) -> (expect: Expect)
        ensures
            expect == self@.expect,
    {
        self.expect
    }

    /// Operations handed to the kernel and not yet completed; in a
    /// well-formed worker never more than the queue depth.
    pub fn in_flight(&self) -> (n: usize)
        ensures
            n == if self@.queued <= self@.outstanding.len() {
                self@.in_flight()
            } else {
                0
            },
            self@.wf() ==> n == self@.in_flight() && n + self@.queued <= self@.queue_depth,
    {
        self.records.len().saturating_sub(self.queued)
    }

    /// Whether the worker's state is well formed. It is from the worker's
    /// making on, and `run` keeps it so.
    pub fn is_well_formed(&self) -> (ok: bool)
        ensures
            ok == self@.wf(),
    {
        let block_size = self.pattern.block_size();
        let device_size = self.pattern.device_size();
        let depth = self.queue_depth;
        if depth < 1 || depth > MAX_QUEUE_DEPTH {
            return false;
        }
        if block_size == 0 || block_size % SECTOR_SIZE != 0 || block_size > u32::MAX as usize {
            return false;
        }
        if (block_size as u64) > device_size {
            return false;
        }
        if self.offset % (block_size as u64) != 0 {
            return false;
        }
        let in_bounds = match self.offset.checked_add(block_size as u64) {
            Some(end) => end <= device_size,
            None => false,
        };
        let bounded = match self.pattern.mode() {
            IoMode::Random => true,
            _ => device_size % (block_size as u64) == 0,
        };
        if bounded && !in_bounds {
            return false;
        }
        let len = self.records.len();
        if len > depth || self.queued > len || self.next_buf >= depth {
            return false;
        }
        if self.sample_phase >= LATENCY_SAMPLE_RATE || self.ticks >= ELAPSED_CHECK_INTERVAL {
            return false;
        }
        let mut i: usize = 0;
        while i < len
            invariant
                i <= len == self.records@.len() <= depth <= MAX_QUEUE_DEPTH,
                self.next_buf < depth,
                depth == self@.queue_depth,
                forall|j: int|
                    0 <= j < i ==> (#[trigger] self@.outstanding[j]).buf_index == slot_before(
                        self@.next_buf,
                        self@.queue_depth,
                        self@.outstanding.len() - j,
                    ),
                self@.read_percent >= 100 ==> forall|j: int|
                    0 <= j < i ==> (#[trigger] self@.outstanding[j]).is_read,
                self@.read_percent == 0 ==> forall|j: int|
                    0 <= j < i ==> !(#[trigger] self@.outstanding[j]).is_read,
            decreases len - i,
        {
            let record = self.records[i];
            let back = len - i;
            let slot = if self.next_buf >= back {
                self.next_buf - back
            } else {
                self.next_buf + depth - back
            };
            if record.buf_index as usize != slot {
                return false;
            }
            if self.read_percent >= 100 && !record.is_read {
                return false;
            }
            if self.read_percent == 0 && record.is_read {
                return false;
            }
            i = i + 1;
        }
        match self.expect {
            Expect::Start => len == 0 && !self.draining,
            Expect::Pushed | Expect::Submitted => !self.draining && len == depth,
            Expect::Clock | Expect::Completions | Expect::Waited => self.queued == 0,
            Expect::Finished => self.queued == 0 && len == 0 && self.draining,
            Expect::Failed => true,
        }
    }

    /// Operations on the submission ring that were not yet handed to the
    /// kernel.
    pub fn queued(&self) -> (n: usize)
        ensures
            n == self@.queued,
    {
        self.queued
    }

    /// The depth of the worker's queue.
    pub fn queue_depth(&self) -> (n: usize)
        ensures
            n == self@.queue_depth,
    {
        self.queue_depth
    }

    /// The bytes per operation.
    pub fn block_size(&self) -> (n: usize)
        ensures
            n == self@.block_size,
    {
        self.pattern.block_size()
    }

    /// Whether the clock has to be read to report `completions` completions.
    pub fn needs_clock(&self, completions: usize) -> (needed: bool)
        ensures
            needed == self@.needs_clock(completions),
    {
        completions > 0 && !self.draining && (self.stats.latency_samples == 0 || self.sample_phase
            == 0 || (self.sample_phase as u128) + (completions as u128) + (self.queue_depth as u128)
            > LATENCY_SAMPLE_RATE as u128)
    }

    /// Takes in the completions of the oldest operations in flight.
    fn reap(&mut self, results: &Vec<i32>, now_ns: u64)
        requires
            old(self)@.wf_core(),
            results@.len() <= old(self)@.in_flight(),
        ensures
            final(self)@ == old(self)@.reap(results@, now_ns),
            final(self)@.wf_core(),
            final(self)@.outstanding.len() == old(self)@.outstanding.len() - results@.len(),
            final(self)@.queued == old(self)@.queued,
            final(self)@.expect == old(self)@.expect,
            final(self)@.draining == old(self)@.draining,
    {
        let ghost start = self@;
        let mut i: usize = 0;
        while i < results.len()
            invariant
                i <= results.len(),
                results@.len() <= start.in_flight(),
                self@ == start.reap(results@.take(i as int), now_ns),
                self@.wf_core(),
                self@.outstanding.len() == start.outstanding.len() - i,
                self@.queued == start.queued,
                self@.expect == start.expect,
                self@.draining == start.draining,
            decreases results.len() - i,
        {
            let ghost before = self@;
            let result = results[i];
            proof {
                assert(results@.take(i + 1).drop_last() == results@.take(i as int));
                assert(results@.take(i + 1).last() == result);
                lemma_complete_keeps_wf(before, result, now_ns);
            }
            let popped = self.records.pop_front();
            let record = match popped {
                Some(record) => record,
                None => OpRecord { submit_ns: 0, is_read: true, buf_index: 0 },
            };
            if result >= 0 {
                let bytes = result as usize;
                if self.draining || self.sample_phase == 0 || self.stats.latency_samples == 0 {
                    self.stats.record_op(
                        bytes,
                        now_ns.saturating_sub(record.submit_ns),
                        record.is_read,
                    );
                } else {
                    self.stats.record_unsampled(bytes, record.is_read);
                }
                self.sample_phase = if self.sample_phase + 1 >= LATENCY_SAMPLE_RATE {
                    0
                } else {
                    self.sample_phase + 1
                };
            } else {
                self.stats.record_failure();
            }
            assert(self@ == before.complete(result, now_ns));
            i = i + 1;
        }
        assert(results@.take(results.len() as int) == results@);
    }

    /// Queues operations until the queue is full and hands them out.
    fn refill(&mut self, requests: &mut Vec<IoRequest>)
        requires
            old(self)@.wf_core(),
            old(requests)@.len() == 0,
        ensures
            final(self)@ == old(self)@.pushed(final(requests)@, final(self)@.offset),
            old(self)@.refills(final(requests)@, final(self)@.offset),
            final(self)@.wf_core(),
    {
        let ghost start = self@;
        proof {
            lemma_refill_begins(start);
            assert(requests@ =~= Seq::<IoRequest>::empty());
        }
        while self.records.len() < self.queue_depth
            invariant
                start.wf_core(),
                refill_progress(start, requests@, self@),
                self@.outstanding.len() <= self@.queue_depth <= MAX_QUEUE_DEPTH,
                self@.next_buf < self@.queue_depth,
                self@.block_size <= u32::MAX,
                self@.queued <= self@.outstanding.len(),
            decreases self.queue_depth - self.records.len(),
        {
            let ghost before = self@;
            let ghost handed = requests@;
            let is_read = self.pattern.is_read(self.read_percent);
            let next = self.pattern.next_offset(self.offset);
            let request = IoRequest {
                is_read,
                offset: self.offset,
                len: self.pattern.block_size() as u32,
                buf_index: self.next_buf as u16,
                fixed_buffer: self.fixed_buffers,
                fixed_file: self.fixed_files,
            };
            proof {
                assert(self@ == before);
            }
            self.records.push_back(
                OpRecord { submit_ns: self.clock_ns, is_read, buf_index: self.next_buf as u16 },
            );
            self.queued = self.queued + 1;
            self.next_buf = if self.next_buf + 1 >= self.queue_depth {
                0
            } else {
                self.next_buf + 1
            };
            self.offset = next;
            requests.push(request);
            proof {
                assert(self@ == before.push_one(request, next));
                lemma_refill_step(start, handed, before, request, next);
            }
        }
        proof {
            lemma_refill_ends(start, requests@, self@);
        }
    }

    fn fail(&mut self, error: WorkerError) -> (action: WorkerAction)
        requires
            old(self)@.wf_core(),
        ensures
            (final(self)@, action) == old(self)@.fail(error),
            final(self)@.wf(),
    {
        self.expect = Expect::Failed;
        WorkerAction::Aborted(error)
    }

    fn reap_stage(&mut self) -> (action: WorkerAction)
        requires
            old(self)@.wf_core(),
            old(self)@.queued == 0,
        ensures
            (final(self)@, action) == old(self)@.reap_stage(),
            final(self)@.wf(),
    {
        self.expect = Expect::Completions;
        WorkerAction::Reap
    }

    fn tick_stage(&mut self) -> (action: WorkerAction)
        requires
            old(self)@.wf_core(),
            old(self)@.queued == 0,
        ensures
            (final(self)@, action) == old(self)@.tick_stage(),
            final(self)@.wf(),
    {
        if self.ticks + 1 >= ELAPSED_CHECK_INTERVAL {
            self.ticks = 0;
            self.expect = Expect::Clock;
            WorkerAction::PollClock
        } else {
            self.ticks = self.ticks + 1;
            self.reap_stage()
        }
    }

    fn wait_stage(&mut self) -> (action: WorkerAction)
        requires
            old(self)@.wf_core(),
            old(self)@.queued == 0,
        ensures
            (final(self)@, action) == old(self)@.wait_stage(),
            final(self)@.wf(),
    {
        let in_flight = self.records.len() - self.queued;
        if 0 < in_flight && in_flight < LOW_WATER_MARK {
            self.expect = Expect::Waited;
            WorkerAction::SubmitAndWait
        } else {
            self.tick_stage()
        }
    }

    fn submit_stage(&mut self) -> (action: WorkerAction)
        requires
            old(self)@.wf_core(),
            !old(self)@.draining,
            old(self)@.queued > 0 ==> old(self)@.outstanding.len() == old(self)@.queue_depth,
        ensures
            (final(self)@, action) == old(self)@.submit_stage(),
            final(self)@.wf(),
    {
        if self.queued > 0 && (self.queued >= SUBMIT_BATCH || self.records.len()
            >= self.queue_depth) {
            self.expect = Expect::Submitted;
            WorkerAction::Submit
        } else {
            self.wait_stage()
        }
    }

    fn refill_stage(&mut self, requests: &mut Vec<IoRequest>) -> (action: WorkerAction)
        requires
            old(self)@.wf_core(),
            !old(self)@.draining,
            old(self)@.queued == 0,
            old(requests)@.len() == 0,
        ensures
            (final(self)@, action) == old(self)@.refill_stage(
                final(requests)@,
                final(self)@.offset,
            ),
            final(self)@.wf(),
            action is Push ==> old(self)@.refills(final(requests)@, final(self)@.offset)
                && final(requests)@.len() > 0,
            !(action is Push) ==> final(requests)@.len() == 0,
            final(self)@.stats == old(self)@.stats,
            forall|i: int|
                0 <= i < final(requests)@.len() ==> request_ok(
                    final(self)@,
                    #[trigger] final(requests)@[i],
                ),
    {
        if self.records.len() < self.queue_depth {
            self.refill(requests);
            self.expect = Expect::Pushed;
            proof {
                assert forall|i: int| 0 <= i < requests@.len() implies request_ok(
                    self@,
                    #[trigger] requests@[i],
                ) by {
                    lemma_admitted_request_ok(old(self)@, requests@, self@.offset, i);
                }
            }
            WorkerAction::Push
        } else {
            self.submit_stage()
        }
    }

    fn drain_stage(&mut self) -> (action: WorkerAction)
        requires
            old(self)@.wf_core(),
            old(self)@.draining,
            old(self)@.queued == 0,
        ensures
            (final(self)@, action) == old(self)@.drain_stage(),
            final(self)@.wf(),
    {
        if self.records.len() - self.queued == 0 {
            self.expect = Expect::Finished;
            WorkerAction::Finished
        } else {
            self.expect = Expect::Waited;
            WorkerAction::SubmitAndWait
        }
    }

    fn on_started(&mut self, event: &WorkerEvent, requests: &mut Vec<IoRequest>) -> (action:
        WorkerAction)
        requires
            old(self)@.wf(),
            *event is Started,
            old(requests)@.len() == 0,
        ensures
            final(self)@.wf(),
            (final(self)@, action) == old(self)@.on_started(
                *event,
                final(requests)@,
                final(self)@.offset,
            ),
            action is Push ==> old(self)@.refill_base(*event).refills(
                final(requests)@,
                final(self)@.offset,
            )
                && final(requests)@.len() > 0,
            !(action is Push) ==> final(requests)@.len() == 0,
            final(self)@.stats == old(self)@.stats,
            forall|i: int|
                0 <= i < final(requests)@.len() ==> request_ok(
                    final(self)@,
                    #[trigger] final(requests)@[i],
                ),
    {
        match (self.expect, event) {
            (
                Expect::Start,
                WorkerEvent::Started { duration_ns, fixed_buffers, fixed_files, now_ns },
            ) => {
                self.fixed_buffers = *fixed_buffers;
                self.fixed_files = *fixed_files;
                self.clock_ns = *now_ns;
                self.deadline_ns = now_ns.saturating_add(*duration_ns);
                assert(self@ == old(self)@.refill_base(*event));
                self.refill_stage(requests)
            },
            _ => self.fail(WorkerError::UnexpectedEvent),
        }
    }

    fn on_clock(&mut self, now_ns: u64, stop_requested: bool) -> (action: WorkerAction)
        requires
            old(self)@.wf(),
        ensures
            final(self)@.wf(),
            (final(self)@, action) == old(self)@.on_clock(now_ns, stop_requested),
            !(action is Push),
            final(self)@.stats == old(self)@.stats,
    {
        match self.expect {
            Expect::Clock => {
                self.clock_ns = now_ns;
                if self.draining || stop_requested || self.stop_flag || now_ns
                    >= self.deadline_ns {
                    self.draining = true;
                    self.drain_stage()
                } else {
                    self.reap_stage()
                }
            },
            _ => self.fail(WorkerError::UnexpectedEvent),
        }
    }

    fn on_completions(&mut self, event: &WorkerEvent, requests: &mut Vec<IoRequest>) -> (action:
        WorkerAction)
        requires
            old(self)@.wf(),
            *event is Completions,
            old(requests)@.len() == 0,
        ensures
            final(self)@.wf(),
            (final(self)@, action) == old(self)@.on_completions(
                *event,
                final(requests)@,
                final(self)@.offset,
            ),
            action is Push ==> old(self)@.refill_base(*event).refills(
                final(requests)@,
                final(self)@.offset,
            )
                && final(requests)@.len() > 0,
            !(action is Push) ==> final(requests)@.len() == 0,
            forall|i: int|
                0 <= i < final(requests)@.len() ==> request_ok(
                    final(self)@,
                    #[trigger] final(requests)@[i],
                ),
            old(self)@.stats.latency_consistent() && old(self)@.stats.sampled_if_any()
                ==> final(self)@.stats.latency_consistent() && final(self)@.stats.sampled_if_any(),
            old(self)@.read_percent >= 100 ==> final(self)@.stats.bytes_written
                == old(self)@.stats.bytes_written,
            old(self)@.read_percent == 0 ==> final(self)@.stats.bytes_read
                == old(self)@.stats.bytes_read,
    {
        match (self.expect, event) {
            (Expect::Completions, WorkerEvent::Completions { results, now_ns }) => {
                if results.len() > self.records.len() - self.queued {
                    self.fail(WorkerError::UnexpectedCompletion)
                } else {
                    let time = if self.needs_clock(results.len()) {
                        *now_ns
                    } else {
                        self.clock_ns
                    };
                    self.reap(results, time);
                    self.clock_ns = time;
                    assert(self@ == old(self)@.refill_base(*event));
                    proof {
                        lemma_reap_one_sided(old(self)@, results@, time);
                        if old(self)@.stats.latency_consistent() && old(self)@.stats.sampled_if_any() {
                            lemma_reap_keeps_latency_consistent(old(self)@, results@, time);
                        }
                    }
                    if self.draining {
                        self.drain_stage()
                    } else {
                        self.refill_stage(requests)
                    }
                }
            },
            _ => self.fail(WorkerError::UnexpectedEvent),
        }
    }

    fn on_done(&mut self) -> (action: WorkerAction)
        requires
            old(self)@.wf(),
        ensures
            final(self)@.wf(),
            (final(self)@, action) == old(self)@.on_done(),
            !(action is Push),
            final(self)@.stats == old(self)@.stats,
    {
        match self.expect {
            Expect::Pushed => self.submit_stage(),
            Expect::Submitted => {
                self.queued = 0;
                self.wait_stage()
            },
            Expect::Waited => {
                if self.draining {
                    self.reap_stage()
                } else {
                    self.tick_stage()
                }
            },
            _ => self.fail(WorkerError::UnexpectedEvent),
        }
    }

    fn on_failed(&mut self) -> (action: WorkerAction)
        requires
            old(self)@.wf(),
        ensures
            final(self)@.wf(),
            (final(self)@, action) == old(self)@.on_failed(),
            !(action is Push),
            final(self)@.stats == old(self)@.stats,
    {
        match self.expect {
            Expect::Pushed => self.fail(WorkerError::SubmissionPush),
            Expect::Submitted => self.fail(WorkerError::Submit),
            Expect::Waited => self.fail(WorkerError::Submit),
            _ => self.fail(WorkerError::UnexpectedEvent),
        }
    }

    /// Takes what the outside reports and says what the worker asks for
    /// next. The requests to put on the ring, if any, are left in `requests`.
    ///
    /// The worker fills its queue to its depth, hands batches to the kernel,
    /// takes completions in, blocks only where little is in flight, and looks
    /// at the clock and the stop flag once in `ELAPSED_CHECK_INTERVAL`
    /// iterations. Past the deadline, or once told to stop, it queues nothing
    /// more and finishes when nothing is in flight.
    pub fn run(&mut self, event: &WorkerEvent, requests: &mut Vec<IoRequest>) -> (action:
        WorkerAction)
        requires
            old(self)@.wf(),
        ensures
            final(self)@.wf(),
            (final(self)@, action) == old(self)@.step(
                *event,
                final(requests)@,
                final(self)@.offset,
            ),
            action is Push ==> old(self)@.refill_base(*event).refills(
                final(requests)@,
                final(self)@.offset,
            )
                && final(requests)@.len() > 0,
            !(action is Push) ==> final(requests)@.len() == 0,
            forall|i: int|
                0 <= i < final(requests)@.len() ==> request_ok(
                    final(self)@,
                    #[trigger] final(requests)@[i],
                ),
            final(self)@.in_flight() + final(self)@.queued <= final(self)@.queue_depth,
            action is Finished ==> final(self)@.in_flight() == 0,
            old(self)@.stats.latency_consistent() && old(self)@.stats.sampled_if_any()
                ==> final(self)@.stats.latency_consistent() && final(self)@.stats.sampled_if_any(),
            old(self)@.read_percent >= 100 ==> final(self)@.stats.bytes_written
                == old(self)@.stats.bytes_written,
            old(self)@.read_percent == 0 ==> final(self)@.stats.bytes_read
                == old(self)@.stats.bytes_read,
    {
        requests.clear();
        match event {
            WorkerEvent::Started { .. } => self.on_started(event, requests),
            WorkerEvent::Clock { now_ns, stop_requested } => self.on_clock(
                *now_ns,
                *stop_requested,
            ),
            WorkerEvent::Completions { .. } => self.on_completions(event, requests),
            WorkerEvent::Done => self.on_done(),
            WorkerEvent::Failed => self.on_failed(),
        }
    }
}

} // verus!
