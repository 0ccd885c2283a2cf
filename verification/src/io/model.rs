//! The worker's state as contracts see it, and its steps as functions from
//! state and event to state and action.

use crate::config::IoMode;
use crate::io::patterns::{is_random_offset, sequential_next};
use crate::io::worker::{
    sat_add, sat_sub, Expect, IoRequest, OpRecord, WorkerAction, WorkerError, WorkerEvent,
    WorkerStats, ELAPSED_CHECK_INTERVAL, LATENCY_SAMPLE_RATE, LOW_WATER_MARK, MAX_QUEUE_DEPTH,
    SECTOR_SIZE, SUBMIT_BATCH,
};
use vstd::prelude::*;

verus! {

/// A buffer index `back` places before `next` on a ring of `depth` slots.
pub open spec fn slot_before(next: usize, depth: usize, back: int) -> int {
    if next >= back {
        next - back
    } else {
        next + depth - back
    }
}

/// The buffer index `ahead` places after `next` on a ring of `depth` slots.
pub open spec fn slot_ahead(next: usize, depth: usize, ahead: int) -> int {
    if next + ahead >= depth {
        next + ahead - depth
    } else {
        next + ahead
    }
}

/// Whether `next` may follow `prev` as an offset in the given mode.
pub open spec fn offset_follows(
    mode: IoMode,
    prev: u64,
    next: u64,
    block_size: usize,
    device_size: u64,
) -> bool {
    match mode {
        IoMode::Sequential => next == sequential_next(prev, block_size, device_size),
        IoMode::Random => is_random_offset(next, block_size, device_size),
        IoMode::Mixed => next == sequential_next(prev, block_size, device_size)
            || is_random_offset(next, block_size, device_size),
    }
}

/// Whether a worker can be made with these parameters.
pub open spec fn valid_setup(device_size: u64, block_size: usize, queue_depth: usize) -> bool {
    &&& 1 <= queue_depth <= MAX_QUEUE_DEPTH
    &&& block_size > 0
    &&& block_size % SECTOR_SIZE == 0
    &&& block_size <= u32::MAX
    &&& block_size <= device_size
}

/// The state of a worker as contracts see it.
pub struct WorkerView {
    pub expect: Expect,
    /// Whether the run is past its end and only waits for what is in flight.
    pub draining: bool,
    pub stop_flag: bool,
    pub queue_depth: usize,
    pub block_size: usize,
    pub device_size: u64,
    pub mode: IoMode,
    pub read_percent: u8,
    pub fixed_buffers: bool,
    pub fixed_files: bool,
    /// Offset of the operation to queue next.
    pub offset: u64,
    /// The operations queued and not yet completed, oldest first. The last
    /// `queued` of them are not yet handed to the kernel.
    pub outstanding: Seq<OpRecord>,
    pub queued: usize,
    /// The buffer that the next operation gets.
    pub next_buf: usize,
    /// Successful completions so far, modulo `LATENCY_SAMPLE_RATE`.
    pub sample_phase: u64,
    /// Loop iterations since the clock was polled.
    pub ticks: u64,
    pub deadline_ns: u64,
    /// The time last read.
    pub clock_ns: u64,
    pub stats: WorkerStats,
}

impl WorkerView {
    /// Operations handed to the kernel and not yet completed.
    pub open spec fn in_flight(self) -> int {
        self.outstanding.len() - self.queued
    }

    /// A worker before its start.
    pub open spec fn initial(
        device_size: u64,
        mode: IoMode,
        block_size: usize,
        queue_depth: usize,
        read_percent: u8,
    ) -> WorkerView {
        WorkerView {
            expect: Expect::Start,
            draining: false,
            stop_flag: false,
            queue_depth,
            block_size,
            device_size,
            mode,
            read_percent,
            fixed_buffers: false,
            fixed_files: false,
            offset: 0,
            outstanding: Seq::empty(),
            queued: 0,
            next_buf: 0,
            sample_phase: 0,
            ticks: 0,
            deadline_ns: 0,
            clock_ns: 0,
            stats: WorkerStats::spec_new(),
        }
    }

    /// What holds of a worker's queue whatever it waits for.
    pub open spec fn wf_core(self) -> bool {
        &&& valid_setup(self.device_size, self.block_size, self.queue_depth)
        &&& self.offset % (self.block_size as u64) == 0
        &&& self.mode is Random || self.device_size % (self.block_size as u64) == 0 ==> self.offset
            + self.block_size <= self.device_size
        &&& self.outstanding.len() <= self.queue_depth
        &&& self.queued <= self.outstanding.len()
        &&& self.next_buf < self.queue_depth
        &&& self.sample_phase < LATENCY_SAMPLE_RATE
        &&& self.ticks < ELAPSED_CHECK_INTERVAL
        &&& forall|i: int|
            0 <= i < self.outstanding.len() ==> (#[trigger] self.outstanding[i]).buf_index
                == slot_before(self.next_buf, self.queue_depth, self.outstanding.len() - i)
        &&& self.read_percent >= 100 ==> forall|i: int|
            0 <= i < self.outstanding.len() ==> (#[trigger] self.outstanding[i]).is_read
        &&& self.read_percent == 0 ==> forall|i: int|
            0 <= i < self.outstanding.len() ==> !(#[trigger] self.outstanding[i]).is_read
    }

    /// What holds of a worker between two steps.
    pub open spec fn wf(self) -> bool {
        &&& self.wf_core()
        &&& self.expect is Start ==> self.outstanding.len() == 0 && !self.draining
        &&& self.expect is Pushed || self.expect is Submitted ==> !self.draining
            && self.outstanding.len() == self.queue_depth
        &&& self.expect is Clock || self.expect is Completions || self.expect is Waited
            || self.expect is Finished ==> self.queued == 0
        &&& self.expect is Finished ==> self.outstanding.len() == 0 && self.draining
    }

    /// Whether the time is needed to take in `completions` completions: one
    /// of them, or an operation queued in their place, may be the next whose
    /// latency is measured.
    pub open spec fn needs_clock(self, completions: usize) -> bool {
        &&& completions > 0
        &&& !self.draining
        &&& {
            ||| self.stats.latency_samples == 0
            ||| self.sample_phase == 0
            ||| self.sample_phase + completions + self.queue_depth > LATENCY_SAMPLE_RATE
        }
    }

    /// The time against which `completions` completions are measured.
    pub open spec fn reap_time(self, completions: usize, now_ns: u64) -> u64 {
        if self.needs_clock(completions) {
            now_ns
        } else {
            self.clock_ns
        }
    }

    /// Whether the next successful completion has its latency measured.
    pub open spec fn samples_next(self) -> bool {
        self.draining || self.sample_phase == 0 || self.stats.latency_samples == 0
    }

    /// The state after the oldest operation completed with `result`.
    pub open spec fn complete(self, result: i32, now_ns: u64) -> WorkerView {
        let record = self.outstanding[0];
        let rest = self.outstanding.subrange(1, self.outstanding.len() as int);
        if result >= 0 {
            WorkerView {
                outstanding: rest,
                sample_phase: if self.sample_phase + 1 >= LATENCY_SAMPLE_RATE {
                    0
                } else {
                    (self.sample_phase + 1) as u64
                },
                stats: if self.samples_next() {
                    self.stats.spec_record_op(
                        result as usize,
                        sat_sub(now_ns, record.submit_ns),
                        record.is_read,
                    )
                } else {
                    self.stats.spec_record_unsampled(result as usize, record.is_read)
                },
                ..self
            }
        } else {
            WorkerView { outstanding: rest, stats: self.stats.spec_record_failure(), ..self }
        }
    }

    /// The state after the oldest operations completed with `results`, in
    /// this order.
    pub open spec fn reap(self, results: Seq<i32>, now_ns: u64) -> WorkerView
        decreases results.len(),
    {
        if results.len() == 0 {
            self
        } else {
            self.reap(results.drop_last(), now_ns).complete(results.last(), now_ns)
        }
    }

    /// What the worker remembers of `request` while it is outstanding.
    pub open spec fn record_of(self, request: IoRequest) -> OpRecord {
        OpRecord {
            submit_ns: self.clock_ns,
            is_read: request.is_read,
            buf_index: request.buf_index,
        }
    }

    /// Whether the worker may queue `requests`, in this order, and go on at
    /// the offset `next`: they fit in the queue; the first is at the
    /// worker's offset and each further one at an offset that may follow the
    /// one before, as `next` may follow the last; the buffers are taken in
    /// turn; length and registration are the worker's; and each is a read or
    /// a write as a fixed read percentage demands.
    pub open spec fn admits(self, requests: Seq<IoRequest>, next: u64) -> bool {
        &&& self.outstanding.len() + requests.len() <= self.queue_depth
        &&& requests.len() > 0 ==> requests[0].offset == self.offset
        &&& forall|i: int|
            0 <= i < requests.len() ==> {
                &&& (#[trigger] requests[i]).len == self.block_size
                &&& requests[i].buf_index == slot_ahead(self.next_buf, self.queue_depth, i)
                &&& requests[i].fixed_buffer == self.fixed_buffers
                &&& requests[i].fixed_file == self.fixed_files
                &&& self.read_percent == 0 ==> !requests[i].is_read
                &&& self.read_percent >= 100 ==> requests[i].is_read
                &&& offset_follows(
                    self.mode,
                    requests[i].offset,
                    if i + 1 < requests.len() {
                        requests[i + 1].offset
                    } else {
                        next
                    },
                    self.block_size,
                    self.device_size,
                )
            }
    }

    /// The state after `request` was queued, with `next` as the offset of
    /// the operation after it.
    pub open spec fn push_one(self, request: IoRequest, next: u64) -> WorkerView {
        WorkerView {
            offset: next,
            outstanding: self.outstanding.push(self.record_of(request)),
            queued: (self.queued + 1) as usize,
            next_buf: slot_ahead(self.next_buf, self.queue_depth, 1) as usize,
            ..self
        }
    }

    /// Whether `requests` fill the worker's queue to its depth.
    pub open spec fn refills(self, requests: Seq<IoRequest>, next: u64) -> bool {
        &&& self.admits(requests, next)
        &&& self.outstanding.len() + requests.len() == self.queue_depth
    }

    /// The state after `requests` were queued, in this order, with `next` as
    /// the offset of the operation after them.
    pub open spec fn pushed(self, requests: Seq<IoRequest>, next: u64) -> WorkerView {
        if requests.len() == 0 {
            self
        } else {
            WorkerView {
                offset: next,
                outstanding: self.outstanding + Seq::new(
                    requests.len(),
                    |i: int| self.record_of(requests[i]),
                ),
                queued: (self.queued + requests.len()) as usize,
                next_buf: slot_ahead(self.next_buf, self.queue_depth, requests.len() as int) as usize,
                ..self
            }
        }
    }

    pub open spec fn expecting(self, expect: Expect) -> WorkerView {
        WorkerView { expect, ..self }
    }

    /// The worker gives up.
    pub open spec fn fail(self, error: WorkerError) -> (WorkerView, WorkerAction) {
        (self.expecting(Expect::Failed), WorkerAction::Aborted(error))
    }

    /// Look into the completion ring.
    pub open spec fn reap_stage(self) -> (WorkerView, WorkerAction) {
        (self.expecting(Expect::Completions), WorkerAction::Reap)
    }

    /// Begin a loop iteration: every `ELAPSED_CHECK_INTERVAL`-th polls the
    /// clock, the others go on to the completion ring.
    pub open spec fn tick_stage(self) -> (WorkerView, WorkerAction) {
        if self.ticks + 1 >= ELAPSED_CHECK_INTERVAL {
            (WorkerView { ticks: 0, ..self }.expecting(Expect::Clock), WorkerAction::PollClock)
        } else {
            WorkerView { ticks: (self.ticks + 1) as u64, ..self }.reap_stage()
        }
    }

    /// End a loop iteration: block only where little is in flight.
    pub open spec fn wait_stage(self) -> (WorkerView, WorkerAction) {
        if 0 < self.in_flight() < LOW_WATER_MARK {
            (self.expecting(Expect::Waited), WorkerAction::SubmitAndWait)
        } else {
            self.tick_stage()
        }
    }

    /// Hand a batch to the kernel where it is large enough or the queue is
    /// full.
    pub open spec fn submit_stage(self) -> (WorkerView, WorkerAction) {
        if self.queued > 0 && (self.queued >= SUBMIT_BATCH || self.outstanding.len()
            >= self.queue_depth) {
            (self.expecting(Expect::Submitted), WorkerAction::Submit)
        } else {
            self.wait_stage()
        }
    }

    /// Fill the queue up to its depth.
    pub open spec fn refill_stage(self, requests: Seq<IoRequest>, next: u64) -> (
        WorkerView,
        WorkerAction,
    ) {
        if self.outstanding.len() < self.queue_depth {
            (self.pushed(requests, next).expecting(Expect::Pushed), WorkerAction::Push)
        } else {
            self.submit_stage()
        }
    }

    /// Past the end of the run: wait for what is in flight, then finish.
    pub open spec fn drain_stage(self) -> (WorkerView, WorkerAction) {
        if self.in_flight() == 0 {
            (self.expecting(Expect::Finished), WorkerAction::Finished)
        } else {
            (self.expecting(Expect::Waited), WorkerAction::SubmitAndWait)
        }
    }

    /// The state in which the refill that answers `event` begins.
    pub open spec fn refill_base(self, event: WorkerEvent) -> WorkerView {
        match event {
            WorkerEvent::Started { duration_ns, fixed_buffers, fixed_files, now_ns } => WorkerView {
                fixed_buffers,
                fixed_files,
                clock_ns: now_ns,
                deadline_ns: sat_add(now_ns, duration_ns),
                ..self
            },
            WorkerEvent::Completions { results, now_ns } => {
                let t = self.reap_time(results.len(), now_ns);
                WorkerView { clock_ns: t, ..self.reap(results@, t) }
            },
            _ => self,
        }
    }

    /// The answer to a start: the first fill of the queue.
    pub open spec fn on_started(self, event: WorkerEvent, requests: Seq<IoRequest>, next: u64)
        -> (WorkerView, WorkerAction) {
        if self.expect is Start {
            self.refill_base(event).refill_stage(requests, next)
        } else {
            self.fail(WorkerError::UnexpectedEvent)
        }
    }

    /// The answer to a look at the clock: past the deadline, or where a stop
    /// was asked for, the run goes over to waiting for what is in flight.
    pub open spec fn on_clock(self, now_ns: u64, stop_requested: bool) -> (
        WorkerView,
        WorkerAction,
    ) {
        if self.expect is Clock {
            let v = WorkerView { clock_ns: now_ns, ..self };
            if self.draining || stop_requested || self.stop_flag || now_ns >= self.deadline_ns {
                WorkerView { draining: true, ..v }.drain_stage()
            } else {
                v.reap_stage()
            }
        } else {
            self.fail(WorkerError::UnexpectedEvent)
        }
    }

    /// The answer to completions: they are counted, and the queue is filled
    /// again unless the run is past its end.
    pub open spec fn on_completions(
        self,
        event: WorkerEvent,
        requests: Seq<IoRequest>,
        next: u64,
    ) -> (WorkerView, WorkerAction) {
        if !(self.expect is Completions) {
            self.fail(WorkerError::UnexpectedEvent)
        } else if event->results.len() > self.in_flight() {
            self.fail(WorkerError::UnexpectedCompletion)
        } else if self.draining {
            self.refill_base(event).drain_stage()
        } else {
            self.refill_base(event).refill_stage(requests, next)
        }
    }

    /// The answer to an action that was carried out.
    pub open spec fn on_done(self) -> (WorkerView, WorkerAction) {
        match self.expect {
            Expect::Pushed => self.submit_stage(),
            Expect::Submitted => WorkerView { queued: 0, ..self }.wait_stage(),
            Expect::Waited => if self.draining {
                self.reap_stage()
            } else {
                self.tick_stage()
            },
            _ => self.fail(WorkerError::UnexpectedEvent),
        }
    }

    /// The answer to an action that failed.
    pub open spec fn on_failed(self) -> (WorkerView, WorkerAction) {
        match self.expect {
            Expect::Pushed => self.fail(WorkerError::SubmissionPush),
            Expect::Submitted => self.fail(WorkerError::Submit),
            Expect::Waited => self.fail(WorkerError::Submit),
            _ => self.fail(WorkerError::UnexpectedEvent),
        }
    }

    /// The state after `event` and the action that the worker asks for, where
    /// `requests` are the operations that it hands out and `next` is the
    /// offset at which it goes on after them.
    pub open spec fn step(self, event: WorkerEvent, requests: Seq<IoRequest>, next: u64) -> (
        WorkerView,
        WorkerAction,
    ) {
        match event {
            WorkerEvent::Started { .. } => self.on_started(event, requests, next),
            WorkerEvent::Clock { now_ns, stop_requested } => self.on_clock(now_ns, stop_requested),
            WorkerEvent::Completions { .. } => self.on_completions(event, requests, next),
            WorkerEvent::Done => self.on_done(),
            WorkerEvent::Failed => self.on_failed(),
        }
    }
}

/// The bytes that the successful completions among `results` moved.
pub open spec fn success_bytes(results: Seq<i32>) -> nat
    decreases results.len(),
{
    if results.len() == 0 {
        0
    } else {
        success_bytes(results.drop_last()) + if results.last() >= 0 {
            results.last() as nat
        } else {
            0
        }
    }
}

/// The number of successful completions among `results`.
pub open spec fn success_count(results: Seq<i32>) -> nat
    decreases results.len(),
{
    if results.len() == 0 {
        0
    } else {
        success_count(results.drop_last()) + if results.last() >= 0 {
            1nat
        } else {
            0
        }
    }
}

/// What a worker promises of a request that it hands out: offset and length
/// are multiples of the sector size, the buffer is one of the worker's own,
/// the operation is a read or a write as a fixed read percentage demands,
/// and it lies wholly on the device where offsets are drawn at random or the
/// device holds a whole number of blocks.
pub open spec fn request_ok(v: WorkerView, request: IoRequest) -> bool {
    &&& request.offset % (SECTOR_SIZE as u64) == 0
    &&& request.offset % (v.block_size as u64) == 0
    &&& request.len == v.block_size
    &&& request.len % (SECTOR_SIZE as u32) == 0
    &&& request.buf_index < v.queue_depth
    &&& request.fixed_buffer == v.fixed_buffers
    &&& request.fixed_file == v.fixed_files
    &&& v.read_percent == 0 ==> !request.is_read
    &&& v.read_percent >= 100 ==> request.is_read
    &&& v.mode is Random || v.device_size % (v.block_size as u64) == 0 ==> request.offset
        + request.len <= v.device_size
}

} // verus!
