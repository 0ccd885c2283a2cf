//! What holds of the worker's steps: the queue stays well formed and within
//! its depth, requests are aligned and in bounds, bytes are conserved, and a
//! stop ends the run.

use crate::io::model::{
    offset_follows, request_ok, slot_ahead, slot_before, success_bytes, success_count, WorkerView,
};
use crate::io::patterns::sequential_next;
use crate::io::worker::{
    lemma_record_keeps_latency_consistent, sat_sub, Expect, IoRequest, WorkerEvent,
    ELAPSED_CHECK_INTERVAL, SECTOR_SIZE, SUBMIT_BATCH,
};
use vstd::prelude::*;

verus! {

/// Completing the oldest operation keeps the queue well formed and takes one
/// operation out of flight.
pub proof fn lemma_complete_keeps_wf(v: WorkerView, result: i32, now_ns: u64)
    requires
        v.wf_core(),
        v.in_flight() > 0,
    ensures
        v.complete(result, now_ns).wf_core(),
        v.complete(result, now_ns).outstanding.len() == v.outstanding.len() - 1,
        v.complete(result, now_ns).queued == v.queued,
        v.complete(result, now_ns).expect == v.expect,
        v.complete(result, now_ns).draining == v.draining,
{
    let w = v.complete(result, now_ns);
    assert forall|i: int| 0 <= i < w.outstanding.len() implies (#[trigger] w.outstanding[i])
        == v.outstanding[i + 1] by {}
    assert forall|i: int| 0 <= i < w.outstanding.len() implies (#[trigger] w.outstanding[i]).buf_index
        == slot_before(w.next_buf, w.queue_depth, w.outstanding.len() - i) by {
        assert(w.outstanding[i] == v.outstanding[i + 1]);
    }
}

/// A multiple of a multiple of `s` is a multiple of `s`.
proof fn lemma_multiple_of_multiple(x: int, b: int, s: int)
    requires
        0 <= x,
        0 < b,
        0 < s,
        x % b == 0,
        b % s == 0,
    ensures
        x % s == 0,
{
    vstd::arithmetic::div_mod::lemma_fundamental_div_mod(x, b);
    vstd::arithmetic::div_mod::lemma_fundamental_div_mod(b, s);
    let k = x / b;
    let j = b / s;
    assert(x == s * (j * k)) by (nonlinear_arith)
        requires
            x == b * k,
            b == s * j,
    ;
    vstd::arithmetic::div_mod::lemma_mod_multiples_basic(j * k, s);
    assert((j * k) * s == s * (j * k)) by (nonlinear_arith);
}

/// The offsets of admitted requests, and the offset after them, are
/// multiples of the block size, and in bounds where offsets are drawn at
/// random or the device holds a whole number of blocks.
pub proof fn lemma_admitted_offsets(v: WorkerView, requests: Seq<IoRequest>, next: u64, i: int)
    requires
        v.wf_core(),
        v.admits(requests, next),
        0 <= i <= requests.len(),
    ensures
        ({
            let offset = if i < requests.len() {
                requests[i].offset
            } else if requests.len() == 0 {
                v.offset
            } else {
                next
            };
            &&& offset % (v.block_size as u64) == 0
            &&& v.mode is Random || v.device_size % (v.block_size as u64) == 0 ==> offset
                + v.block_size <= v.device_size
        }),
    decreases i,
{
    if i > 0 {
        lemma_admitted_offsets(v, requests, next, i - 1);
        let prev = requests[i - 1].offset;
        let offset = if i < requests.len() {
            requests[i].offset
        } else {
            next
        };
        assert(offset_follows(v.mode, prev, offset, v.block_size, v.device_size));
        let b = v.block_size as int;
        assert(0int % b == 0) by {
            vstd::arithmetic::div_mod::lemma_small_mod(0, b as nat);
        }
        if offset == sequential_next(prev, v.block_size, v.device_size) {
            if prev + b < v.device_size {
                assert((prev + b) % b == 0) by {
                    vstd::arithmetic::div_mod::lemma_mod_adds(prev as int, b, b);
                }
            }
            if v.device_size % (v.block_size as u64) == 0 {
                crate::io::patterns::lemma_sequential_next_in_bounds(
                    prev,
                    v.block_size,
                    v.device_size,
                );
            }
        }
    }
}

/// Queueing one more request after admitted ones: the longer run is
/// admitted too, and queueing it is queueing the shorter run and then the
/// one request.
pub proof fn lemma_admits_one_more(
    v: WorkerView,
    requests: Seq<IoRequest>,
    offset: u64,
    request: IoRequest,
    next: u64,
)
    requires
        v.wf_core(),
        v.admits(requests, offset),
        v.outstanding.len() + requests.len() < v.queue_depth,
        request.offset == v.pushed(requests, offset).offset,
        request.len == v.block_size,
        request.buf_index == v.pushed(requests, offset).next_buf,
        request.fixed_buffer == v.fixed_buffers,
        request.fixed_file == v.fixed_files,
        v.read_percent == 0 ==> !request.is_read,
        v.read_percent >= 100 ==> request.is_read,
        offset_follows(v.mode, request.offset, next, v.block_size, v.device_size),
    ensures
        v.admits(requests.push(request), next),
        v.pushed(requests.push(request), next) == v.pushed(requests, offset).push_one(
            request,
            next,
        ),
{
    let grown = requests.push(request);
    assert forall|i: int| 0 <= i < grown.len() implies {
        &&& (#[trigger] grown[i]).len == v.block_size
        &&& grown[i].buf_index == slot_ahead(v.next_buf, v.queue_depth, i)
        &&& grown[i].fixed_buffer == v.fixed_buffers
        &&& grown[i].fixed_file == v.fixed_files
        &&& v.read_percent == 0 ==> !grown[i].is_read
        &&& v.read_percent >= 100 ==> grown[i].is_read
        &&& offset_follows(
            v.mode,
            grown[i].offset,
            if i + 1 < grown.len() {
                grown[i + 1].offset
            } else {
                next
            },
            v.block_size,
            v.device_size,
        )
    } by {
        if i < requests.len() {
            assert(grown[i] == requests[i]);
            if i + 1 < requests.len() {
                assert(grown[i + 1] == requests[i + 1]);
            } else {
                assert(grown[i + 1] == request);
            }
        }
    }
    assert(v.pushed(grown, next).outstanding =~= v.pushed(requests, offset).push_one(
        request,
        next,
    ).outstanding);
}

/// Where a refill stands: `now` is the state after `requests` were queued
/// from `start`, and `start` admits them.
#[verifier::opaque]
pub closed spec fn refill_progress(start: WorkerView, requests: Seq<IoRequest>, now: WorkerView) -> bool {
    &&& now == start.pushed(requests, now.offset)
    &&& start.admits(requests, now.offset)
}

/// A refill that has queued nothing stands at its start.
pub proof fn lemma_refill_begins(start: WorkerView)
    requires
        start.wf_core(),
    ensures
        refill_progress(start, Seq::empty(), start),
{
    reveal(refill_progress);
}

/// One more request carries a refill on.
pub proof fn lemma_refill_step(
    start: WorkerView,
    requests: Seq<IoRequest>,
    before: WorkerView,
    request: IoRequest,
    next: u64,
)
    requires
        start.wf_core(),
        refill_progress(start, requests, before),
        before.outstanding.len() < before.queue_depth,
        request.offset == before.offset,
        request.len == before.block_size,
        request.buf_index == before.next_buf,
        request.fixed_buffer == before.fixed_buffers,
        request.fixed_file == before.fixed_files,
        before.read_percent == 0 ==> !request.is_read,
        before.read_percent >= 100 ==> request.is_read,
        offset_follows(before.mode, before.offset, next, before.block_size, before.device_size),
    ensures
        refill_progress(start, requests.push(request), before.push_one(request, next)),
{
    reveal(refill_progress);
    lemma_admits_one_more(start, requests, before.offset, request, next);
}

/// What a refill that has filled the queue has done.
pub proof fn lemma_refill_ends(start: WorkerView, requests: Seq<IoRequest>, now: WorkerView)
    requires
        start.wf_core(),
        refill_progress(start, requests, now),
        now.outstanding.len() == now.queue_depth,
    ensures
        now == start.pushed(requests, now.offset),
        start.refills(requests, now.offset),
        now.wf_core(),
{
    reveal(refill_progress);
    lemma_pushed_keeps_wf(start, requests, now.offset);
}

/// Queueing admitted requests keeps the queue well formed.
pub proof fn lemma_pushed_keeps_wf(v: WorkerView, requests: Seq<IoRequest>, next: u64)
    requires
        v.wf_core(),
        v.admits(requests, next),
    ensures
        v.pushed(requests, next).wf_core(),
{
    let w = v.pushed(requests, next);
    if requests.len() > 0 {
        lemma_admitted_offsets(v, requests, next, requests.len() as int);
        let old_len = v.outstanding.len() as int;
        assert forall|k: int| 0 <= k < w.outstanding.len() implies (#[trigger] w.outstanding[
            k
        ]).buf_index == slot_before(w.next_buf, w.queue_depth, w.outstanding.len() - k) by {
            if k < old_len {
                assert(w.outstanding[k] == v.outstanding[k]);
            } else {
                assert(w.outstanding[k] == v.record_of(requests[k - old_len]));
            }
        }
        if v.read_percent >= 100 {
            assert forall|k: int| 0 <= k < w.outstanding.len() implies (#[trigger] w.outstanding[
                k
            ]).is_read by {
                if k < old_len {
                    assert(w.outstanding[k] == v.outstanding[k]);
                } else {
                    assert(w.outstanding[k] == v.record_of(requests[k - old_len]));
                }
            }
        }
        if v.read_percent == 0 {
            assert forall|k: int| 0 <= k < w.outstanding.len() implies !(#[trigger] w.outstanding[
                k
            ]).is_read by {
                if k < old_len {
                    assert(w.outstanding[k] == v.outstanding[k]);
                } else {
                    assert(w.outstanding[k] == v.record_of(requests[k - old_len]));
                }
            }
        }
    }
}

/// Every request that a well-formed worker admits is aligned, in bounds and
/// of the demanded kind.
pub proof fn lemma_admitted_request_ok(
    v: WorkerView,
    requests: Seq<IoRequest>,
    next: u64,
    i: int,
)
    requires
        v.wf_core(),
        v.admits(requests, next),
        0 <= i < requests.len(),
    ensures
        request_ok(v, requests[i]),
{
    lemma_admitted_offsets(v, requests, next, i);
    lemma_multiple_of_multiple(requests[i].offset as int, v.block_size as int, SECTOR_SIZE as int);
}

/// Taking completions in keeps the queue well formed and takes as many
/// operations out of flight.
pub proof fn lemma_reap_keeps_wf(v: WorkerView, results: Seq<i32>, now_ns: u64)
    requires
        v.wf_core(),
        results.len() <= v.in_flight(),
    ensures
        v.reap(results, now_ns).wf_core(),
        v.reap(results, now_ns).outstanding.len() == v.outstanding.len() - results.len(),
        v.reap(results, now_ns).queued == v.queued,
        v.reap(results, now_ns).read_percent == v.read_percent,
        v.reap(results, now_ns).draining == v.draining,
    decreases results.len(),
{
    if results.len() > 0 {
        lemma_reap_keeps_wf(v, results.drop_last(), now_ns);
        lemma_complete_keeps_wf(v.reap(results.drop_last(), now_ns), results.last(), now_ns);
    }
}

/// Byte conservation: unless a byte counter has reached its largest value,
/// the bytes read and written grow by exactly the bytes of the successful
/// completions; likewise the counts of completed and failed operations.
pub proof fn lemma_reap_conserves_bytes(v: WorkerView, results: Seq<i32>, now_ns: u64)
    ensures
        ({
            let w = v.reap(results, now_ns);
            &&& w.stats.bytes_read >= v.stats.bytes_read
            &&& w.stats.bytes_written >= v.stats.bytes_written
            &&& w.stats.bytes_read < u64::MAX && w.stats.bytes_written < u64::MAX
                ==> w.stats.bytes_read + w.stats.bytes_written == v.stats.bytes_read
                + v.stats.bytes_written + success_bytes(results)
            &&& w.stats.ops_completed < u64::MAX ==> w.stats.ops_completed
                == v.stats.ops_completed + success_count(results)
            &&& w.stats.ops_failed < u64::MAX ==> w.stats.ops_failed == v.stats.ops_failed
                + results.len() - success_count(results)
        }),
    decreases results.len(),
{
    if results.len() > 0 {
        lemma_reap_conserves_bytes(v, results.drop_last(), now_ns);
    }
}

/// The read-percent law: a worker that only reads counts no byte as
/// written, and one that only writes counts no byte as read.
pub proof fn lemma_reap_one_sided(v: WorkerView, results: Seq<i32>, now_ns: u64)
    requires
        v.wf_core(),
        results.len() <= v.in_flight(),
    ensures
        v.read_percent >= 100 ==> v.reap(results, now_ns).stats.bytes_written
            == v.stats.bytes_written,
        v.read_percent == 0 ==> v.reap(results, now_ns).stats.bytes_read == v.stats.bytes_read,
    decreases results.len(),
{
    if results.len() > 0 {
        lemma_reap_one_sided(v, results.drop_last(), now_ns);
        lemma_reap_keeps_wf(v, results.drop_last(), now_ns);
        let before = v.reap(results.drop_last(), now_ns);
        assert(before.outstanding.len() > 0);
        let record = before.outstanding[0];
        assert(v.read_percent >= 100 ==> record.is_read);
        assert(v.read_percent == 0 ==> !record.is_read);
    }
}

/// Latency bookkeeping stays consistent through completions, and a sample
/// exists as soon as an operation has completed.
pub proof fn lemma_reap_keeps_latency_consistent(v: WorkerView, results: Seq<i32>, now_ns: u64)
    requires
        v.stats.latency_consistent(),
        v.stats.sampled_if_any(),
    ensures
        v.reap(results, now_ns).stats.latency_consistent(),
        v.reap(results, now_ns).stats.sampled_if_any(),
    decreases results.len(),
{
    if results.len() > 0 {
        lemma_reap_keeps_latency_consistent(v, results.drop_last(), now_ns);
        let before = v.reap(results.drop_last(), now_ns);
        let record = before.outstanding[0];
        if results.last() >= 0 && before.samples_next() {
            lemma_record_keeps_latency_consistent(
                before.stats,
                results.last() as usize,
                sat_sub(now_ns, record.submit_ns),
                record.is_read,
            );
        }
    }
}

/// No two operations that are queued or in flight use the same buffer.
pub proof fn lemma_buffers_distinct(v: WorkerView, i: int, j: int)
    requires
        v.wf_core(),
        0 <= i < j < v.outstanding.len(),
    ensures
        v.outstanding[i].buf_index != v.outstanding[j].buf_index,
{
}

/// Once the clock is polled, a stop that was asked for, a raised stop flag
/// or a passed deadline ends the run: the worker goes over to draining, and
/// either finishes at once or waits for what is in flight.
pub proof fn lemma_stop_ends_run(v: WorkerView, now_ns: u64, stop_requested: bool)
    requires
        v.wf(),
        v.expect is Clock,
        stop_requested || v.stop_flag || now_ns >= v.deadline_ns,
    ensures
        v.on_clock(now_ns, stop_requested).0.draining,
        v.on_clock(now_ns, stop_requested).1 is Finished || v.on_clock(now_ns, stop_requested).1
            is SubmitAndWait,
        v.on_clock(now_ns, stop_requested).1 is Finished <==> v.in_flight() == 0,
{
}

/// A draining worker stays draining, queues nothing more and never asks for
/// the clock again; what it has outstanding can only shrink.
pub proof fn lemma_draining_queues_nothing(
    v: WorkerView,
    event: WorkerEvent,
    requests: Seq<IoRequest>,
    next: u64,
)
    requires
        v.wf(),
        v.draining,
    ensures
        v.step(event, requests, next).0.draining,
        !(v.step(event, requests, next).1 is Push),
        !(v.step(event, requests, next).1 is Submit),
        !(v.step(event, requests, next).1 is PollClock),
        v.step(event, requests, next).0.outstanding.len() <= v.outstanding.len(),
        v.step(event, requests, next).1 is Finished ==> v.step(event, requests, next).0.in_flight() == 0,
{
    if event is Completions && v.expect is Completions && event->results.len() <= v.in_flight() {
        let t = v.reap_time(event->results.len(), event->Completions_now_ns);
        lemma_reap_keeps_wf(v, event->results@, t);
    }
}

proof fn lemma_tick_stage_wf(v: WorkerView)
    requires
        v.wf_core(),
        v.queued == 0,
    ensures
        v.tick_stage().0.wf(),
        v.tick_stage().0.queue_depth == v.queue_depth,
{
}

proof fn lemma_wait_stage_wf(v: WorkerView)
    requires
        v.wf_core(),
        v.queued == 0,
    ensures
        v.wait_stage().0.wf(),
        v.wait_stage().0.queue_depth == v.queue_depth,
{
    lemma_tick_stage_wf(v);
}

proof fn lemma_submit_stage_wf(v: WorkerView)
    requires
        v.wf_core(),
        !v.draining,
        v.queued > 0 ==> v.outstanding.len() == v.queue_depth,
    ensures
        v.submit_stage().0.wf(),
        v.submit_stage().0.queue_depth == v.queue_depth,
{
    if !(v.queued > 0 && (v.queued >= SUBMIT_BATCH || v.outstanding.len() >= v.queue_depth)) {
        lemma_wait_stage_wf(v);
    }
}

proof fn lemma_refill_stage_wf(v: WorkerView, requests: Seq<IoRequest>, next: u64)
    requires
        v.wf_core(),
        !v.draining,
        v.queued == 0,
        v.outstanding.len() < v.queue_depth ==> v.refills(requests, next),
    ensures
        v.refill_stage(requests, next).0.wf(),
        v.refill_stage(requests, next).0.queue_depth == v.queue_depth,
{
    if v.outstanding.len() < v.queue_depth {
        lemma_pushed_keeps_wf(v, requests, next);
    } else {
        lemma_submit_stage_wf(v);
    }
}

proof fn lemma_drain_stage_wf(v: WorkerView)
    requires
        v.wf_core(),
        v.draining,
        v.queued == 0,
    ensures
        v.drain_stage().0.wf(),
        v.drain_stage().0.queue_depth == v.queue_depth,
{
}

proof fn lemma_on_completions_wf(
    v: WorkerView,
    event: WorkerEvent,
    requests: Seq<IoRequest>,
    next: u64,
)
    requires
        v.wf(),
        event is Completions,
        v.on_completions(event, requests, next).1 is Push ==> v.refill_base(event).refills(
            requests,
            next,
        ),
    ensures
        v.on_completions(event, requests, next).0.wf(),
        v.on_completions(event, requests, next).0.queue_depth == v.queue_depth,
{
    if v.expect is Completions && event->results.len() <= v.in_flight() {
        let t = v.reap_time(event->results.len(), event->Completions_now_ns);
        lemma_reap_keeps_wf(v, event->results@, t);
        lemma_reap_setup(v, event->results@, t);
        let base = v.refill_base(event);
        assert(base.wf_core());
        if v.draining {
            lemma_drain_stage_wf(base);
        } else {
            lemma_refill_stage_wf(base, requests, next);
        }
    }
}

proof fn lemma_on_started_wf(
    v: WorkerView,
    event: WorkerEvent,
    requests: Seq<IoRequest>,
    next: u64,
)
    requires
        v.wf(),
        event is Started,
        v.on_started(event, requests, next).1 is Push ==> v.refill_base(event).refills(
            requests,
            next,
        ),
    ensures
        v.on_started(event, requests, next).0.wf(),
        v.on_started(event, requests, next).0.queue_depth == v.queue_depth,
{
    if v.expect is Start {
        lemma_refill_stage_wf(v.refill_base(event), requests, next);
    }
}

proof fn lemma_on_clock_wf(v: WorkerView, now_ns: u64, stop_requested: bool)
    requires
        v.wf(),
    ensures
        v.on_clock(now_ns, stop_requested).0.wf(),
        v.on_clock(now_ns, stop_requested).0.queue_depth == v.queue_depth,
{
    if v.expect is Clock {
        let w = WorkerView { clock_ns: now_ns, ..v };
        if v.draining || stop_requested || v.stop_flag || now_ns >= v.deadline_ns {
            lemma_drain_stage_wf(WorkerView { draining: true, ..w });
        }
    }
}

proof fn lemma_on_done_wf(v: WorkerView)
    requires
        v.wf(),
    ensures
        v.on_done().0.wf(),
        v.on_done().0.queue_depth == v.queue_depth,
{
    match v.expect {
        Expect::Pushed => lemma_submit_stage_wf(v),
        Expect::Submitted => lemma_wait_stage_wf(WorkerView { queued: 0, ..v }),
        Expect::Waited => if !v.draining {
            lemma_tick_stage_wf(v);
        },
        _ => {},
    }
}

/// Every step keeps the worker well formed, whatever the event, as long as
/// the requests handed out at a refill fill the queue as `refills` demands.
/// So the operations queued and in flight never exceed the queue depth.
pub proof fn lemma_step_keeps_wf(
    v: WorkerView,
    event: WorkerEvent,
    requests: Seq<IoRequest>,
    next: u64,
)
    requires
        v.wf(),
        v.step(event, requests, next).1 is Push ==> v.refill_base(event).refills(requests, next),
    ensures
        v.step(event, requests, next).0.wf(),
        v.step(event, requests, next).0.in_flight() + v.step(event, requests, next).0.queued
            <= v.queue_depth,
        v.step(event, requests, next).0.queue_depth == v.queue_depth,
{
    match event {
        WorkerEvent::Started { .. } => lemma_on_started_wf(v, event, requests, next),
        WorkerEvent::Clock { now_ns, stop_requested } => lemma_on_clock_wf(
            v,
            now_ns,
            stop_requested,
        ),
        WorkerEvent::Completions { .. } => lemma_on_completions_wf(v, event, requests, next),
        WorkerEvent::Done => lemma_on_done_wf(v),
        WorkerEvent::Failed => {},
    }
}

/// Taking completions in changes neither the worker's setup nor what it
/// waits for.
pub proof fn lemma_reap_setup(v: WorkerView, results: Seq<i32>, now_ns: u64)
    ensures
        ({
            let w = v.reap(results, now_ns);
            &&& w.expect == v.expect
            &&& w.stop_flag == v.stop_flag
            &&& w.queue_depth == v.queue_depth
            &&& w.block_size == v.block_size
            &&& w.device_size == v.device_size
            &&& w.mode == v.mode
            &&& w.fixed_buffers == v.fixed_buffers
            &&& w.fixed_files == v.fixed_files
            &&& w.offset == v.offset
            &&& w.next_buf == v.next_buf
            &&& w.ticks == v.ticks
            &&& w.deadline_ns == v.deadline_ns
            &&& w.clock_ns == v.clock_ns
        }),
    decreases results.len(),
{
    if results.len() > 0 {
        lemma_reap_setup(v, results.drop_last(), now_ns);
    }
}

/// Draining makes progress: completions taken in while draining take as
/// many operations out of flight, and the worker finishes exactly when none
/// is left, else blocks for the next.
pub proof fn lemma_drain_progress(v: WorkerView, event: WorkerEvent, next: u64)
    requires
        v.wf(),
        v.draining,
        v.expect is Completions,
        event is Completions,
        event->results.len() <= v.in_flight(),
    ensures
        ({
            let (w, action) = v.step(event, Seq::empty(), next);
            &&& w.in_flight() == v.in_flight() - event->results.len()
            &&& w.in_flight() == 0 ==> action is Finished && w.expect is Finished
            &&& w.in_flight() > 0 ==> action is SubmitAndWait
        }),
{
    let t = v.reap_time(event->results.len(), event->Completions_now_ns);
    lemma_reap_keeps_wf(v, event->results@, t);
}

/// The cadence of the clock: a loop iteration of a running worker either
/// polls the clock and starts counting anew, or counts one iteration more
/// and stays below `ELAPSED_CHECK_INTERVAL`. So at most that many iterations
/// pass between two looks at the stop flag.
pub proof fn lemma_poll_cadence(v: WorkerView)
    requires
        v.wf_core(),
    ensures
        ({
            let (w, action) = v.tick_stage();
            if v.ticks + 1 >= ELAPSED_CHECK_INTERVAL {
                action is PollClock && w.expect is Clock && w.ticks == 0
            } else {
                action is Reap && w.ticks == v.ticks + 1 && w.ticks < ELAPSED_CHECK_INTERVAL
            }
        }),
{
}

} // verus!
