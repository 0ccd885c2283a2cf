use std::collections::VecDeque;
use storage_bench::config::{Config, IoMode, Workload};
use storage_bench::io::engine::IoEngine;
use storage_bench::io::worker::{
    aligned_buffer_len, Expect, IoRequest, IoWorker, WorkerAction, WorkerError, WorkerEvent,
    WorkerStats, ELAPSED_CHECK_INTERVAL, LATENCY_SAMPLE_RATE, MAX_QUEUE_DEPTH,
};

/// What a simulated run saw.
struct Trace {
    issued: Vec<IoRequest>,
    actions: Vec<WorkerAction>,
    max_in_flight: usize,
    max_outstanding: usize,
    polls: usize,
    reaps_between_polls: usize,
    overlapping_buffers: bool,
}

/// Drives a worker against a device that completes every operation in
/// order, `latency_ns` after the reap before. Every `fail_every`-th
/// operation fails. The stop is asked for once `stop_after` operations were
/// issued or the deadline has passed.
fn simulate(
    worker: &mut IoWorker,
    duration_ns: u64,
    stop_after: usize,
    fail_every: usize,
    latency_ns: u64,
) -> Trace {
    let mut trace = Trace {
        issued: Vec::new(),
        actions: Vec::new(),
        max_in_flight: 0,
        max_outstanding: 0,
        polls: 0,
        reaps_between_polls: 0,
        overlapping_buffers: false,
    };
    let mut ring: VecDeque<IoRequest> = VecDeque::new();
    let mut kernel: VecDeque<IoRequest> = VecDeque::new();
    let mut requests: Vec<IoRequest> = Vec::new();
    let mut now: u64 = 1_000;
    let mut completed: usize = 0;
    let mut reaps_since_poll: usize = 0;
    let mut event = WorkerEvent::Started {
        duration_ns,
        fixed_buffers: true,
        fixed_files: true,
        now_ns: now,
    };
    let mut steps: usize = 0;
    loop {
        steps += 1;
        assert!(steps < 10_000_000, "the worker does not finish");
        let action = worker.run(&event, &mut requests);
        if steps % 97 == 1 {
            assert!(worker.is_well_formed());
        }
        trace.actions.push(action);
        let outstanding = worker.in_flight() + worker.queued();
        assert!(outstanding <= worker.queue_depth());
        trace.max_in_flight = trace.max_in_flight.max(worker.in_flight());
        trace.max_outstanding = trace.max_outstanding.max(outstanding);
        if action != WorkerAction::Push {
            assert!(requests.is_empty());
        }
        match action {
            WorkerAction::Push => {
                assert!(!requests.is_empty());
                for request in requests.iter() {
                    for busy in ring.iter().chain(kernel.iter()) {
                        if busy.buf_index == request.buf_index {
                            trace.overlapping_buffers = true;
                        }
                    }
                    trace.issued.push(*request);
                    ring.push_back(*request);
                }
                event = WorkerEvent::Done;
            }
            WorkerAction::Submit | WorkerAction::SubmitAndWait => {
                while let Some(request) = ring.pop_front() {
                    kernel.push_back(request);
                }
                event = WorkerEvent::Done;
            }
            WorkerAction::Reap => {
                reaps_since_poll += 1;
                trace.reaps_between_polls = trace.reaps_between_polls.max(reaps_since_poll);
                let mut results: Vec<i32> = Vec::new();
                while let Some(request) = kernel.pop_front() {
                    completed += 1;
                    if fail_every > 0 && completed % fail_every == 0 {
                        results.push(-5);
                    } else {
                        results.push(request.len as i32);
                    }
                }
                now += latency_ns;
                let now_ns = if worker.needs_clock(results.len()) { now } else { 0 };
                event = WorkerEvent::Completions { results, now_ns };
            }
            WorkerAction::PollClock => {
                trace.polls += 1;
                reaps_since_poll = 0;
                now += 1;
                event = WorkerEvent::Clock {
                    now_ns: now,
                    stop_requested: trace.issued.len() >= stop_after,
                };
            }
            WorkerAction::Finished => {
                assert_eq!(worker.in_flight(), 0);
                assert_eq!(worker.queued(), 0);
                assert!(kernel.is_empty());
                assert!(ring.is_empty());
                return trace;
            }
            WorkerAction::Aborted(error) => {
                panic!("the worker gave up: {:?}", error);
            }
        }
    }
}

#[test]
fn sequential_reads_walk_the_device_and_wrap() {
    let mut worker = IoWorker::new(40960, IoMode::Sequential, 4096, 1).unwrap();
    let trace = simulate(&mut worker, u64::MAX, 11, 0, 500);
    let offsets: Vec<u64> = trace.issued.iter().take(11).map(|r| r.offset).collect();
    assert_eq!(
        offsets,
        vec![0, 4096, 8192, 12288, 16384, 20480, 24576, 28672, 32768, 36864, 0]
    );
    assert!(trace.issued.iter().all(|r| r.is_read));
    assert!(trace.issued.iter().all(|r| r.len == 4096));
    assert_eq!(trace.max_in_flight, 1);
}

#[test]
fn every_operation_issued_is_counted_once() {
    let mut worker = IoWorker::new(40960, IoMode::Sequential, 4096, 1).unwrap();
    let trace = simulate(&mut worker, u64::MAX, 11, 0, 500);
    let stats = worker.stats();
    assert_eq!(stats.ops_completed as usize, trace.issued.len());
    assert_eq!(stats.bytes_read as usize, 4096 * trace.issued.len());
    assert_eq!(stats.bytes_written, 0);
    assert_eq!(stats.ops_failed, 0);
}

#[test]
fn random_writes_stay_aligned_and_in_bounds() {
    let device_size: u64 = 1 << 30;
    let mut worker =
        IoWorker::new_with_read_percent(device_size, IoMode::Random, 4096, 8, 0).unwrap();
    let trace = simulate(&mut worker, u64::MAX, 5000, 0, 700);
    assert!(trace.issued.len() >= 5000);
    for request in trace.issued.iter() {
        assert!(!request.is_read);
        assert!(request.offset <= device_size - 4096);
        assert_eq!(request.offset % 4096, 0);
        assert_eq!(request.len, 4096);
    }
    let stats = worker.stats();
    assert_eq!(stats.bytes_read, 0);
    assert_eq!(stats.bytes_written as usize, 4096 * trace.issued.len());
    let distinct: std::collections::HashSet<u64> = trace.issued.iter().map(|r| r.offset).collect();
    assert!(distinct.len() > 100);
}

#[test]
fn mixed_workload_reads_about_half() {
    let mut read = 0u64;
    let mut written = 0u64;
    for _ in 0..2 {
        let mut worker =
            IoWorker::new_with_read_percent(10 << 30, IoMode::Sequential, 65536, 16, 50).unwrap();
        simulate(&mut worker, u64::MAX, 20000, 0, 900);
        let stats = worker.stats();
        assert!(stats.ops_completed >= 20000);
        read += stats.bytes_read;
        written += stats.bytes_written;
    }
    let share = read as f64 / (read + written) as f64;
    assert!(share >= 0.48 && share <= 0.52, "share of reads: {}", share);
}

#[test]
fn queue_is_kept_full_and_never_over_full() {
    let mut worker = IoWorker::new(1 << 30, IoMode::Sequential, 65536, 32).unwrap();
    let trace = simulate(&mut worker, u64::MAX, 3000, 0, 100);
    assert_eq!(trace.max_outstanding, 32);
    assert_eq!(trace.max_in_flight, 32);
    assert!(!trace.overlapping_buffers);
    for request in trace.issued.iter() {
        assert!((request.buf_index as usize) < 32);
        assert!(request.fixed_buffer);
        assert!(request.fixed_file);
    }
    let first: Vec<u16> = trace.issued.iter().take(34).map(|r| r.buf_index).collect();
    let mut expected: Vec<u16> = (0..32).collect();
    expected.push(0);
    expected.push(1);
    assert_eq!(first, expected);
}

#[test]
fn first_action_fills_the_queue_then_submits() {
    let mut worker = IoWorker::new(1 << 20, IoMode::Sequential, 4096, 4).unwrap();
    assert_eq!(worker.expect(), Expect::Start);
    let mut requests = Vec::new();
    let start = WorkerEvent::Started {
        duration_ns: 1_000_000,
        fixed_buffers: false,
        fixed_files: true,
        now_ns: 50,
    };
    assert_eq!(worker.run(&start, &mut requests), WorkerAction::Push);
    assert_eq!(requests.len(), 4);
    assert_eq!(worker.queued(), 4);
    assert_eq!(worker.in_flight(), 0);
    assert!(requests.iter().all(|r| !r.fixed_buffer && r.fixed_file));
    assert_eq!(worker.run(&WorkerEvent::Done, &mut requests), WorkerAction::Submit);
    assert!(requests.is_empty());
    // Four in flight is below the low-water mark: the worker blocks.
    assert_eq!(worker.run(&WorkerEvent::Done, &mut requests), WorkerAction::SubmitAndWait);
    assert_eq!(worker.queued(), 0);
    assert_eq!(worker.in_flight(), 4);
    assert_eq!(worker.run(&WorkerEvent::Done, &mut requests), WorkerAction::Reap);
    let done = WorkerEvent::Completions { results: vec![4096, 4096], now_ns: 150 };
    assert_eq!(worker.run(&done, &mut requests), WorkerAction::Push);
    assert_eq!(requests.len(), 2);
    assert_eq!(requests[0].offset, 4 * 4096);
    assert_eq!(requests[0].buf_index, 0);
    assert_eq!(requests[1].buf_index, 1);
    let stats = worker.stats();
    assert_eq!(stats.ops_completed, 2);
    assert_eq!(stats.bytes_read, 8192);
    // The first completion is sampled against the time of its submission.
    assert_eq!(stats.latency_samples, 1);
    assert_eq!(stats.total_latency_ns, 100);
    assert_eq!(stats.min_latency_ns, 100);
    assert_eq!(stats.max_latency_ns, 100);
}

#[test]
fn a_full_deep_queue_does_not_block() {
    let mut worker = IoWorker::new(1 << 30, IoMode::Sequential, 4096, 16).unwrap();
    let mut requests = Vec::new();
    let start = WorkerEvent::Started {
        duration_ns: 1_000_000,
        fixed_buffers: true,
        fixed_files: true,
        now_ns: 0,
    };
    assert_eq!(worker.run(&start, &mut requests), WorkerAction::Push);
    assert_eq!(worker.run(&WorkerEvent::Done, &mut requests), WorkerAction::Submit);
    assert_eq!(worker.run(&WorkerEvent::Done, &mut requests), WorkerAction::Reap);
    let nothing = WorkerEvent::Completions { results: vec![], now_ns: 0 };
    assert_eq!(worker.run(&nothing, &mut requests), WorkerAction::Reap);
    assert_eq!(worker.in_flight(), 16);
}

#[test]
fn clock_is_polled_once_in_the_check_interval() {
    let mut worker = IoWorker::new(1 << 30, IoMode::Sequential, 4096, 16).unwrap();
    let trace = simulate(&mut worker, u64::MAX, 40000, 0, 10);
    assert!(trace.polls >= 2);
    assert!(trace.reaps_between_polls as u64 <= ELAPSED_CHECK_INTERVAL);
    let reaps = trace.actions.iter().filter(|a| **a == WorkerAction::Reap).count();
    assert!(reaps as u64 >= (trace.polls as u64 - 1) * (ELAPSED_CHECK_INTERVAL - 1));
}

#[test]
fn stop_flag_ends_the_run_at_the_next_poll() {
    let mut worker = IoWorker::new(1 << 30, IoMode::Sequential, 4096, 16).unwrap();
    assert!(!worker.stop_flag());
    worker.stop();
    assert!(worker.stop_flag());
    let trace = simulate(&mut worker, u64::MAX, usize::MAX, 0, 10);
    assert_eq!(trace.polls, 1);
    assert_eq!(*trace.actions.last().unwrap(), WorkerAction::Finished);
    let pushes_after_poll = trace
        .actions
        .iter()
        .skip_while(|a| **a != WorkerAction::PollClock)
        .filter(|a| **a == WorkerAction::Push)
        .count();
    assert_eq!(pushes_after_poll, 0);
    assert_eq!(worker.stats().ops_completed as usize, trace.issued.len());
}

#[test]
fn deadline_ends_the_run() {
    let mut worker = IoWorker::new(1 << 30, IoMode::Sequential, 4096, 8).unwrap();
    let trace = simulate(&mut worker, 5_000_000, usize::MAX, 0, 1000);
    assert_eq!(*trace.actions.last().unwrap(), WorkerAction::Finished);
    assert_eq!(worker.expect(), Expect::Finished);
    assert!(trace.polls >= 1);
    assert_eq!(worker.in_flight(), 0);
}

#[test]
fn failed_completions_free_their_slot_and_are_counted() {
    let mut worker = IoWorker::new(1 << 30, IoMode::Sequential, 4096, 8).unwrap();
    let trace = simulate(&mut worker, u64::MAX, 4000, 4, 300);
    let stats = worker.stats();
    let issued = trace.issued.len() as u64;
    assert_eq!(stats.ops_completed + stats.ops_failed, issued);
    assert_eq!(stats.ops_failed, issued / 4);
    assert_eq!(stats.bytes_read, stats.ops_completed * 4096);
    assert!(stats.latency_samples > 0);
    assert!(stats.min_latency_ns <= stats.max_latency_ns);
}

#[test]
fn one_completion_in_a_hundred_is_sampled_while_running() {
    let mut worker = IoWorker::new(1 << 30, IoMode::Sequential, 4096, 16).unwrap();
    let mut requests = Vec::new();
    let start = WorkerEvent::Started {
        duration_ns: u64::MAX,
        fixed_buffers: true,
        fixed_files: true,
        now_ns: 0,
    };
    assert_eq!(worker.run(&start, &mut requests), WorkerAction::Push);
    assert_eq!(worker.run(&WorkerEvent::Done, &mut requests), WorkerAction::Submit);
    let mut action = worker.run(&WorkerEvent::Done, &mut requests);
    let mut completed = 0u64;
    let mut now = 0u64;
    while completed < 450 {
        match action {
            WorkerAction::Reap => {
                now += 10;
                completed += 10;
                let results = vec![4096; 10];
                action = worker.run(&WorkerEvent::Completions { results, now_ns: now }, &mut requests);
            }
            WorkerAction::Push | WorkerAction::Submit | WorkerAction::SubmitAndWait => {
                action = worker.run(&WorkerEvent::Done, &mut requests);
            }
            other => panic!("unexpected action {:?}", other),
        }
    }
    let stats = worker.stats();
    assert_eq!(stats.ops_completed, 450);
    // Completions 0, 100, 200, 300 and 400 were sampled.
    assert_eq!(stats.latency_samples, 450 / LATENCY_SAMPLE_RATE + 1);
}

#[test]
fn setup_is_checked() {
    assert_eq!(
        IoWorker::new(1 << 20, IoMode::Sequential, 4096, 0).err(),
        Some(WorkerError::InvalidQueueDepth)
    );
    assert_eq!(
        IoWorker::new(1 << 20, IoMode::Sequential, 4096, MAX_QUEUE_DEPTH + 1).err(),
        Some(WorkerError::InvalidQueueDepth)
    );
    assert_eq!(
        IoWorker::new(1 << 20, IoMode::Sequential, 0, 1).err(),
        Some(WorkerError::InvalidBlockSize)
    );
    assert_eq!(
        IoWorker::new(1 << 20, IoMode::Sequential, 1000, 1).err(),
        Some(WorkerError::InvalidBlockSize)
    );
    assert_eq!(
        IoWorker::new(1024, IoMode::Sequential, 4096, 1).err(),
        Some(WorkerError::DeviceTooSmall)
    );
    assert!(IoWorker::new(4096, IoMode::Random, 4096, MAX_QUEUE_DEPTH).is_ok());
}

#[test]
fn events_out_of_turn_abort_the_worker() {
    let mut worker = IoWorker::new(1 << 20, IoMode::Sequential, 4096, 2).unwrap();
    let mut requests = Vec::new();
    assert_eq!(
        worker.run(&WorkerEvent::Done, &mut requests),
        WorkerAction::Aborted(WorkerError::UnexpectedEvent)
    );
    assert_eq!(worker.expect(), Expect::Failed);
    let start = WorkerEvent::Started {
        duration_ns: 1,
        fixed_buffers: true,
        fixed_files: true,
        now_ns: 0,
    };
    assert_eq!(
        worker.run(&start, &mut requests),
        WorkerAction::Aborted(WorkerError::UnexpectedEvent)
    );
}

#[test]
fn push_and_submit_failures_abort_the_worker() {
    let start = WorkerEvent::Started {
        duration_ns: 1000,
        fixed_buffers: true,
        fixed_files: true,
        now_ns: 0,
    };
    let mut requests = Vec::new();
    let mut worker = IoWorker::new(1 << 20, IoMode::Sequential, 4096, 2).unwrap();
    assert_eq!(worker.run(&start, &mut requests), WorkerAction::Push);
    assert_eq!(
        worker.run(&WorkerEvent::Failed, &mut requests),
        WorkerAction::Aborted(WorkerError::SubmissionPush)
    );
    let mut worker = IoWorker::new(1 << 20, IoMode::Sequential, 4096, 2).unwrap();
    assert_eq!(worker.run(&start, &mut requests), WorkerAction::Push);
    assert_eq!(worker.run(&WorkerEvent::Done, &mut requests), WorkerAction::Submit);
    assert_eq!(
        worker.run(&WorkerEvent::Failed, &mut requests),
        WorkerAction::Aborted(WorkerError::Submit)
    );
}

#[test]
fn more_completions_than_in_flight_abort_the_worker() {
    let start = WorkerEvent::Started {
        duration_ns: 1000,
        fixed_buffers: true,
        fixed_files: true,
        now_ns: 0,
    };
    let mut requests = Vec::new();
    let mut worker = IoWorker::new(1 << 20, IoMode::Sequential, 4096, 2).unwrap();
    assert_eq!(worker.run(&start, &mut requests), WorkerAction::Push);
    assert_eq!(worker.run(&WorkerEvent::Done, &mut requests), WorkerAction::Submit);
    assert_eq!(worker.run(&WorkerEvent::Done, &mut requests), WorkerAction::SubmitAndWait);
    assert_eq!(worker.run(&WorkerEvent::Done, &mut requests), WorkerAction::Reap);
    let too_many = WorkerEvent::Completions { results: vec![1, 2, 3], now_ns: 0 };
    assert_eq!(
        worker.run(&too_many, &mut requests),
        WorkerAction::Aborted(WorkerError::UnexpectedCompletion)
    );
}

#[test]
fn set_stats_replaces_the_counters() {
    let mut worker = IoWorker::new(1 << 20, IoMode::Sequential, 4096, 2).unwrap();
    assert_eq!(worker.stats(), WorkerStats::new());
    let mut other = WorkerStats::new();
    other.record_op(512, 7, true);
    worker.set_stats(other);
    assert_eq!(worker.stats(), other);
    assert_eq!(worker.block_size(), 4096);
}

#[test]
fn buffer_length_is_rounded_up_to_sectors() {
    assert_eq!(aligned_buffer_len(0), Some(0));
    assert_eq!(aligned_buffer_len(1), Some(512));
    assert_eq!(aligned_buffer_len(512), Some(512));
    assert_eq!(aligned_buffer_len(513), Some(1024));
    assert_eq!(aligned_buffer_len(4096), Some(4096));
    assert_eq!(aligned_buffer_len(usize::MAX), None);
}

#[test]
fn record_op_counts_bytes_latency_and_extremes() {
    let mut stats = WorkerStats::new();
    assert_eq!(stats.min_latency_ns, u64::MAX);
    assert_eq!(stats.max_latency_ns, 0);
    stats.record_op(4096, 300, true);
    stats.record_op(8192, 100, false);
    stats.record_op(4096, 200, true);
    assert_eq!(stats.bytes_read, 8192);
    assert_eq!(stats.bytes_written, 8192);
    assert_eq!(stats.ops_completed, 3);
    assert_eq!(stats.ops_failed, 0);
    assert_eq!(stats.total_latency_ns, 600);
    assert_eq!(stats.latency_samples, 3);
    assert_eq!(stats.min_latency_ns, 100);
    assert_eq!(stats.max_latency_ns, 300);
    stats.record_unsampled(1000, false);
    stats.record_failure();
    assert_eq!(stats.bytes_written, 9192);
    assert_eq!(stats.ops_completed, 4);
    assert_eq!(stats.ops_failed, 1);
    assert_eq!(stats.latency_samples, 3);
}

#[test]
fn counters_stay_at_their_largest_value() {
    let mut stats = WorkerStats::new();
    stats.record_op(10, u64::MAX - 5, true);
    stats.record_op(10, 100, true);
    assert_eq!(stats.total_latency_ns, u64::MAX);
    assert_eq!(stats.latency_samples, 2);
    stats.bytes_read = u64::MAX - 1;
    stats.record_unsampled(10, true);
    assert_eq!(stats.bytes_read, u64::MAX);
}

#[test]
fn a_worker_is_well_formed_from_its_making() {
    let mut worker = IoWorker::new_with_read_percent(1 << 20, IoMode::Mixed, 512, 3, 30).unwrap();
    assert!(worker.is_well_formed());
    assert_eq!(worker.in_flight(), 0);
    let mut requests = Vec::new();
    let start = WorkerEvent::Started {
        duration_ns: 10,
        fixed_buffers: true,
        fixed_files: true,
        now_ns: 0,
    };
    assert_eq!(worker.run(&start, &mut requests), WorkerAction::Push);
    assert!(worker.is_well_formed());
    assert_eq!(worker.run(&WorkerEvent::Failed, &mut requests), WorkerAction::Aborted(WorkerError::SubmissionPush));
    assert!(worker.is_well_formed());
}

#[test]
fn four_sequential_readers_on_a_simulated_device() {
    let config = Config {
        device: String::from("/dev/simulated"),
        workload: Workload::SeqRead,
        block_size: 65536,
        queue_depth: 32,
        threads: 4,
        duration_ns: 1_000_000_000,
        optimize: false,
        monitor: false,
    };
    let engine = IoEngine::new(config, 10 << 30);
    let mut snapshots = Vec::new();
    let mut issued = 0u64;
    for _ in 0..engine.threads() {
        let mut worker = engine.worker(Workload::SeqRead).unwrap();
        let trace = simulate(&mut worker, 1_000_000_000, usize::MAX, 0, 25_000);
        assert!(trace.issued.iter().all(|r| r.is_read && r.len == 65536));
        issued += trace.issued.len() as u64;
        snapshots.push(worker.stats());
    }
    let results = engine.results(&snapshots);
    assert_eq!(results.failed_ops, 0);
    assert_eq!(results.total_ops, issued);
    assert_eq!(results.total_bytes_read, issued * 65536);
    assert_eq!(results.total_bytes_written, 0);
    assert!(results.min_latency_ns > 0);
    assert!(results.min_latency_us() > 0);
    assert!(results.min_latency_ns <= results.avg_latency_ns());
    assert!(results.avg_latency_ns() <= results.max_latency_ns);
    assert_eq!(results.duration_ns, 1_000_000_000);
    assert_eq!(results.iops(), issued as u128);
}
