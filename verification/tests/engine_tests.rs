use storage_bench::config::{Config, IoMode, Workload};
use storage_bench::io::engine::{
    aggregate, combine_all, per_second, BenchmarkResults, IoEngine, Monitor, MonitorLine,
    Progress,
};
use storage_bench::io::worker::{WorkerError, WorkerStats};

fn stats(read: u64, written: u64, ops: u64, failed: u64, latencies: &[u64]) -> WorkerStats {
    let mut s = WorkerStats::new();
    s.bytes_read = read;
    s.bytes_written = written;
    s.ops_completed = ops;
    s.ops_failed = failed;
    for latency in latencies {
        s.total_latency_ns += latency;
        s.latency_samples += 1;
        s.min_latency_ns = s.min_latency_ns.min(*latency);
        s.max_latency_ns = s.max_latency_ns.max(*latency);
    }
    s
}

fn config(workload: Workload, threads: usize, duration_ns: u64) -> Config {
    Config {
        device: String::from("/dev/nvme0n1"),
        workload,
        block_size: 65536,
        queue_depth: 32,
        threads,
        duration_ns,
        optimize: false,
        monitor: false,
    }
}

#[test]
fn aggregation_sums_counters_and_keeps_extremes() {
    let workers = vec![
        stats(1000, 0, 10, 1, &[3000, 5000]),
        stats(2000, 500, 20, 0, &[1000]),
        stats(0, 0, 0, 2, &[]),
    ];
    let results = aggregate(&workers, 2_000_000_000);
    assert_eq!(results.total_bytes_read, 3000);
    assert_eq!(results.total_bytes_written, 500);
    assert_eq!(results.total_ops, 30);
    assert_eq!(results.failed_ops, 3);
    assert_eq!(results.duration_ns, 2_000_000_000);
    assert_eq!(results.total_latency_ns, 9000);
    assert_eq!(results.latency_samples, 3);
    assert_eq!(results.min_latency_ns, 1000);
    assert_eq!(results.max_latency_ns, 5000);
    assert_eq!(results.avg_latency_ns(), 3000);
    assert_eq!(results.min_latency_us(), 1);
    assert_eq!(results.avg_latency_us(), 3);
    assert_eq!(results.max_latency_us(), 5);
    assert_eq!(results.iops(), 15);
    assert_eq!(results.read_bytes_per_second(), 1500);
    assert_eq!(results.write_bytes_per_second(), 250);
}

#[test]
fn aggregation_of_nothing() {
    let results = aggregate(&Vec::new(), 1_000_000_000);
    assert_eq!(results, BenchmarkResults::empty(1_000_000_000));
    assert_eq!(results.total_ops, 0);
    assert_eq!(results.min_latency_ns, u64::MAX);
    assert_eq!(results.max_latency_ns, 0);
    assert_eq!(results.avg_latency_ns(), 0);
    assert_eq!(results.iops(), 0);
}

#[test]
fn latency_is_ordered_at_aggregation() {
    let workers = vec![
        stats(4096, 0, 100, 0, &[250, 900, 400]),
        stats(4096, 0, 300, 0, &[100, 120]),
        stats(4096, 0, 50, 0, &[5000]),
    ];
    let results = aggregate(&workers, 1_000_000_000);
    assert!(results.total_ops > 0);
    assert!(results.min_latency_ns <= results.avg_latency_ns());
    assert!(results.avg_latency_ns() <= results.max_latency_ns);
    assert!(results.min_latency_us() <= results.avg_latency_us());
    assert!(results.avg_latency_us() <= results.max_latency_us());
    assert_eq!(results.avg_latency_ns(), 6770 / 6);
}

#[test]
fn rates_are_taken_per_second() {
    assert_eq!(per_second(0, 1_000_000_000), 0);
    assert_eq!(per_second(100, 1_000_000_000), 100);
    assert_eq!(per_second(100, 500_000_000), 200);
    assert_eq!(per_second(100, 3_000_000_000), 33);
    assert_eq!(per_second(7, 0), 0);
    assert_eq!(per_second(u64::MAX, 1), u64::MAX as u128 * 1_000_000_000);
    assert_eq!(per_second(1, u64::MAX), 0);
}

#[test]
fn iops_is_the_sum_of_the_workers_operations_over_the_duration() {
    let workers = vec![stats(0, 0, 1000, 0, &[10]), stats(0, 0, 2000, 0, &[10]), stats(0, 0, 3001, 0, &[10])];
    let engine = IoEngine::new(config(Workload::SeqRead, 3, 3_000_000_000), 10 << 30);
    let results = engine.results(&workers);
    assert_eq!(results.total_ops, 6001);
    assert_eq!(results.duration_ns, 3_000_000_000);
    assert_eq!(results.iops(), 6001 / 3);
}

#[test]
fn totals_stay_at_their_largest_value() {
    let workers = vec![stats(u64::MAX - 10, 5, 1, 0, &[1]), stats(100, 5, 1, 0, &[1])];
    let results = aggregate(&workers, 1);
    assert_eq!(results.total_bytes_read, u64::MAX);
    assert_eq!(results.total_bytes_written, 10);
}

#[test]
fn combined_runs_add_up_element_by_element() {
    let mut runs = Vec::new();
    for k in 1..=6u64 {
        runs.push(aggregate(
            &vec![stats(1000 * k, 10 * k, 100 * k, k, &[100 * k, 200 * k])],
            1_000_000_000,
        ));
    }
    let combined = combine_all(&runs);
    assert_eq!(combined.total_bytes_read, 21000);
    assert_eq!(combined.total_bytes_written, 210);
    assert_eq!(combined.total_ops, 2100);
    assert_eq!(combined.failed_ops, 21);
    assert_eq!(combined.duration_ns, 6_000_000_000);
    assert_eq!(combined.latency_samples, 12);
    assert_eq!(combined.total_latency_ns, 300 * 21);
    assert_eq!(combined.min_latency_ns, 100);
    assert_eq!(combined.max_latency_ns, 1200);
    assert_eq!(combined.avg_latency_ns(), 6300 / 12);
    assert_eq!(combined.iops(), 350);
    assert_eq!(combined.read_bytes_per_second(), 3500);
    assert_eq!(combine_all(&Vec::new()), BenchmarkResults::empty(0));
}

#[test]
fn combine_and_absorb_step_by_step() {
    let mut total = BenchmarkResults::empty(500);
    total.absorb(&stats(10, 20, 3, 1, &[40]));
    assert_eq!(total.duration_ns, 500);
    assert_eq!(total.total_bytes_read, 10);
    assert_eq!(total.total_bytes_written, 20);
    let other = aggregate(&vec![stats(1, 2, 3, 4, &[5])], 700);
    total.combine(&other);
    assert_eq!(total.duration_ns, 1200);
    assert_eq!(total.total_bytes_read, 11);
    assert_eq!(total.total_ops, 6);
    assert_eq!(total.failed_ops, 5);
    assert_eq!(total.min_latency_ns, 5);
    assert_eq!(total.max_latency_ns, 40);
}

#[test]
fn engine_plans_the_workloads_of_a_run() {
    let engine = IoEngine::new(config(Workload::All, 2, 1_000_000_000), 1 << 30);
    assert_eq!(
        engine.workloads(),
        vec![
            Workload::SeqRead,
            Workload::SeqWrite,
            Workload::RandRead,
            Workload::RandWrite,
            Workload::SeqMixed,
            Workload::RandMixed,
        ]
    );
    assert_eq!(engine.threads(), 2);
    assert_eq!(engine.device_size(), 1 << 30);
    assert_eq!(engine.config().queue_depth, 32);
    let engine = IoEngine::new(config(Workload::RandWrite, 1, 1), 1 << 30);
    assert_eq!(engine.workloads(), vec![Workload::RandWrite]);
}

#[test]
fn engine_makes_workers_for_a_workload() {
    let engine = IoEngine::new(config(Workload::All, 1, 1_000_000_000), 1 << 30);
    let worker = engine.worker(Workload::RandWrite).unwrap();
    assert_eq!(worker.block_size(), 65536);
    assert_eq!(worker.queue_depth(), 32);
    assert_eq!(worker.stats(), WorkerStats::new());
    let _ = IoMode::from(Workload::RandWrite);
    let small = IoEngine::new(config(Workload::SeqRead, 1, 1), 1024);
    assert_eq!(small.worker(Workload::SeqRead).err(), Some(WorkerError::DeviceTooSmall));
    let mut bad = config(Workload::SeqRead, 1, 1);
    bad.queue_depth = 0;
    let engine = IoEngine::new(bad, 1 << 30);
    assert_eq!(engine.worker(Workload::SeqRead).err(), Some(WorkerError::InvalidQueueDepth));
    let mut bad = config(Workload::SeqRead, 1, 1);
    bad.block_size = 100;
    let engine = IoEngine::new(bad, 1 << 30);
    assert_eq!(engine.worker(Workload::SeqRead).err(), Some(WorkerError::InvalidBlockSize));
}

#[test]
fn progress_of_workers_and_deltas() {
    let workers = vec![stats(100, 10, 5, 9, &[]), stats(200, 20, 6, 9, &[])];
    let now = Progress::of_workers(&workers);
    assert_eq!(now, Progress { bytes_read: 300, bytes_written: 30, ops: 11 });
    let earlier = Progress { bytes_read: 100, bytes_written: 40, ops: 1 };
    assert_eq!(now.since(&earlier), Progress { bytes_read: 200, bytes_written: 0, ops: 10 });
}

#[test]
fn monitor_makes_one_line_per_interval() {
    let mut monitor = Monitor::new(1_000);
    assert!(monitor.keeps_running(false, 1_000, 3_000_000_000));
    assert!(!monitor.keeps_running(true, 1_000, 3_000_000_000));
    assert!(!monitor.keeps_running(false, 3_000_001_000, 3_000_000_000));
    assert!(monitor.keeps_running(false, 3_000_000_999, 3_000_000_000));
    let first = Progress { bytes_read: 2_000_000, bytes_written: 500, ops: 1000 };
    // No time has passed: no line, nothing remembered.
    assert_eq!(monitor.sample(first, 1_000), None);
    assert_eq!(monitor.last_ns, 1_000);
    let line = monitor.sample(first, 1_000_001_000).unwrap();
    assert_eq!(
        line,
        MonitorLine {
            elapsed_secs: 1,
            read_rate: 2_000_000,
            avg_read_rate: 2_000_000,
            write_rate: 500,
            iops: 1000,
            avg_iops: 1000,
        }
    );
    let second = Progress { bytes_read: 3_000_000, bytes_written: 500, ops: 4000 };
    let line = monitor.sample(second, 3_000_001_000).unwrap();
    assert_eq!(
        line,
        MonitorLine {
            elapsed_secs: 3,
            read_rate: 500_000,
            avg_read_rate: 1_000_000,
            write_rate: 0,
            iops: 1500,
            avg_iops: 1333,
        }
    );
    assert_eq!(monitor.last, second);
    assert_eq!(monitor.last_ns, 3_000_001_000);
}

#[test]
fn three_lines_in_three_seconds() {
    let mut monitor = Monitor::new(0);
    let duration = 3_000_000_000u64;
    let mut now = 0u64;
    let mut lines = 0;
    while monitor.keeps_running(false, now, duration) {
        now += 1_000_000_000;
        let progress = Progress { bytes_read: now, bytes_written: 0, ops: now / 1000 };
        if monitor.sample(progress, now).is_some() {
            lines += 1;
        }
    }
    assert_eq!(lines, 3);
}

#[test]
fn throughput_in_mebibytes() {
    let workers = vec![stats(3 * 1048576 + 5, 1048575, 1, 0, &[1])];
    let results = aggregate(&workers, 1_000_000_000);
    assert_eq!(results.read_mib_per_second(), 3);
    assert_eq!(results.write_mib_per_second(), 0);
    let results = aggregate(&workers, 500_000_000);
    assert_eq!(results.read_mib_per_second(), 6);
    assert_eq!(results.write_mib_per_second(), 1);
    let results = aggregate(&workers, 0);
    assert_eq!(results.read_mib_per_second(), 0);
}
