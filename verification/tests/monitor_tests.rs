use storage_bench::monitor::collector::{
    append_list, detect_bottleneck, generate_recommendations, Bottleneck, BottleneckKind,
    MonitorCollector, DEEP_QUEUE, HOT_UTILIZATION,
};
use storage_bench::monitor::cpu::CpuMetrics;
use storage_bench::monitor::io_stats::{device_name, DiskEntry, IoStats, IoStatsMonitor};
use storage_bench::monitor::memory::MemoryMetrics;
use storage_bench::monitor::numa::{NumaMetrics, NumaNode};

fn entry(name: &str, base: u64) -> DiskEntry {
    DiskEntry {
        name: String::from(name),
        reads: base + 1,
        merged: base + 2,
        sectors_read: base + 3,
        time_reading: base + 4,
        writes: base + 5,
        writes_merged: base + 6,
        sectors_written: base + 7,
        time_writing: base + 8,
    }
}

fn numa(num_nodes: usize) -> NumaMetrics {
    NumaMetrics { num_nodes, node_cpus: Vec::new(), node_memory: Vec::new(), current_node: None }
}

fn io(in_flight: u64, time_in_queue: u64) -> IoStats {
    IoStats {
        read_ios: 0,
        read_merges: 0,
        read_sectors: 0,
        read_ticks: 0,
        write_ios: 0,
        write_merges: 0,
        write_sectors: 0,
        write_ticks: 0,
        in_flight,
        io_ticks: 0,
        time_in_queue,
    }
}

#[test]
fn cpu_average_is_the_mean_of_the_cores() {
    let metrics = CpuMetrics::from_cores(vec![1000, 2000, 9500, 9100], vec![2400, 2400, 3000, 3000]);
    assert_eq!(metrics.avg_utilization, 5400);
    assert_eq!(metrics.utilization_per_core, vec![1000, 2000, 9500, 9100]);
    assert_eq!(metrics.frequency_mhz, vec![2400, 2400, 3000, 3000]);
    assert_eq!(metrics.hot_cores(9000), vec![2, 3]);
    assert_eq!(metrics.hot_cores(9500), Vec::<usize>::new());
    assert!(metrics.is_cpu_bound(5399));
    assert!(!metrics.is_cpu_bound(5400));
    let rounded = CpuMetrics::from_cores(vec![1, 2], Vec::new());
    assert_eq!(rounded.avg_utilization, 1);
    let none = CpuMetrics::from_cores(Vec::new(), Vec::new());
    assert_eq!(none.avg_utilization, 0);
    let full = CpuMetrics::from_cores(vec![u32::MAX, u32::MAX, u32::MAX], Vec::new());
    assert_eq!(full.avg_utilization, u32::MAX);
}

#[test]
fn memory_is_counted_in_bytes_and_hundredths_of_a_percent() {
    let metrics = MemoryMetrics::from_kilobytes(16_000_000, 4_000_000, 1_000_000, 11_000_000);
    assert_eq!(metrics.total_bytes, 16_000_000 * 1024);
    assert_eq!(metrics.used_bytes, 4_000_000 * 1024);
    assert_eq!(metrics.free_bytes, 1_000_000 * 1024);
    assert_eq!(metrics.available_bytes, 11_000_000 * 1024);
    assert_eq!(metrics.utilization_percent, 2500);
    assert!(metrics.is_memory_bound(2499));
    assert!(!metrics.is_memory_bound(2500));
    assert_eq!(MemoryMetrics::from_kilobytes(3, 1, 0, 0).utilization_percent, 3333);
    assert_eq!(MemoryMetrics::from_kilobytes(0, 5, 0, 0).utilization_percent, 0);
    assert_eq!(MemoryMetrics::from_kilobytes(1, u64::MAX, 0, 0).utilization_percent, u32::MAX);
    assert_eq!(MemoryMetrics::from_kilobytes(u64::MAX, 0, 0, 0).total_bytes, u64::MAX);
}

#[test]
fn device_name_is_the_last_component_of_the_path() {
    assert_eq!(device_name("/dev/nvme0n1"), "nvme0n1");
    assert_eq!(device_name("/dev/sda/"), "sda");
    assert_eq!(device_name("sdb"), "sdb");
    assert_eq!(device_name("/"), "");
    assert_eq!(device_name(""), "");
    assert_eq!(device_name("/dev/.."), "");
}

#[test]
fn disk_counters_are_picked_by_device_name() {
    let entries = vec![entry("sda", 0), entry("nvme0n1", 100), entry("nvme0n1", 200)];
    let monitor = IoStatsMonitor::new(String::from("/dev/nvme0n1"));
    let stats = monitor.collect(&entries).unwrap();
    assert_eq!(
        stats,
        IoStats {
            read_ios: 101,
            read_merges: 102,
            read_sectors: 103,
            read_ticks: 104,
            write_ios: 105,
            write_merges: 106,
            write_sectors: 107,
            write_ticks: 108,
            in_flight: 0,
            io_ticks: 0,
            time_in_queue: 0,
        }
    );
    assert_eq!(IoStatsMonitor::new(String::from("/dev/sdb")).collect(&entries), None);
    assert_eq!(monitor.collect(&Vec::new()), None);
}

#[test]
fn bottlenecks_are_found_in_order_of_precedence() {
    let hot = CpuMetrics::from_cores(vec![9500, 8000, 9900], Vec::new());
    assert_eq!(hot.avg_utilization, 9133);
    let cool = CpuMetrics::from_cores(vec![9000, 9000], Vec::new());
    let full = MemoryMetrics::from_kilobytes(1000, 950, 10, 40);
    let roomy = MemoryMetrics::from_kilobytes(1000, 900, 10, 40);
    assert_eq!(full.utilization_percent, 9500);
    assert_eq!(roomy.utilization_percent, HOT_UTILIZATION);

    match detect_bottleneck(&hot, &full, &numa(2), &Some(io(5000, 3))) {
        Bottleneck::CpuBound { utilization, cores } => {
            assert_eq!(utilization, 9133);
            assert_eq!(cores, vec![0, 2]);
        }
        other => panic!("{:?}", other),
    }
    match detect_bottleneck(&cool, &full, &numa(2), &Some(io(5000, 3))) {
        Bottleneck::MemoryBound { utilization, available_bytes } => {
            assert_eq!(utilization, 9500);
            assert_eq!(available_bytes, 40 * 1024);
        }
        other => panic!("{:?}", other),
    }
    match detect_bottleneck(&cool, &roomy, &numa(2), &Some(io(DEEP_QUEUE + 1, 30))) {
        Bottleneck::IoBound { queue_depth, latency_p99_ms } => {
            assert_eq!(queue_depth, 1001);
            assert_eq!(latency_p99_ms, 30);
        }
        other => panic!("{:?}", other),
    }
    let found = detect_bottleneck(&cool, &roomy, &numa(2), &Some(io(DEEP_QUEUE, 30)));
    assert_eq!(found.kind(), BottleneckKind::NumaBound);
    assert!(matches!(found, Bottleneck::NumaBound { cross_node_access: false }));
    let found = detect_bottleneck(&cool, &roomy, &numa(2), &None);
    assert_eq!(found.kind(), BottleneckKind::NumaBound);
    let found = detect_bottleneck(&cool, &roomy, &numa(1), &None);
    assert_eq!(found.kind(), BottleneckKind::Balanced);
    let found = detect_bottleneck(&cool, &roomy, &numa(0), &Some(io(0, 0)));
    assert_eq!(found.kind(), BottleneckKind::Balanced);
}

#[test]
fn advice_follows_the_bottleneck() {
    assert_eq!(
        generate_recommendations(&Bottleneck::CpuBound { utilization: 9350, cores: vec![0, 3, 12] }),
        vec![
            "CPU utilization is 93.50%",
            "Hot cores: [0, 3, 12]",
            "Consider reducing thread count or increasing block size",
        ]
    );
    assert_eq!(
        generate_recommendations(&Bottleneck::CpuBound { utilization: 10000, cores: vec![] }),
        vec![
            "CPU utilization is 100.00%",
            "Hot cores: []",
            "Consider reducing thread count or increasing block size",
        ]
    );
    assert_eq!(
        generate_recommendations(&Bottleneck::MemoryBound { utilization: 9105, available_bytes: 1 }),
        vec![
            "Memory utilization is 91.05%",
            "Consider reducing buffer sizes or increasing available memory",
        ]
    );
    assert_eq!(
        generate_recommendations(&Bottleneck::IoBound { queue_depth: 2048, latency_p99_ms: 1 }),
        vec![
            "I/O queue depth is 2048",
            "Consider increasing queue depth or reducing block size",
        ]
    );
    assert_eq!(
        generate_recommendations(&Bottleneck::NumaBound { cross_node_access: false }),
        vec![
            "NUMA cross-node access detected",
            "Consider binding threads to specific NUMA nodes",
        ]
    );
    assert_eq!(generate_recommendations(&Bottleneck::Balanced), vec!["System appears balanced"]);
}

#[test]
fn lists_are_written_in_brackets() {
    let mut out = String::from("x");
    append_list(&mut out, &vec![7]);
    append_list(&mut out, &vec![]);
    append_list(&mut out, &vec![1, 22, 333]);
    assert_eq!(out, "x[7][][1, 22, 333]");
}

#[test]
fn collector_makes_a_report() {
    let mut collector = MonitorCollector::new(Some(String::from("/dev/sda")));
    let cpu = CpuMetrics::from_cores(vec![100, 200], vec![1000, 1000]);
    let memory = MemoryMetrics::from_kilobytes(1000, 100, 800, 900);
    let nodes = vec![
        NumaNode { id: 1, cpus: vec![2, 3], memory_bytes: 7 },
        NumaNode { id: 0, cpus: vec![0, 1], memory_bytes: 5 },
    ];
    let entries = vec![entry("sdb", 0), entry("sda", 10)];
    let report = collector.collect_metrics(cpu, memory, nodes, Some(2), Some(&entries));
    assert_eq!(report.cpu_metrics.avg_utilization, 150);
    assert_eq!(report.memory_metrics.utilization_percent, 1000);
    assert_eq!(report.numa_metrics.num_nodes, 2);
    assert_eq!(report.numa_metrics.node_memory, vec![5, 7]);
    assert_eq!(report.numa_metrics.current_node, Some(1));
    assert_eq!(report.io_stats.unwrap().read_ios, 11);
    assert_eq!(report.bottleneck.kind(), BottleneckKind::NumaBound);
    assert_eq!(
        report.recommendations,
        vec![
            "NUMA cross-node access detected",
            "Consider binding threads to specific NUMA nodes",
        ]
    );

    let cpu = CpuMetrics::from_cores(vec![100], vec![1000]);
    let one = vec![NumaNode { id: 0, cpus: vec![0], memory_bytes: 5 }];
    let report = collector.collect_metrics(cpu, memory, one, None, None);
    assert_eq!(report.io_stats, None);
    assert_eq!(report.bottleneck.kind(), BottleneckKind::Balanced);
    assert_eq!(report.recommendations, vec!["System appears balanced"]);

    let mut blind = MonitorCollector::new(None);
    let cpu = CpuMetrics::from_cores(vec![9999], vec![1000]);
    let report = blind.collect_metrics(cpu, memory, Vec::new(), None, Some(&entries));
    assert_eq!(report.io_stats, None);
    assert_eq!(report.bottleneck.kind(), BottleneckKind::CpuBound);
}
