//! Finding the bottleneck in what the monitors report.

use crate::monitor::cpu::{positions_above, CpuMetrics};
use crate::monitor::io_stats::{device_name_of, stats_for, DiskEntry, IoStats, IoStatsMonitor};
use crate::monitor::memory::MemoryMetrics;
use crate::monitor::numa::{metrics_report, sorted_by_id, NumaMetrics, NumaMonitor, NumaNode};
use crate::text::{append_decimal, append_hundredths, decimal_text, hundredths_text};
use vstd::prelude::*;
use vstd::string::StringExecFns;

verus! {

/// Utilisation above which processors or memory count as the bottleneck, in
/// hundredths of a percent.
pub const HOT_UTILIZATION: u32 = 9000;

/// Operations in flight above which the device counts as the bottleneck.
pub const DEEP_QUEUE: u64 = 1000;

/// What holds a benchmark back.
#[derive(Debug, Clone)]
pub enum Bottleneck {
    /// The processors; utilisation in hundredths of a percent.
    CpuBound { utilization: u32, cores: Vec<usize> },
    /// The memory; utilisation in hundredths of a percent.
    MemoryBound { utilization: u32, available_bytes: u64 },
    /// The device; the latency in milliseconds.
    IoBound { queue_depth: usize, latency_p99_ms: u64 },
    NumaBound { cross_node_access: bool },
    Balanced,
}

/// The kinds of bottleneck.
#[derive(Debug, Clone, Copy, PartialEq, Eq, Structural)]
pub enum BottleneckKind {
    CpuBound,
    MemoryBound,
    IoBound,
    NumaBound,
    Balanced,
}

/// What the monitors report, the bottleneck found in it, and advice.
#[derive(Debug, Clone)]
pub struct BottleneckReport {
    pub bottleneck: Bottleneck,
    pub cpu_metrics: CpuMetrics,
    pub memory_metrics: MemoryMetrics,
    pub numa_metrics: NumaMetrics,
    pub io_stats: Option<IoStats>,
    pub recommendations: Vec<String>,
}

impl Bottleneck {
    /// The kind of the bottleneck.
    pub open spec fn spec_kind(&self) -> BottleneckKind {
        match *self {
            Bottleneck::CpuBound { .. } => BottleneckKind::CpuBound,
            Bottleneck::MemoryBound { .. } => BottleneckKind::MemoryBound,
            Bottleneck::IoBound { .. } => BottleneckKind::IoBound,
            Bottleneck::NumaBound { .. } => BottleneckKind::NumaBound,
            Bottleneck::Balanced => BottleneckKind::Balanced,
        }
    }

    /// The kind of the bottleneck.
    #[verifier::when_used_as_spec(spec_kind)]
    pub fn kind(&self) -> (kind: BottleneckKind)
        ensures
            kind == self.spec_kind(),
    {
        match self {
            Bottleneck::CpuBound { .. } => BottleneckKind::CpuBound,
            Bottleneck::MemoryBound { .. } => BottleneckKind::MemoryBound,
            Bottleneck::IoBound { .. } => BottleneckKind::IoBound,
            Bottleneck::NumaBound { .. } => BottleneckKind::NumaBound,
            Bottleneck::Balanced => BottleneckKind::Balanced,
        }
    }
}

/// The kind of bottleneck that the figures show. Processors come first,
/// then memory, then the device, then the topology.
pub open spec fn bottleneck_kind(
    cpu_utilization: u32,
    memory_utilization: u32,
    in_flight: Option<u64>,
    num_nodes: usize,
) -> BottleneckKind {
    if cpu_utilization > HOT_UTILIZATION {
        BottleneckKind::CpuBound
    } else if memory_utilization > HOT_UTILIZATION {
        BottleneckKind::MemoryBound
    } else if in_flight is Some && in_flight->0 > DEEP_QUEUE {
        BottleneckKind::IoBound
    } else if num_nodes > 1 {
        BottleneckKind::NumaBound
    } else {
        BottleneckKind::Balanced
    }
}

/// The operations in flight that the device counters show, if there are
/// counters.
pub open spec fn in_flight_of(io: Option<IoStats>) -> Option<u64> {
    match io {
        Some(stats) => Some(stats.in_flight),
        None => None,
    }
}

/// Whether `bottleneck` is what the figures show: of the kind that
/// `bottleneck_kind` names, and with the figures that gave it away.
pub open spec fn is_bottleneck_of(
    bottleneck: Bottleneck,
    cpu: CpuMetrics,
    memory: MemoryMetrics,
    num_nodes: usize,
    io: Option<IoStats>,
) -> bool {
    &&& bottleneck.spec_kind() == bottleneck_kind(
        cpu.avg_utilization,
        memory.utilization_percent,
        in_flight_of(io),
        num_nodes,
    )
    &&& match bottleneck {
        Bottleneck::CpuBound { utilization, cores } => utilization == cpu.avg_utilization
            && cores@ == positions_above(cpu.utilization_per_core@, HOT_UTILIZATION),
        Bottleneck::MemoryBound { utilization, available_bytes } => utilization
            == memory.utilization_percent && available_bytes == memory.available_bytes,
        Bottleneck::IoBound { queue_depth, latency_p99_ms } => queue_depth == (io->0.in_flight
            as usize) && latency_p99_ms == io->0.time_in_queue,
        Bottleneck::NumaBound { cross_node_access } => !cross_node_access,
        Bottleneck::Balanced => true,
    }
}

/// Finds the bottleneck in what the monitors report: processors above
/// `HOT_UTILIZATION` on average, else memory above it, else more than
/// `DEEP_QUEUE` operations in flight on the device, else more than one NUMA
/// node; where none of these holds the system is balanced.
pub fn detect_bottleneck(
    cpu: &CpuMetrics,
    memory: &MemoryMetrics,
    numa: &NumaMetrics,
    io: &Option<IoStats>,
) -> (bottleneck: Bottleneck)
    ensures
        is_bottleneck_of(bottleneck, *cpu, *memory, numa.num_nodes, *io),
{
    if cpu.avg_utilization > HOT_UTILIZATION {
        return Bottleneck::CpuBound {
            utilization: cpu.avg_utilization,
            cores: cpu.hot_cores(HOT_UTILIZATION),
        };
    }
    if memory.utilization_percent > HOT_UTILIZATION {
        return Bottleneck::MemoryBound {
            utilization: memory.utilization_percent,
            available_bytes: memory.available_bytes,
        };
    }
    match io {
        Some(stats) => {
            if stats.in_flight > DEEP_QUEUE {
                return Bottleneck::IoBound {
                    queue_depth: stats.in_flight as usize,
                    latency_p99_ms: stats.time_in_queue,
                };
            }
        },
        None => {},
    }
    if numa.num_nodes > 1 {
        return Bottleneck::NumaBound { cross_node_access: false };
    }
    Bottleneck::Balanced
}

/// A list of numbers as text: in square brackets, separated by a comma and a
/// blank.
pub open spec fn list_text(items: Seq<usize>) -> Seq<char> {
    seq!['['] + list_body(items) + seq![']']
}

/// The numbers of a list without the brackets.
pub open spec fn list_body(items: Seq<usize>) -> Seq<char>
    decreases items.len(),
{
    if items.len() == 0 {
        Seq::empty()
    } else if items.len() == 1 {
        decimal_text(items[0] as nat)
    } else {
        list_body(items.drop_last()) + seq![',', ' '] + decimal_text(items.last() as nat)
    }
}

/// Writes a list of numbers at the end of `out`.
pub fn append_list(out: &mut String, items: &Vec<usize>)
    ensures
        final(out)@ == old(out)@ + list_text(items@),
{
    proof {
        reveal_strlit("[");
        reveal_strlit("]");
        reveal_strlit(", ");
    }
    out.append("[");
    let mut i: usize = 0;
    while i < items.len()
        invariant
            i <= items.len(),
            out@ == old(out)@ + seq!['['] + list_body(items@.take(i as int)),
        decreases items.len() - i,
    {
        let ghost before = items@.take(i as int);
        let ghost next = items@.take(i + 1);
        assert(next.drop_last() == before);
        assert(next.last() == items@[i as int]);
        if i > 0 {
            out.append(", ");
        }
        append_decimal(out, items[i] as u64);
        proof {
            reveal_strlit(", ");
            if i == 0 {
                assert(list_body(before) == Seq::<char>::empty());
                assert(out@ =~= old(out)@ + seq!['['] + list_body(next));
            } else {
                assert(", "@ =~= seq![',', ' ']);
                assert(next.len() >= 2);
                assert(list_body(next) == list_body(before) + seq![',', ' '] + decimal_text(
                    next.last() as nat,
                ));
                assert(out@ =~= old(out)@ + seq!['['] + list_body(next));
            }
        }
        i = i + 1;
    }
    assert(items@.take(items.len() as int) == items@);
    out.append("]");
    assert(out@ =~= old(out)@ + list_text(items@));
}

/// The first line of advice for a bottleneck, which names the figure that
/// gave it away; the balanced system and the topology have none.
pub open spec fn figure_line(bottleneck: Bottleneck) -> Option<Seq<char>> {
    match bottleneck {
        Bottleneck::CpuBound { utilization, .. } => Some(
            "CPU utilization is "@ + hundredths_text(utilization as nat) + "%"@,
        ),
        Bottleneck::MemoryBound { utilization, .. } => Some(
            "Memory utilization is "@ + hundredths_text(utilization as nat) + "%"@,
        ),
        Bottleneck::IoBound { queue_depth, .. } => Some(
            "I/O queue depth is "@ + decimal_text(queue_depth as nat),
        ),
        _ => None,
    }
}

/// The advice for a bottleneck, line by line.
pub open spec fn recommendations_for(bottleneck: Bottleneck) -> Seq<Seq<char>> {
    match bottleneck {
        Bottleneck::CpuBound { utilization, cores } => seq![
            figure_line(bottleneck)->0,
            "Hot cores: "@ + list_text(cores@),
            "Consider reducing thread count or increasing block size"@,
        ],
        Bottleneck::MemoryBound { .. } => seq![
            figure_line(bottleneck)->0,
            "Consider reducing buffer sizes or increasing available memory"@,
        ],
        Bottleneck::IoBound { .. } => seq![
            figure_line(bottleneck)->0,
            "Consider increasing queue depth or reducing block size"@,
        ],
        Bottleneck::NumaBound { .. } => seq![
            "NUMA cross-node access detected"@,
            "Consider binding threads to specific NUMA nodes"@,
        ],
        Bottleneck::Balanced => seq!["System appears balanced"@],
    }
}

/// The texts of `lines`.
pub open spec fn texts_of(lines: Seq<String>) -> Seq<Seq<char>> {
    Seq::new(lines.len(), |i: int| lines[i]@)
}

/// The advice for a bottleneck, line by line.
pub fn generate_recommendations(bottleneck: &Bottleneck) -> (lines: Vec<String>)
    ensures
        texts_of(lines@) == recommendations_for(*bottleneck),
{
    let mut lines: Vec<String> = Vec::new();
    match bottleneck {
        Bottleneck::CpuBound { utilization, cores } => {
            let mut first = String::from_str("CPU utilization is ");
            append_hundredths(&mut first, *utilization as u64);
            first.append("%");
            let mut second = String::from_str("Hot cores: ");
            append_list(&mut second, cores);
            lines.push(first);
            lines.push(second);
            lines.push(String::from_str("Consider reducing thread count or increasing block size"));
        },
        Bottleneck::MemoryBound { utilization, .. } => {
            let mut first = String::from_str("Memory utilization is ");
            append_hundredths(&mut first, *utilization as u64);
            first.append("%");
            lines.push(first);
            lines.push(
                String::from_str("Consider reducing buffer sizes or increasing available memory"),
            );
        },
        Bottleneck::IoBound { queue_depth, .. } => {
            let mut first = String::from_str("I/O queue depth is ");
            append_decimal(&mut first, *queue_depth as u64);
            lines.push(first);
            lines.push(String::from_str("Consider increasing queue depth or reducing block size"));
        },
        Bottleneck::NumaBound { .. } => {
            lines.push(String::from_str("NUMA cross-node access detected"));
            lines.push(String::from_str("Consider binding threads to specific NUMA nodes"));
        },
        Bottleneck::Balanced => {
            lines.push(String::from_str("System appears balanced"));
        },
    }
    assert(texts_of(lines@) =~= recommendations_for(*bottleneck));
    lines
}

/// Gathers what the monitors report into one report.
pub struct MonitorCollector {
    numa_monitor: NumaMonitor,
    io_monitor: Option<IoStatsMonitor>,
}

impl MonitorCollector {
    pub closed spec fn spec_nodes(&self) -> Seq<NumaNode> {
        self.numa_monitor@
    }

    /// The path of the device whose counters are looked up, if any.
    pub closed spec fn spec_device_path(&self) -> Option<Seq<char>> {
        match self.io_monitor {
            Some(monitor) => Some(monitor.spec_device_path()),
            None => None,
        }
    }

    /// A collector that looks up the counters of the device at
    /// `device_path`, if one is given. Until nodes are reported it assumes a
    /// single NUMA node.
    pub fn new(device_path: Option<String>) -> (collector: MonitorCollector)
        ensures
            collector.spec_nodes().len() == 1,
            collector.spec_nodes()[0].id == 0,
            collector.spec_nodes()[0].memory_bytes == 0,
            collector.spec_nodes()[0].cpus@.len() >= 1,
            forall|i: int|
                0 <= i < collector.spec_nodes()[0].cpus@.len() ==> collector.spec_nodes()[0].cpus@[i]
                    == i,
            collector.spec_device_path() == match device_path {
                Some(path) => Some(path@),
                None => None,
            },
    {
        let io_monitor = match device_path {
            Some(path) => Some(IoStatsMonitor::new(path)),
            None => None,
        };
        MonitorCollector { numa_monitor: NumaMonitor::fallback(), io_monitor }
    }

    /// Makes the report for what was measured: the load of the processors
    /// and the memory, the NUMA nodes found and the processor the caller
    /// runs on, and the kernel's table of disk statistics if it could be
    /// read.
    pub fn collect_metrics(
        &mut self,
        cpu_metrics: CpuMetrics,
        memory_metrics: MemoryMetrics,
        nodes: Vec<NumaNode>,
        current_cpu: Option<usize>,
        disk_entries: Option<&Vec<DiskEntry>>,
    ) -> (report: BottleneckReport)
        ensures
            final(self).spec_nodes() == sorted_by_id(nodes@),
            final(self).spec_device_path() == old(self).spec_device_path(),
            report.cpu_metrics == cpu_metrics,
            report.memory_metrics == memory_metrics,
            metrics_report(report.numa_metrics, sorted_by_id(nodes@), current_cpu),
            report.io_stats == match (old(self).spec_device_path(), disk_entries) {
                (Some(path), Some(entries)) => stats_for(entries@, device_name_of(path)),
                _ => None,
            },
            is_bottleneck_of(
                report.bottleneck,
                cpu_metrics,
                memory_metrics,
                nodes@.len() as usize,
                report.io_stats,
            ),
            texts_of(report.recommendations@) == recommendations_for(report.bottleneck),
    {
        let numa_metrics = self.numa_monitor.collect(nodes, current_cpu);
        let io_stats = match (&self.io_monitor, disk_entries) {
            (Some(monitor), Some(entries)) => monitor.collect(entries),
            _ => None,
        };
        let bottleneck = detect_bottleneck(&cpu_metrics, &memory_metrics, &numa_metrics, &io_stats);
        let recommendations = generate_recommendations(&bottleneck);
        BottleneckReport {
            bottleneck,
            cpu_metrics,
            memory_metrics,
            numa_metrics,
            io_stats,
            recommendations,
        }
    }
}

} // verus!
