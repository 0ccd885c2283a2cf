//! Putting a bottleneck into words.

use crate::monitor::collector::{list_text, Bottleneck, BottleneckReport};
use crate::text::{append_decimal, append_hundredths, decimal_text, hundredths_text};
use vstd::prelude::*;
use vstd::string::StringExecFns;

verus! {

/// Describes the bottleneck of a report in one line.
#[derive(Debug, Clone, Copy, PartialEq, Eq, Structural)]
pub struct BottleneckDetector;

/// The line that describes a bottleneck.
pub open spec fn analysis_of(bottleneck: Bottleneck) -> Seq<char> {
    match bottleneck {
        Bottleneck::CpuBound { utilization, cores } => "CPU-bound: "@ + hundredths_text(
            utilization as nat,
        ) + "% utilization on cores "@ + list_text(cores@),
        Bottleneck::MemoryBound { utilization, .. } => "Memory-bound: "@ + hundredths_text(
            utilization as nat,
        ) + "% utilization"@,
        Bottleneck::IoBound { queue_depth, .. } => "I/O-bound: queue depth "@ + decimal_text(
            queue_depth as nat,
        ),
        Bottleneck::NumaBound { .. } => "NUMA-bound: cross-node access detected"@,
        Bottleneck::Balanced => "System appears balanced"@,
    }
}

impl BottleneckDetector {
    pub fn new() -> (detector: BottleneckDetector)
        ensures
            detector == BottleneckDetector,
    {
        BottleneckDetector
    }

    /// The line that describes the bottleneck of `report`.
    pub fn analyze(&self, report: &BottleneckReport) -> (line: String)
        ensures
            line@ == analysis_of(report.bottleneck),
    {
        match &report.bottleneck {
            Bottleneck::CpuBound { utilization, cores } => {
                let mut line = String::from_str("CPU-bound: ");
                append_hundredths(&mut line, *utilization as u64);
                line.append("% utilization on cores ");
                crate::monitor::collector::append_list(&mut line, cores);
                line
            },
            Bottleneck::MemoryBound { utilization, .. } => {
                let mut line = String::from_str("Memory-bound: ");
                append_hundredths(&mut line, *utilization as u64);
                line.append("% utilization");
                line
            },
            Bottleneck::IoBound { queue_depth, .. } => {
                let mut line = String::from_str("I/O-bound: queue depth ");
                append_decimal(&mut line, *queue_depth as u64);
                line
            },
            Bottleneck::NumaBound { .. } => String::from_str(
                "NUMA-bound: cross-node access detected",
            ),
            Bottleneck::Balanced => String::from_str("System appears balanced"),
        }
    }
}

impl Default for BottleneckDetector {
    fn default() -> (detector: Self)
        ensures
            detector == BottleneckDetector,
    {
        BottleneckDetector
    }
}

} // verus!
