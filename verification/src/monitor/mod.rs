//! What the system reports of itself, as far as the tuner looks at it.

pub mod collector;
pub mod cpu;
pub mod io_stats;
pub mod memory;
pub mod numa;

pub use collector::{Bottleneck, BottleneckReport, MonitorCollector};
pub use io_stats::IoStatsMonitor;
pub use numa::NumaMonitor;
