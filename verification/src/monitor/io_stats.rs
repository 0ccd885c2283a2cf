//! The kernel's per-device I/O counters.

use vstd::prelude::*;

verus! {

/// The counters of one device.
#[derive(Debug, Clone, Copy, PartialEq, Eq, Structural)]
pub struct IoStats {
    pub read_ios: u64,
    pub read_merges: u64,
    pub read_sectors: u64,
    pub read_ticks: u64,
    pub write_ios: u64,
    pub write_merges: u64,
    pub write_sectors: u64,
    pub write_ticks: u64,
    pub in_flight: u64,
    pub io_ticks: u64,
    pub time_in_queue: u64,
}

/// One line of the kernel's table of disk statistics.
#[derive(Debug, Clone)]
pub struct DiskEntry {
    pub name: String,
    pub reads: u64,
    pub merged: u64,
    pub sectors_read: u64,
    pub time_reading: u64,
    pub writes: u64,
    pub writes_merged: u64,
    pub sectors_written: u64,
    pub time_writing: u64,
}

/// The last component of a path, as `Path::file_name` gives it.
pub uninterp spec fn file_name_of(path: Seq<char>) -> Option<Seq<char>>;

/// Calls `Path::file_name` on the path `path`. Nothing is claimed of the
/// result but that it is the path's last component, a function of the path
/// alone.
#[verifier::external_body]
pub(crate) fn file_name(path: &str) -> (name: Option<String>)
    ensures
        match name {
            Some(text) => file_name_of(path@) == Some(text@),
            None => file_name_of(path@) is None,
        },
{
    match std::path::Path::new(path).file_name() {
        Some(name) => Some(name.to_string_lossy().into_owned()),
        None => None,
    }
}

/// The name under which the kernel lists the device at `path`: the last
/// component of the path, or the empty name where the path has none.
pub open spec fn device_name_of(path: Seq<char>) -> Seq<char> {
    match file_name_of(path) {
        Some(name) => name,
        None => Seq::empty(),
    }
}

/// The name under which the kernel lists the device at `path`.
pub fn device_name(path: &str) -> (name: String)
    ensures
        name@ == device_name_of(path@),
{
    match file_name(path) {
        Some(name) => name,
        None => String::new(),
    }
}

/// The counters that the table line `entry` holds. What the table does not
/// give is zero.
pub open spec fn stats_of_entry(entry: DiskEntry) -> IoStats {
    IoStats {
        read_ios: entry.reads,
        read_merges: entry.merged,
        read_sectors: entry.sectors_read,
        read_ticks: entry.time_reading,
        write_ios: entry.writes,
        write_merges: entry.writes_merged,
        write_sectors: entry.sectors_written,
        write_ticks: entry.time_writing,
        in_flight: 0,
        io_ticks: 0,
        time_in_queue: 0,
    }
}

/// The counters of the first line of `entries` for the device `name`.
pub open spec fn stats_for(entries: Seq<DiskEntry>, name: Seq<char>) -> Option<IoStats>
    decreases entries.len(),
{
    if entries.len() == 0 {
        None
    } else if entries[0].name@ == name {
        Some(stats_of_entry(entries[0]))
    } else {
        stats_for(entries.skip(1), name)
    }
}

/// Picks the counters of one device out of the kernel's table.
pub struct IoStatsMonitor {
    device_path: String,
}

impl IoStatsMonitor {
    pub closed spec fn spec_device_path(&self) -> Seq<char> {
        self.device_path@
    }

    /// A monitor for the device at `device_path`.
    pub fn new(device_path: String) -> (monitor: IoStatsMonitor)
        ensures
            monitor.spec_device_path() == device_path@,
    {
        IoStatsMonitor { device_path }
    }

    /// The counters of the monitored device: those of the first line of
    /// `entries` that bears the device's name, or `None` where none does.
    pub fn collect(&self, entries: &Vec<DiskEntry>) -> (stats: Option<IoStats>)
        ensures
            stats == stats_for(entries@, device_name_of(self.spec_device_path())),
    {
        let name = device_name(self.device_path.as_str());
        let mut i: usize = 0;
        assert(entries@.skip(0) == entries@);
        while i < entries.len()
            invariant
                i <= entries.len(),
                name@ == device_name_of(self.spec_device_path()),
                stats_for(entries@, name@) == stats_for(entries@.skip(i as int), name@),
            decreases entries.len() - i,
        {
            assert(entries@.skip(i as int).skip(1) == entries@.skip(i + 1));
            let entry = &entries[i];
            if entry.name == name {
                return Some(
                    IoStats {
                        read_ios: entry.reads,
                        read_merges: entry.merged,
                        read_sectors: entry.sectors_read,
                        read_ticks: entry.time_reading,
                        write_ios: entry.writes,
                        write_merges: entry.writes_merged,
                        write_sectors: entry.sectors_written,
                        write_ticks: entry.time_writing,
                        in_flight: 0,
                        io_ticks: 0,
                        time_in_queue: 0,
                    },
                );
            }
            i = i + 1;
        }
        None
    }
}

} // verus!
