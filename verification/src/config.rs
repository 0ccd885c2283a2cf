//! Benchmark configuration: workloads, access modes and tunable parameters.

use crate::text::{chars_of, parse_decimal_bounded, parse_usize_range, trim_range, trimmed};
use vstd::prelude::*;
use vstd::string::StrSliceExecFns;

verus! {

/// Why a piece of configuration text was turned down.
#[derive(Debug, Clone, Copy, PartialEq, Eq, Structural)]
pub enum ConfigError {
    /// A block size without a unit that is no number.
    InvalidBlockSize,
    /// A block size with a unit whose number part is no number.
    InvalidNumber,
    /// A block size whose number of bytes does not fit the machine word.
    BlockSizeTooLarge,
    /// A workload name that is not known.
    InvalidWorkload,
}

impl ConfigError {
    /// The description shown to the user.
    pub open spec fn spec_message(&self) -> Seq<char> {
        match *self {
            ConfigError::InvalidBlockSize => "Invalid block size"@,
            ConfigError::InvalidNumber => "Invalid number in block size"@,
            ConfigError::BlockSizeTooLarge => "Block size too large"@,
            ConfigError::InvalidWorkload =>
                "Invalid workload. Valid options: seqread, seqwrite, randread, randwrite, seq, rand, all"@,
        }
    }

    /// A short description for the user.
    pub fn message(&self) -> (text: &'static str)
        ensures
            text@ == self.spec_message(),
    {
        match self {
            ConfigError::InvalidBlockSize => "Invalid block size",
            ConfigError::InvalidNumber => "Invalid number in block size",
            ConfigError::BlockSizeTooLarge => "Block size too large",
            ConfigError::InvalidWorkload =>
                "Invalid workload. Valid options: seqread, seqwrite, randread, randwrite, seq, rand, all",
        }
    }
}

/// What a benchmark run is asked to do.
#[derive(Debug, Clone)]
pub struct Config {
    /// Path of the block device.
    pub device: String,
    pub workload: Workload,
    /// Bytes per operation.
    pub block_size: usize,
    /// Operations a worker keeps outstanding.
    pub queue_depth: usize,
    /// Number of workers.
    pub threads: usize,
    /// Length of the run, in nanoseconds.
    pub duration_ns: u64,
    pub optimize: bool,
    pub monitor: bool,
}

/// The lowercase form of a text, as `str::to_lowercase` gives it.
pub uninterp spec fn lowercased(s: Seq<char>) -> Seq<char>;

/// Calls `str::to_lowercase`. Nothing is claimed of the result but that it is
/// the lowercase form of the argument, a function of the argument alone.
#[verifier::external_body]
fn to_lowercase(s: &str) -> (r: String)
    ensures
        r@ == lowercased(s@),
{
    s.to_lowercase()
}

/// The factor that a unit letter stands for, base 1024.
pub open spec fn unit_multiplier(c: char) -> Option<nat> {
    if c == 'k' {
        Some(1024nat)
    } else if c == 'm' {
        Some(1024nat * 1024)
    } else if c == 'g' {
        Some(1024nat * 1024 * 1024)
    } else {
        None
    }
}

/// The number of bytes that a trimmed, lowercase block-size text stands for:
/// a decimal number, alone or followed by one of `k`, `m`, `g`.
pub open spec fn block_size_of(t: Seq<char>) -> Result<usize, ConfigError> {
    if t.len() > 0 && unit_multiplier(t.last()) is Some {
        match parse_decimal_bounded(t.drop_last(), usize::MAX as nat) {
            Some(n) => if n * unit_multiplier(t.last())->0 <= usize::MAX {
                Ok((n * unit_multiplier(t.last())->0) as usize)
            } else {
                Err(ConfigError::BlockSizeTooLarge)
            },
            None => Err(ConfigError::InvalidNumber),
        }
    } else {
        match parse_decimal_bounded(t, usize::MAX as nat) {
            Some(n) => Ok(n as usize),
            None => Err(ConfigError::InvalidBlockSize),
        }
    }
}

/// Parses a block size that is already trimmed and in lowercase, such as
/// `4096`, `4k`, `1m` or `2g`.
pub fn parse_block_size_normalized(t: &str) -> (r: Result<usize, ConfigError>)
    ensures
        r == block_size_of(t@),
{
    let v = chars_of(t);
    let n = v.len();
    assert(v@.subrange(0, n as int) == v@);
    if n > 0 && (v[n - 1] == 'k' || v[n - 1] == 'm' || v[n - 1] == 'g') {
        assert(v@.subrange(0, n - 1) == v@.drop_last());
        let multiplier: usize = if v[n - 1] == 'k' {
            1024
        } else if v[n - 1] == 'm' {
            1024 * 1024
        } else {
            1024 * 1024 * 1024
        };
        match parse_usize_range(&v, 0, n - 1) {
            Some(num) => match num.checked_mul(multiplier) {
                Some(bytes) => Ok(bytes),
                None => Err(ConfigError::BlockSizeTooLarge),
            },
            None => Err(ConfigError::InvalidNumber),
        }
    } else {
        match parse_usize_range(&v, 0, n) {
            Some(num) => Ok(num),
            None => Err(ConfigError::InvalidBlockSize),
        }
    }
}

/// Parses a human-readable block size (`4k`, `64K`, ` 1m `, `4096`): the text
/// is trimmed and put in lowercase first.
pub fn parse_block_size(s: &str) -> (r: Result<usize, ConfigError>)
    ensures
        r == block_size_of(lowercased(trimmed(s@))),
{
    let v = chars_of(s);
    assert(v@.subrange(0, v.len() as int) == v@);
    let (a, b) = trim_range(&v, 0, v.len());
    let lower = to_lowercase(s.substring_char(a, b));
    parse_block_size_normalized(lower.as_str())
}

/// The workload a benchmark run drives against the device.
#[derive(Debug, Clone, Copy, PartialEq, Eq, Structural)]
pub enum Workload {
    /// Sequential, reads only.
    SeqRead,
    /// Sequential, writes only.
    SeqWrite,
    /// Random, reads only.
    RandRead,
    /// Random, writes only.
    RandWrite,
    /// Sequential, half reads and half writes.
    SeqMixed,
    /// Random, half reads and half writes.
    RandMixed,
    /// Every concrete workload, one after the other.
    All,
}

/// How a pattern generator picks the next offset.
#[derive(Debug, Clone, Copy, PartialEq, Eq, Structural)]
pub enum IoMode {
    Sequential,
    Random,
    Mixed,
}

impl Workload {
    pub open spec fn spec_is_sequential(&self) -> bool {
        *self is SeqRead || *self is SeqWrite || *self is SeqMixed
    }

    pub open spec fn spec_is_random(&self) -> bool {
        *self is RandRead || *self is RandWrite || *self is RandMixed
    }

    pub open spec fn spec_read_percent(&self) -> u8 {
        match *self {
            Workload::SeqRead | Workload::RandRead => 100u8,
            Workload::SeqWrite | Workload::RandWrite => 0u8,
            Workload::SeqMixed | Workload::RandMixed | Workload::All => 50u8,
        }
    }

    /// The access mode the workload asks of the pattern generator.
    pub open spec fn spec_mode(&self) -> IoMode {
        if self.spec_is_random() {
            IoMode::Random
        } else {
            IoMode::Sequential
        }
    }

    #[verifier::when_used_as_spec(spec_is_sequential)]
    pub fn is_sequential(&self) -> (r: bool)
        ensures
            r == self.spec_is_sequential(),
    {
        matches!(self, Workload::SeqRead | Workload::SeqWrite | Workload::SeqMixed)
    }

    #[verifier::when_used_as_spec(spec_is_random)]
    pub fn is_random(&self) -> (r: bool)
        ensures
            r == self.spec_is_random(),
    {
        matches!(self, Workload::RandRead | Workload::RandWrite | Workload::RandMixed)
    }

    #[verifier::when_used_as_spec(spec_read_percent)]
    pub fn read_percent(&self) -> (r: u8)
        ensures
            r == self.spec_read_percent(),
    {
        match self {
            Workload::SeqRead | Workload::RandRead => 100,
            Workload::SeqWrite | Workload::RandWrite => 0,
            Workload::SeqMixed | Workload::RandMixed => 50,
            Workload::All => 50,
        }
    }
}

/// Whether two texts hold the same characters.
pub fn str_eq(a: &str, b: &str) -> (r: bool)
    ensures
        r == (a@ == b@),
{
    let x = chars_of(a);
    let y = chars_of(b);
    if x.len() != y.len() {
        return false;
    }
    let mut i: usize = 0;
    while i < x.len()
        invariant
            i <= x.len() == y.len(),
            x@ == a@,
            y@ == b@,
            x@.take(i as int) == y@.take(i as int),
        decreases x.len() - i,
    {
        if x[i] != y[i] {
            assert(a@[i as int] != b@[i as int]);
            return false;
        }
        assert(x@.take(i + 1) == x@.take(i as int).push(x@[i as int]));
        assert(y@.take(i + 1) == y@.take(i as int).push(y@[i as int]));
        i = i + 1;
    }
    assert(x@.take(x.len() as int) == x@);
    assert(y@.take(y.len() as int) == y@);
    true
}

/// The workload that a lowercase name stands for.
pub open spec fn workload_named(t: Seq<char>) -> Option<Workload> {
    if t == "seqread"@ || t == "seq-read"@ || t == "sequential-read"@ {
        Some(Workload::SeqRead)
    } else if t == "seqwrite"@ || t == "seq-write"@ || t == "sequential-write"@ {
        Some(Workload::SeqWrite)
    } else if t == "randread"@ || t == "rand-read"@ || t == "random-read"@ {
        Some(Workload::RandRead)
    } else if t == "randwrite"@ || t == "rand-write"@ || t == "random-write"@ {
        Some(Workload::RandWrite)
    } else if t == "seq"@ || t == "sequential"@ {
        Some(Workload::SeqMixed)
    } else if t == "rand"@ || t == "random"@ {
        Some(Workload::RandMixed)
    } else if t == "all"@ {
        Some(Workload::All)
    } else {
        None
    }
}

impl Workload {
    /// The workload with the lowercase name `t`.
    pub fn from_name(t: &str) -> (r: Result<Workload, ConfigError>)
        ensures
            r == match workload_named(t@) {
                Some(w) => Ok::<Workload, ConfigError>(w),
                None => Err(ConfigError::InvalidWorkload),
            },
    {
        if str_eq(t, "seqread") || str_eq(t, "seq-read") || str_eq(t, "sequential-read") {
            Ok(Workload::SeqRead)
        } else if str_eq(t, "seqwrite") || str_eq(t, "seq-write") || str_eq(t, "sequential-write") {
            Ok(Workload::SeqWrite)
        } else if str_eq(t, "randread") || str_eq(t, "rand-read") || str_eq(t, "random-read") {
            Ok(Workload::RandRead)
        } else if str_eq(t, "randwrite") || str_eq(t, "rand-write") || str_eq(t, "random-write") {
            Ok(Workload::RandWrite)
        } else if str_eq(t, "seq") || str_eq(t, "sequential") {
            Ok(Workload::SeqMixed)
        } else if str_eq(t, "rand") || str_eq(t, "random") {
            Ok(Workload::RandMixed)
        } else if str_eq(t, "all") {
            Ok(Workload::All)
        } else {
            Err(ConfigError::InvalidWorkload)
        }
    }

    /// The workload that `s` names, whatever the case of its letters.
    pub fn parse(s: &str) -> (r: Result<Workload, ConfigError>)
        ensures
            r == match workload_named(lowercased(s@)) {
                Some(w) => Ok::<Workload, ConfigError>(w),
                None => Err(ConfigError::InvalidWorkload),
            },
    {
        let lower = to_lowercase(s);
        Workload::from_name(lower.as_str())
    }

    /// The block size to use where none is given: 128 KiB for sequential
    /// workloads, 4 KiB for the others.
    pub open spec fn spec_default_block_size(&self) -> Seq<char> {
        if self.spec_is_sequential() {
            "128k"@
        } else {
            "4k"@
        }
    }

    /// The block size to use where none is given, as a text that
    /// `parse_block_size` reads.
    pub fn default_block_size(&self) -> (text: &'static str)
        ensures
            text@ == self.spec_default_block_size(),
    {
        if self.is_sequential() {
            "128k"
        } else {
            "4k"
        }
    }

    /// The six concrete workloads, in the order in which `All` runs them.
    pub open spec fn spec_concrete_order() -> Seq<Workload> {
        seq![
            Workload::SeqRead,
            Workload::SeqWrite,
            Workload::RandRead,
            Workload::RandWrite,
            Workload::SeqMixed,
            Workload::RandMixed,
        ]
    }

    /// The workloads that a run of `self` consists of: the six concrete ones
    /// for `All`, else `self` alone.
    pub open spec fn spec_expand(&self) -> Seq<Workload> {
        if *self is All {
            Self::spec_concrete_order()
        } else {
            seq![*self]
        }
    }

    /// The workloads that a run of `self` consists of, in order.
    pub fn expand(&self) -> (list: Vec<Workload>)
        ensures
            list@ == self.spec_expand(),
            forall|i: int| 0 <= i < list@.len() ==> !(#[trigger] list@[i] is All),
    {
        let mut list: Vec<Workload> = Vec::new();
        match self {
            Workload::All => {
                list.push(Workload::SeqRead);
                list.push(Workload::SeqWrite);
                list.push(Workload::RandRead);
                list.push(Workload::RandWrite);
                list.push(Workload::SeqMixed);
                list.push(Workload::RandMixed);
            },
            _ => {
                list.push(*self);
            },
        }
        list
    }
}

impl std::str::FromStr for Workload {
    type Err = ConfigError;

    /// The workload that `s` names, whatever the case of its letters.
    fn from_str(s: &str) -> (r: Result<Self, Self::Err>)
        ensures
            r == match workload_named(lowercased(s@)) {
                Some(w) => Ok::<Workload, ConfigError>(w),
                None => Err(ConfigError::InvalidWorkload),
            },
    {
        Workload::parse(s)
    }
}

impl From<Workload> for IoMode {
    fn from(workload: Workload) -> (mode: IoMode) {
        match workload {
            Workload::SeqRead | Workload::SeqWrite | Workload::SeqMixed => IoMode::Sequential,
            Workload::RandRead | Workload::RandWrite | Workload::RandMixed => IoMode::Random,
            Workload::All => IoMode::Sequential,
        }
    }
}

impl vstd::std_specs::convert::FromSpecImpl<Workload> for IoMode {
    open spec fn obeys_from_spec() -> bool {
        true
    }

    open spec fn from_spec(workload: Workload) -> IoMode {
        workload.spec_mode()
    }
}

/// Parameters that the tuner adjusts between runs.
#[derive(Debug, Clone, Copy, PartialEq, Eq, Structural)]
pub struct TestParams {
    pub queue_depth: usize,
    pub block_size: usize,
    pub num_threads: usize,
    pub io_pattern: IoMode,
    /// Share of reads, 0 to 100.
    pub read_percent: u8,
    pub num_jobs: usize,
}

/// Calls `num_cpus::get`: the number of logical cores available to this
/// process, which the crate documents to be at least one.
#[verifier::external_body]
pub(crate) fn available_cpus() -> (n: usize)
    ensures
        n >= 1,
{
    num_cpus::get()
}

impl TestParams {
    /// The starting parameters for a machine with `num_threads` cores.
    pub open spec fn spec_with_threads(num_threads: usize) -> TestParams {
        TestParams {
            queue_depth: 32,
            block_size: 65536,
            num_threads,
            io_pattern: IoMode::Sequential,
            read_percent: 100,
            num_jobs: 1,
        }
    }

    /// The starting parameters for a machine with `num_threads` cores.
    pub fn with_threads(num_threads: usize) -> (p: TestParams)
        ensures
            p == Self::spec_with_threads(num_threads),
    {
        TestParams {
            queue_depth: 32,
            block_size: 65536,
            num_threads,
            io_pattern: IoMode::Sequential,
            read_percent: 100,
            num_jobs: 1,
        }
    }
}

impl Default for TestParams {
    /// The starting parameters, with one thread per available core.
    fn default() -> (p: Self)
        ensures
            p.num_threads >= 1,
            p == TestParams::spec_with_threads(p.num_threads),
    {
        TestParams::with_threads(available_cpus())
    }
}

} // verus!
