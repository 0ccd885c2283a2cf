//! Adjusting the test parameters to the bottleneck that was found.

use crate::config::TestParams;
use crate::monitor::collector::{BottleneckKind, BottleneckReport};
use vstd::prelude::*;

verus! {

/// The largest block size that the tuner goes up to.
pub const MAX_BLOCK_SIZE: usize = 1048576;

/// The smallest block size that the tuner goes down to.
pub const MIN_BLOCK_SIZE: usize = 4096;

/// The deepest queue that the tuner goes up to.
pub const MAX_TUNED_QUEUE_DEPTH: usize = 1024;

/// `a` or `b`, whichever is smaller.
pub open spec fn min_of(a: int, b: int) -> int {
    if a < b {
        a
    } else {
        b
    }
}

/// `a` or `b`, whichever is larger.
pub open spec fn max_of(a: int, b: int) -> int {
    if a > b {
        a
    } else {
        b
    }
}

/// The parameters after easing the load on the processors: three quarters
/// of the threads where there is more than one, else blocks twice as large,
/// up to `MAX_BLOCK_SIZE`.
pub open spec fn cpu_load_reduced(p: TestParams) -> TestParams {
    if p.num_threads > 1 {
        TestParams { num_threads: max_of(p.num_threads * 3 / 4, 1) as usize, ..p }
    } else {
        TestParams { block_size: min_of(p.block_size * 2, MAX_BLOCK_SIZE as int) as usize, ..p }
    }
}

/// The parameters after easing the load on memory: blocks half as large,
/// down to `MIN_BLOCK_SIZE`.
pub open spec fn memory_usage_reduced(p: TestParams) -> TestParams {
    TestParams { block_size: max_of(p.block_size as int / 2, MIN_BLOCK_SIZE as int) as usize, ..p }
}

/// The parameters after giving the device more to do: a queue twice as
/// deep, up to `MAX_TUNED_QUEUE_DEPTH`.
pub open spec fn io_capacity_increased(p: TestParams) -> TestParams {
    TestParams {
        queue_depth: min_of(p.queue_depth * 2, MAX_TUNED_QUEUE_DEPTH as int) as usize,
        ..p
    }
}

/// The parameters after a step towards more throughput: a queue deeper by a
/// tenth, up to `MAX_TUNED_QUEUE_DEPTH`.
pub open spec fn throughput_optimized(p: TestParams) -> TestParams {
    TestParams {
        queue_depth: min_of(p.queue_depth * 11 / 10, MAX_TUNED_QUEUE_DEPTH as int) as usize,
        ..p
    }
}

/// The parameters that answer a bottleneck of the given kind.
pub open spec fn tuned_for(p: TestParams, kind: BottleneckKind) -> TestParams {
    match kind {
        BottleneckKind::CpuBound => cpu_load_reduced(p),
        BottleneckKind::MemoryBound => memory_usage_reduced(p),
        BottleneckKind::IoBound => io_capacity_increased(p),
        BottleneckKind::NumaBound => p,
        BottleneckKind::Balanced => throughput_optimized(p),
    }
}

/// `n * numerator / denominator`, rounded down, or `limit` where that is
/// smaller.
fn scaled_up_to(n: usize, numerator: u8, denominator: u8, limit: usize) -> (r: usize)
    requires
        denominator > 0,
    ensures
        r == min_of(n * numerator / (denominator as int), limit as int),
{
    assert(n * numerator <= 0xffff_ffff_ffff_ffff * 255) by (nonlinear_arith)
        requires
            n <= 0xffff_ffff_ffff_ffff,
            numerator <= 255,
    ;
    let scaled: u128 = (n as u128) * (numerator as u128) / (denominator as u128);
    if scaled < limit as u128 {
        scaled as usize
    } else {
        limit
    }
}

/// Keeps the parameters of a series of runs and adjusts them run by run.
pub struct ParameterTuner {
    current_params: TestParams,
    iteration: usize,
}

impl ParameterTuner {
    pub closed spec fn spec_current_params(&self) -> TestParams {
        self.current_params
    }

    /// The number of adjustments made, held at the largest value of the
    /// machine word.
    pub closed spec fn spec_iteration(&self) -> usize {
        self.iteration
    }

    /// A tuner that starts from the default parameters.
    pub fn new() -> (tuner: ParameterTuner)
        ensures
            tuner.spec_iteration() == 0,
            tuner.spec_current_params().num_threads >= 1,
            tuner.spec_current_params() == TestParams::spec_with_threads(
                tuner.spec_current_params().num_threads,
            ),
    {
        ParameterTuner { current_params: TestParams::default(), iteration: 0 }
    }

    /// A tuner that starts from `params`.
    pub fn with_params(params: TestParams) -> (tuner: ParameterTuner)
        ensures
            tuner.spec_iteration() == 0,
            tuner.spec_current_params() == params,
    {
        ParameterTuner { current_params: params, iteration: 0 }
    }

    /// Adjusts the parameters to the bottleneck that `report` names and
    /// gives the new ones.
    pub fn tune(&mut self, report: &BottleneckReport) -> (params: TestParams)
        ensures
            params == tuned_for(old(self).spec_current_params(), report.bottleneck.spec_kind()),
            final(self).spec_current_params() == params,
            final(self).spec_iteration() == if old(self).spec_iteration() == usize::MAX {
                usize::MAX
            } else {
                (old(self).spec_iteration() + 1) as usize
            },
    {
        self.iteration = self.iteration.saturating_add(1);
        match report.bottleneck.kind() {
            BottleneckKind::CpuBound => self.reduce_cpu_load(),
            BottleneckKind::MemoryBound => self.reduce_memory_usage(),
            BottleneckKind::IoBound => self.increase_io_capacity(),
            BottleneckKind::NumaBound => self.optimize_numa(),
            BottleneckKind::Balanced => self.optimize_for_throughput(),
        }
        self.current_params
    }

    /// Eases the load on the processors.
    pub fn reduce_cpu_load(&mut self)
        ensures
            final(self).spec_current_params() == cpu_load_reduced(old(self).spec_current_params()),
            final(self).spec_iteration() == old(self).spec_iteration(),
    {
        if self.current_params.num_threads > 1 {
            let reduced = scaled_up_to(self.current_params.num_threads, 3, 4, usize::MAX);
            self.current_params.num_threads = if reduced < 1 {
                1
            } else {
                reduced
            };
        } else {
            self.current_params.block_size = scaled_up_to(
                self.current_params.block_size,
                2,
                1,
                MAX_BLOCK_SIZE,
            );
        }
    }

    /// Eases the load on memory.
    pub fn reduce_memory_usage(&mut self)
        ensures
            final(self).spec_current_params() == memory_usage_reduced(
                old(self).spec_current_params(),
            ),
            final(self).spec_iteration() == old(self).spec_iteration(),
    {
        let halved = self.current_params.block_size / 2;
        self.current_params.block_size = if halved > MIN_BLOCK_SIZE {
            halved
        } else {
            MIN_BLOCK_SIZE
        };
    }

    /// Gives the device more to do.
    pub fn increase_io_capacity(&mut self)
        ensures
            final(self).spec_current_params() == io_capacity_increased(
                old(self).spec_current_params(),
            ),
            final(self).spec_iteration() == old(self).spec_iteration(),
    {
        self.current_params.queue_depth = scaled_up_to(
            self.current_params.queue_depth,
            2,
            1,
            MAX_TUNED_QUEUE_DEPTH,
        );
    }

    /// Adjusts to the NUMA topology: the parameters stay as they are.
    pub fn optimize_numa(&mut self)
        ensures
            *final(self) == *old(self),
    {
    }

    /// Takes a step towards more throughput.
    pub fn optimize_for_throughput(&mut self)
        ensures
            final(self).spec_current_params() == throughput_optimized(
                old(self).spec_current_params(),
            ),
            final(self).spec_iteration() == old(self).spec_iteration(),
    {
        self.current_params.queue_depth = scaled_up_to(
            self.current_params.queue_depth,
            11,
            10,
            MAX_TUNED_QUEUE_DEPTH,
        );
    }

    /// The parameters as they stand.
    pub fn current_params(&self) -> (params: &TestParams)
        ensures
            *params == self.spec_current_params(),
    {
        &self.current_params
    }

    /// The number of adjustments made.
    pub fn iteration(&self) -> (n: usize)
        ensures
            n == self.spec_iteration(),
    {
        self.iteration
    }
}

impl Default for ParameterTuner {
    fn default() -> (tuner: Self)
        ensures
            tuner.spec_iteration() == 0,
            tuner.spec_current_params().num_threads >= 1,
            tuner.spec_current_params() == TestParams::spec_with_threads(
                tuner.spec_current_params().num_threads,
            ),
    {
        ParameterTuner::new()
    }
}

} // verus!
