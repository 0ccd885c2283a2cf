//! Processor load, in hundredths of a percent.

use vstd::prelude::*;

verus! {

/// The load of the processors. Utilisation is counted in hundredths of a
/// percent, so that 9000 stands for 90 %.
#[derive(Debug, Clone)]
pub struct CpuMetrics {
    pub utilization_per_core: Vec<u32>,
    pub avg_utilization: u32,
    pub frequency_mhz: Vec<u64>,
}

/// The sum of the values of `s`.
pub open spec fn sum_u32(s: Seq<u32>) -> nat
    decreases s.len(),
{
    if s.len() == 0 {
        0
    } else {
        sum_u32(s.drop_last()) + s.last() as nat
    }
}

/// The mean of the values of `s`, rounded down; zero for no values.
pub open spec fn mean_u32(s: Seq<u32>) -> nat {
    if s.len() == 0 {
        0
    } else {
        sum_u32(s) / s.len()
    }
}

/// The positions of the values of `s` above `threshold`, ascending.
pub open spec fn positions_above(s: Seq<u32>, threshold: u32) -> Seq<usize>
    decreases s.len(),
{
    if s.len() == 0 {
        Seq::empty()
    } else if s.last() > threshold {
        positions_above(s.drop_last(), threshold).push((s.len() - 1) as usize)
    } else {
        positions_above(s.drop_last(), threshold)
    }
}

impl CpuMetrics {
    /// The metrics for the utilisation and frequency of each core; the
    /// average is the mean utilisation, rounded down.
    pub fn from_cores(utilization_per_core: Vec<u32>, frequency_mhz: Vec<u64>) -> (metrics:
        CpuMetrics)
        ensures
            metrics.utilization_per_core@ == utilization_per_core@,
            metrics.frequency_mhz@ == frequency_mhz@,
            metrics.avg_utilization == mean_u32(utilization_per_core@),
    {
        let n = utilization_per_core.len();
        let mut sum: u128 = 0;
        let mut i: usize = 0;
        while i < n
            invariant
                i <= n == utilization_per_core.len(),
                sum == sum_u32(utilization_per_core@.take(i as int)),
                sum <= i * 0xffff_ffff,
            decreases n - i,
        {
            proof {
                assert(utilization_per_core@.take(i + 1).drop_last() == utilization_per_core@.take(
                    i as int,
                ));
                assert(i * 0xffff_ffff + 0xffff_ffff == (i + 1) * 0xffff_ffff)
                    by (nonlinear_arith);
                assert(i * 0xffff_ffff <= 0xffff_ffff_ffff_ffff * 0xffff_ffff)
                    by (nonlinear_arith)
                    requires
                        i <= 0xffff_ffff_ffff_ffff,
                ;
            }
            sum = sum + utilization_per_core[i] as u128;
            i = i + 1;
        }
        assert(utilization_per_core@.take(n as int) == utilization_per_core@);
        let avg_utilization: u32 = if n == 0 {
            0
        } else {
            let mean = sum / (n as u128);
            assert(mean <= 0xffff_ffff) by (nonlinear_arith)
                requires
                    mean == sum / (n as u128),
                    n > 0,
                    sum <= n * 0xffff_ffff,
            ;
            mean as u32
        };
        CpuMetrics { utilization_per_core, avg_utilization, frequency_mhz }
    }

    /// Whether the average utilisation lies above `threshold`.
    pub fn is_cpu_bound(&self, threshold: u32) -> (bound: bool)
        ensures
            bound == (self.avg_utilization > threshold),
    {
        self.avg_utilization > threshold
    }

    /// The cores whose utilisation lies above `threshold`, ascending.
    pub fn hot_cores(&self, threshold: u32) -> (cores: Vec<usize>)
        ensures
            cores@ == positions_above(self.utilization_per_core@, threshold),
    {
        let mut cores: Vec<usize> = Vec::new();
        let mut i: usize = 0;
        while i < self.utilization_per_core.len()
            invariant
                i <= self.utilization_per_core.len(),
                cores@ == positions_above(self.utilization_per_core@.take(i as int), threshold),
            decreases self.utilization_per_core.len() - i,
        {
            assert(self.utilization_per_core@.take(i + 1).drop_last()
                == self.utilization_per_core@.take(i as int));
            if self.utilization_per_core[i] > threshold {
                cores.push(i);
            }
            i = i + 1;
        }
        assert(self.utilization_per_core@.take(self.utilization_per_core.len() as int)
            == self.utilization_per_core@);
        cores
    }
}

} // verus!
