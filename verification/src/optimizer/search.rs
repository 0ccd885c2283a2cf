//! Strategies for walking the space of test parameters.

use crate::config::TestParams;
use crate::monitor::collector::{BottleneckKind, BottleneckReport};
use crate::optimizer::tuner::{
    io_capacity_increased, memory_usage_reduced, min_of, MAX_TUNED_QUEUE_DEPTH, MIN_BLOCK_SIZE,
};
use vstd::prelude::*;

verus! {

/// How the next parameters are chosen.
#[derive(Debug, Clone, Copy, PartialEq, Eq, Structural)]
pub enum SearchStrategy {
    Exhaustive,
    Genetic,
    SimulatedAnnealing,
    Adaptive,
}

/// The parameters that the adaptive search tries after a bottleneck of the
/// given kind: half the threads for busy processors, or blocks twice as
/// large where one thread is left; blocks half as large for busy memory; a
/// queue twice as deep for a busy device and for a balanced system.
pub open spec fn adapted_for(p: TestParams, kind: BottleneckKind) -> TestParams {
    match kind {
        BottleneckKind::CpuBound => if p.num_threads > 1 {
            TestParams { num_threads: p.num_threads / 2, ..p }
        } else {
            TestParams { block_size: min_of(p.block_size * 2, usize::MAX as int) as usize, ..p }
        },
        BottleneckKind::MemoryBound => memory_usage_reduced(p),
        BottleneckKind::IoBound => io_capacity_increased(p),
        BottleneckKind::NumaBound => p,
        BottleneckKind::Balanced => io_capacity_increased(p),
    }
}

/// Walks the space of test parameters and remembers the best found. Scores
/// are whole numbers, larger is better.
pub struct SearchEngine {
    strategy: SearchStrategy,
    current_params: TestParams,
    best_params: Option<TestParams>,
    best_score: u64,
}

impl SearchEngine {
    pub closed spec fn spec_strategy(&self) -> SearchStrategy {
        self.strategy
    }

    pub closed spec fn spec_current_params(&self) -> TestParams {
        self.current_params
    }

    pub closed spec fn spec_best_params(&self) -> Option<TestParams> {
        self.best_params
    }

    pub closed spec fn spec_best_score(&self) -> u64 {
        self.best_score
    }

    /// An engine that starts from the default parameters, with nothing
    /// scored yet.
    pub fn new(strategy: SearchStrategy) -> (engine: SearchEngine)
        ensures
            engine.spec_strategy() == strategy,
            engine.spec_best_params() is None,
            engine.spec_best_score() == 0,
            engine.spec_current_params().num_threads >= 1,
            engine.spec_current_params() == TestParams::spec_with_threads(
                engine.spec_current_params().num_threads,
            ),
    {
        SearchEngine {
            strategy,
            current_params: TestParams::default(),
            best_params: None,
            best_score: 0,
        }
    }

    /// An engine that starts from `params`.
    pub fn with_params(strategy: SearchStrategy, params: TestParams) -> (engine: SearchEngine)
        ensures
            engine.spec_strategy() == strategy,
            engine.spec_best_params() is None,
            engine.spec_best_score() == 0,
            engine.spec_current_params() == params,
    {
        SearchEngine { strategy, current_params: params, best_params: None, best_score: 0 }
    }

    /// The parameters to try next. The adaptive strategy answers the
    /// bottleneck that `report` names; the others stay where they are.
    pub fn next_params(&mut self, report: &BottleneckReport) -> (params: TestParams)
        ensures
            params == if old(self).spec_strategy() is Adaptive {
                adapted_for(old(self).spec_current_params(), report.bottleneck.spec_kind())
            } else {
                old(self).spec_current_params()
            },
            final(self).spec_current_params() == params,
            final(self).spec_strategy() == old(self).spec_strategy(),
            final(self).spec_best_params() == old(self).spec_best_params(),
            final(self).spec_best_score() == old(self).spec_best_score(),
    {
        match self.strategy {
            SearchStrategy::Adaptive => self.adaptive_search(report),
            SearchStrategy::Exhaustive => self.exhaustive_search(),
            SearchStrategy::Genetic => self.genetic_search(),
            SearchStrategy::SimulatedAnnealing => self.simulated_annealing(),
        }
    }

    /// Answers the bottleneck that `report` names.
    pub fn adaptive_search(&mut self, report: &BottleneckReport) -> (params: TestParams)
        ensures
            params == adapted_for(old(self).spec_current_params(), report.bottleneck.spec_kind()),
            final(self).spec_current_params() == params,
            final(self).spec_strategy() == old(self).spec_strategy(),
            final(self).spec_best_params() == old(self).spec_best_params(),
            final(self).spec_best_score() == old(self).spec_best_score(),
    {
        let mut params = self.current_params;
        match report.bottleneck.kind() {
            BottleneckKind::CpuBound => {
                if params.num_threads > 1 {
                    params.num_threads = params.num_threads / 2;
                } else {
                    params.block_size = match params.block_size.checked_mul(2) {
                        Some(doubled) => doubled,
                        None => usize::MAX,
                    };
                }
            },
            BottleneckKind::MemoryBound => {
                let halved = params.block_size / 2;
                params.block_size = if halved > MIN_BLOCK_SIZE {
                    halved
                } else {
                    MIN_BLOCK_SIZE
                };
            },
            BottleneckKind::IoBound | BottleneckKind::Balanced => {
                params.queue_depth = match params.queue_depth.checked_mul(2) {
                    Some(doubled) => if doubled < MAX_TUNED_QUEUE_DEPTH {
                        doubled
                    } else {
                        MAX_TUNED_QUEUE_DEPTH
                    },
                    None => MAX_TUNED_QUEUE_DEPTH,
                };
            },
            BottleneckKind::NumaBound => {},
        }
        self.current_params = params;
        params
    }

    /// The exhaustive strategy: the parameters stay as they are.
    pub fn exhaustive_search(&mut self) -> (params: TestParams)
        ensures
            params == old(self).spec_current_params(),
            *final(self) == *old(self),
    {
        self.current_params
    }

    /// The genetic strategy: the parameters stay as they are.
    pub fn genetic_search(&mut self) -> (params: TestParams)
        ensures
            params == old(self).spec_current_params(),
            *final(self) == *old(self),
    {
        self.current_params
    }

    /// Simulated annealing: the parameters stay as they are.
    pub fn simulated_annealing(&mut self) -> (params: TestParams)
        ensures
            params == old(self).spec_current_params(),
            *final(self) == *old(self),
    {
        self.current_params
    }

    /// Remembers `params` as the best if `score` beats the best score so
    /// far.
    pub fn record_result(&mut self, params: &TestParams, score: u64)
        ensures
            final(self).spec_strategy() == old(self).spec_strategy(),
            final(self).spec_current_params() == old(self).spec_current_params(),
            score > old(self).spec_best_score() ==> final(self).spec_best_score() == score
                && final(self).spec_best_params() == Some(*params),
            score <= old(self).spec_best_score() ==> final(self).spec_best_score() == old(
                self,
            ).spec_best_score() && final(self).spec_best_params() == old(self).spec_best_params(),
    {
        if score > self.best_score {
            self.best_score = score;
            self.best_params = Some(*params);
        }
    }

    /// The best parameters scored so far.
    pub fn best_params(&self) -> (best: Option<&TestParams>)
        ensures
            match best {
                Some(params) => self.spec_best_params() == Some(*params),
                None => self.spec_best_params() is None,
            },
    {
        self.best_params.as_ref()
    }
}

} // verus!
