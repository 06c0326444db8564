//! Global performance indicators, derived from the coordinator's state on
//! every read.

use crate::audit::{score_of_record, synergy_score_micro};
use crate::coordinator::HypergraphCoordinator;
use crate::matrix::{mat_get, mat_strength, MatrixEntry};
use crate::num::{add64, sat_add};
use crate::registry::{contains_module, ModuleRecord};
use vstd::prelude::*;

verus! {

/// A snapshot of the global indicators.  `total_operations` and the
/// response-time average are kept live; the other two are derived when the
/// snapshot is taken.
#[derive(Clone, Copy, Debug)]
pub struct PerformanceMetrics {
    pub total_operations: u64,
    /// EWMA of activity durations, in micro-milliseconds.
    pub average_response_micro_ms: u64,
    /// In micro-units; 1_000_000 when no message has been counted.
    pub memory_efficiency_micro: u64,
    /// Mean per-module synergy score, in micro-units; 0 with no modules.
    pub synergy_coefficient_micro: u64,
}

/// Saturating sum of the message counts of the first `k` records.
pub open spec fn msg_sum_upto(es: Seq<ModuleRecord>, k: int) -> u64
    decreases k,
{
    if k <= 0 {
        0u64
    } else {
        sat_add(msg_sum_upto(es, k - 1), es[k - 1].message_count)
    }
}

/// Saturating sum of the memory usage of the first `k` records.
pub open spec fn mem_sum_upto(es: Seq<ModuleRecord>, k: int) -> u64
    decreases k,
{
    if k <= 0 {
        0u64
    } else {
        sat_add(mem_sum_upto(es, k - 1), es[k - 1].memory_usage)
    }
}

/// Saturating sum of the synergy scores of the first `k` records.
pub open spec fn score_sum_upto(es: Seq<ModuleRecord>, matrix: Seq<MatrixEntry>, k: int) -> u64
    decreases k,
{
    if k <= 0 {
        0u64
    } else {
        sat_add(
            score_sum_upto(es, matrix, k - 1),
            synergy_score_micro(es[k - 1], es.len() as int, matrix),
        )
    }
}

/// The mean synergy score over all modules, in micro-units.
pub open spec fn synergy_coefficient_of(es: Seq<ModuleRecord>, matrix: Seq<MatrixEntry>) -> u64 {
    if es.len() == 0 {
        0u64
    } else {
        ((score_sum_upto(es, matrix, es.len() as int) as int) / (es.len() as int)) as u64
    }
}

/// Memory efficiency in micro-units: with `N` counted messages and `M`
/// bytes in use, `1 / (1 + (M / N) / 1000)`; a full unit when `N` is 0.
pub open spec fn memory_efficiency_of(es: Seq<ModuleRecord>) -> u64 {
    let n = msg_sum_upto(es, es.len() as int) as int;
    let m = mem_sum_upto(es, es.len() as int) as int;
    if n == 0 {
        1_000_000u64
    } else {
        (1_000_000_000 * n / (1000 * n + m)) as u64
    }
}

impl HypergraphCoordinator {
    /// The synergy score of the named module, or 0 for an unknown name.
    pub fn calculate_synergy_score(&self, module_name: &str) -> (r: u64)
        requires
            self.inv(),
        ensures
            forall|i: int|
                0 <= i < self.records@.len() && #[trigger] self.records@[i].name@ == module_name@
                    ==> r == synergy_score_micro(
                    self.records@[i],
                    self.records@.len() as int,
                    self.matrix@,
                ),
            !contains_module(self.records@, module_name@) ==> r == 0,
    {
        match self.find_module(module_name) {
            Some(i) => {
                let r = score_of_record(&self.records[i], self.records.len(), &self.matrix);
                proof {
                    assert forall|j: int|
                        0 <= j < self.records@.len() && #[trigger] self.records@[j].name@
                            == module_name@ implies r == synergy_score_micro(
                        self.records@[j],
                        self.records@.len() as int,
                        self.matrix@,
                    ) by {
                        if j < i {
                            assert(self.records@[j].name@ != self.records@[i as int].name@);
                        } else if j > i {
                            assert(self.records@[i as int].name@ != self.records@[j].name@);
                        }
                    }
                }
                r
            },
            None => 0,
        }
    }

    /// The strength stored for the directed pair `(a, b)`, if any.
    pub fn connection_strength(&self, module_a: &str, module_b: &str) -> (r: Option<u64>)
        ensures
            r == mat_strength(self.matrix@, module_a@, module_b@),
    {
        mat_get(&self.matrix, &module_a.to_owned(), &module_b.to_owned())
    }

    /// A snapshot of the performance indicators, with the synergy
    /// coefficient and memory efficiency derived from the live state.
    pub fn get_performance_metrics(&self) -> (m: PerformanceMetrics)
        ensures
            m.total_operations == self.total_operations,
            m.average_response_micro_ms == self.average_response_micro_ms,
            m.memory_efficiency_micro == memory_efficiency_of(self.records@),
            m.synergy_coefficient_micro == synergy_coefficient_of(self.records@, self.matrix@),
    {
        let n = self.records.len();
        let mut scores: u64 = 0;
        let mut msgs: u64 = 0;
        let mut mem: u64 = 0;
        for i in 0..n
            invariant
                n == self.records@.len(),
                scores == score_sum_upto(self.records@, self.matrix@, i as int),
                msgs == msg_sum_upto(self.records@, i as int),
                mem == mem_sum_upto(self.records@, i as int),
        {
            let s = score_of_record(&self.records[i], n, &self.matrix);
            scores = add64(scores, s);
            msgs = add64(msgs, self.records[i].message_count);
            mem = add64(mem, self.records[i].memory_usage);
        }
        let coefficient: u64 = if n == 0 {
            0
        } else {
            scores / n as u64
        };
        let efficiency: u64 = if msgs == 0 {
            1_000_000
        } else {
            let num: u128 = 1_000_000_000u128 * msgs as u128;
            let den: u128 = 1000u128 * msgs as u128 + mem as u128;
            let q: u128 = num / den;
            proof {
                assert(num as int / den as int <= 1_000_000) by (nonlinear_arith)
                    requires
                        num as int == 1_000_000_000 * (msgs as int),
                        den as int == 1000 * (msgs as int) + mem as int,
                        msgs as int >= 1,
                        mem as int >= 0,
                ;
            }
            q as u64
        };
        PerformanceMetrics {
            total_operations: self.total_operations,
            average_response_micro_ms: self.average_response_micro_ms,
            memory_efficiency_micro: efficiency,
            synergy_coefficient_micro: coefficient,
        }
    }
}

} // verus!
