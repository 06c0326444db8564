//! The plain-text health report: an audit pass rendered as one string.

use crate::audit::{
    audit_matches, is_audited_history, issues_of, lemma_same_matches, recommendations_of,
    status_of, synergy_score_micro, ModuleAudit, ModuleStatus,
};
use crate::coordinator::HypergraphCoordinator;
use crate::matrix::MatrixEntry;
use crate::metrics::{memory_efficiency_of, synergy_coefficient_of};
use crate::names::deep_view;
use crate::num::{dec_of, pct_of, pct_string, u64_to_dec, unit2_of, unit2_string};
use crate::registry::ModuleRecord;
use vstd::prelude::*;

verus! {

/// The word used for a status in the report.
pub open spec fn status_word(st: ModuleStatus) -> Seq<char> {
    match st {
        ModuleStatus::Healthy => "healthy"@,
        ModuleStatus::Warning => "warning"@,
        ModuleStatus::Critical => "critical"@,
        ModuleStatus::Disconnected => "disconnected"@,
    }
}

fn status_str(st: ModuleStatus) -> (r: &'static str)
    ensures
        r@ == status_word(st),
{
    match st {
        ModuleStatus::Healthy => "healthy",
        ModuleStatus::Warning => "warning",
        ModuleStatus::Critical => "critical",
        ModuleStatus::Disconnected => "disconnected",
    }
}

/// Each item on a line of its own behind the prefix.
pub open spec fn prefixed_lines(prefix: Seq<char>, items: Seq<Seq<char>>) -> Seq<char>
    decreases items.len(),
{
    if items.len() == 0 {
        Seq::empty()
    } else {
        prefixed_lines(prefix, items.drop_last()) + prefix + items.last() + "\n"@
    }
}

/// The report section of one module.
pub open spec fn module_block(
    r: ModuleRecord,
    n_modules: int,
    matrix: Seq<MatrixEntry>,
    now: u64,
) -> Seq<char> {
    let score = synergy_score_micro(r, n_modules, matrix);
    "["@ + status_word(status_of(r, score)) + "] "@ + r.name@ + " (synergy: "@ + pct_of(
        score as int,
    ) + "%, connections: "@ + dec_of(r.active_connections@.len() as int) + ")\n"@ + prefixed_lines(
        "  issue: "@,
        issues_of(r, score, now),
    ) + prefixed_lines("  recommendation: "@, recommendations_of(r, score, now))
}

/// The report sections of the first `k` modules, in order.
pub open spec fn details_upto(
    es: Seq<ModuleRecord>,
    matrix: Seq<MatrixEntry>,
    now: u64,
    k: int,
) -> Seq<char>
    decreases k,
{
    if k <= 0 {
        Seq::empty()
    } else {
        details_upto(es, matrix, now, k - 1) + module_block(
            es[k - 1],
            es.len() as int,
            matrix,
            now,
        )
    }
}

/// How many of the first `k` modules classify as `st`.
pub open spec fn count_status_upto(
    es: Seq<ModuleRecord>,
    matrix: Seq<MatrixEntry>,
    st: ModuleStatus,
    k: int,
) -> int
    decreases k,
{
    if k <= 0 {
        0
    } else {
        count_status_upto(es, matrix, st, k - 1) + if status_of(
            es[k - 1],
            synergy_score_micro(es[k - 1], es.len() as int, matrix),
        ) == st {
            1int
        } else {
            0int
        }
    }
}

/// The whole report, as a function of the audited state and the audit
/// time.
pub open spec fn report_of(
    es: Seq<ModuleRecord>,
    matrix: Seq<MatrixEntry>,
    total_operations: u64,
    average_response_micro_ms: u64,
    now: u64,
) -> Seq<char> {
    "=== Hypergraph Synergy Report ===\n\nPerformance Metrics:\n  Total Operations: "@ + dec_of(
        total_operations as int,
    ) + "\n  Average Response Time: "@ + unit2_of(average_response_micro_ms as int) + "ms\n  Memory Efficiency: "@
        + pct_of(memory_efficiency_of(es) as int) + "%\n  Synergy Coefficient: "@ + pct_of(
        synergy_coefficient_of(es, matrix) as int,
    ) + "%\n\nModule Status Summary:\n  Healthy: "@ + dec_of(
        count_status_upto(es, matrix, ModuleStatus::Healthy, es.len() as int),
    ) + "\n  Warning: "@ + dec_of(
        count_status_upto(es, matrix, ModuleStatus::Warning, es.len() as int),
    ) + "\n  Critical: "@ + dec_of(
        count_status_upto(es, matrix, ModuleStatus::Critical, es.len() as int),
    ) + "\n  Disconnected: "@ + dec_of(
        count_status_upto(es, matrix, ModuleStatus::Disconnected, es.len() as int),
    ) + "\n\nModule Details:\n"@ + details_upto(es, matrix, now, es.len() as int)
}

/// Render one audit record as its report section.
fn render_module(a: &ModuleAudit) -> (r: String)
    ensures
        r@ == "["@ + status_word(a.status) + "] "@ + a.module_name@ + " (synergy: "@ + pct_of(
            a.synergy_score_micro as int,
        ) + "%, connections: "@ + dec_of(a.hypergraph_connections as int) + ")\n"@ + prefixed_lines(
            "  issue: "@,
            deep_view(a.issues@),
        ) + prefixed_lines("  recommendation: "@, deep_view(a.recommendations@)),
{
    let mut s = "[".to_owned();
    s.append(status_str(a.status));
    s.append("] ");
    s.append(a.module_name.as_str());
    s.append(" (synergy: ");
    let p = pct_string(a.synergy_score_micro);
    s.append(p.as_str());
    s.append("%, connections: ");
    let d = u64_to_dec(a.hypergraph_connections as u64);
    s.append(d.as_str());
    s.append(")\n");
    let ghost head = s@;
    let n_issues = a.issues.len();
    for j in 0..n_issues
        invariant
            n_issues == a.issues@.len(),
            s@ == head + prefixed_lines("  issue: "@, deep_view(a.issues@).take(j as int)),
    {
        s.append("  issue: ");
        s.append(a.issues[j].as_str());
        s.append("\n");
        proof {
            let items = deep_view(a.issues@);
            assert(items.take(j + 1).drop_last() =~= items.take(j as int));
            assert(items.take(j + 1).last() == a.issues@[j as int]@);
        }
    }
    proof {
        assert(deep_view(a.issues@).take(a.issues@.len() as int) =~= deep_view(a.issues@));
    }
    let ghost head2 = s@;
    let n_recs = a.recommendations.len();
    for j in 0..n_recs
        invariant
            n_recs == a.recommendations@.len(),
            s@ == head2 + prefixed_lines(
                "  recommendation: "@,
                deep_view(a.recommendations@).take(j as int),
            ),
    {
        s.append("  recommendation: ");
        s.append(a.recommendations[j].as_str());
        s.append("\n");
        proof {
            let items = deep_view(a.recommendations@);
            assert(items.take(j + 1).drop_last() =~= items.take(j as int));
            assert(items.take(j + 1).last() == a.recommendations@[j as int]@);
        }
    }
    proof {
        assert(deep_view(a.recommendations@).take(a.recommendations@.len() as int) =~= deep_view(
            a.recommendations@,
        ));
    }
    s
}

impl HypergraphCoordinator {
    /// Audit every module and render the results, the performance
    /// indicators and a status summary as a plain-text report.  The audit
    /// pass feeds the history exactly as `audit_core_modules` does.
    pub fn generate_health_report(&mut self) -> (r: String)
        requires
            old(self).inv(),
        ensures
            final(self).inv(),
            final(self).clock_ms >= old(self).clock_ms,
            final(self).records == old(self).records,
            final(self).matrix == old(self).matrix,
            final(self).total_operations == old(self).total_operations,
            final(self).average_response_micro_ms == old(self).average_response_micro_ms,
            is_audited_history(
                old(self).audit_history@,
                old(self).records@,
                old(self).matrix@,
                final(self).clock_ms,
                final(self).audit_history@,
            ),
            r@ == report_of(
                old(self).records@,
                old(self).matrix@,
                old(self).total_operations,
                old(self).average_response_micro_ms,
                final(self).clock_ms,
            ),
    {
        let ghost es = old(self).records@;
        let ghost mx = old(self).matrix@;
        let audits = self.audit_core_modules();
        let t = self.clock_ms;
        proof {
            let h0 = old(self).audit_history@;
            let h1 = self.audit_history@;
            let full = h0 + audits@;
            let drop = crate::audit::truncate_drop(full.len() as int);
            assert forall|i: int|
                0 <= i < h1.len() && i + drop >= h0.len() implies audit_matches(
                #[trigger] h1[i],
                es[i + drop - h0.len()],
                es.len() as int,
                mx,
                t,
            ) by {
                assert(crate::audit::audit_same(h1[i], full[i + drop]));
                assert(full[i + drop] == audits@[i + drop - h0.len()]);
                lemma_same_matches(
                    h1[i],
                    audits@[i + drop - h0.len()],
                    es[i + drop - h0.len()],
                    es.len() as int,
                    mx,
                    t,
                );
            }
        }
        let metrics = self.get_performance_metrics();
        let mut s = "=== Hypergraph Synergy Report ===\n\nPerformance Metrics:\n  Total Operations: "
            .to_owned();
        let d1 = u64_to_dec(metrics.total_operations);
        s.append(d1.as_str());
        s.append("\n  Average Response Time: ");
        let d2 = unit2_string(metrics.average_response_micro_ms);
        s.append(d2.as_str());
        s.append("ms\n  Memory Efficiency: ");
        let d3 = pct_string(metrics.memory_efficiency_micro);
        s.append(d3.as_str());
        s.append("%\n  Synergy Coefficient: ");
        let d4 = pct_string(metrics.synergy_coefficient_micro);
        s.append(d4.as_str());
        s.append("%\n\nModule Status Summary:\n  Healthy: ");
        let n = audits.len();
        let mut healthy: u64 = 0;
        let mut warning: u64 = 0;
        let mut critical: u64 = 0;
        let mut disconnected: u64 = 0;
        for i in 0..n
            invariant
                n == audits@.len(),
                n == es.len(),
                forall|k: int|
                    0 <= k < n ==> audit_matches(#[trigger] audits@[k], es[k], n as int, mx, t),
                healthy == count_status_upto(es, mx, ModuleStatus::Healthy, i as int),
                warning == count_status_upto(es, mx, ModuleStatus::Warning, i as int),
                critical == count_status_upto(es, mx, ModuleStatus::Critical, i as int),
                disconnected == count_status_upto(es, mx, ModuleStatus::Disconnected, i as int),
                healthy + warning + critical + disconnected == i,
        {
            match audits[i].status {
                ModuleStatus::Healthy => {
                    healthy = healthy + 1;
                },
                ModuleStatus::Warning => {
                    warning = warning + 1;
                },
                ModuleStatus::Critical => {
                    critical = critical + 1;
                },
                ModuleStatus::Disconnected => {
                    disconnected = disconnected + 1;
                },
            }
        }
        let c1 = u64_to_dec(healthy);
        s.append(c1.as_str());
        s.append("\n  Warning: ");
        let c2 = u64_to_dec(warning);
        s.append(c2.as_str());
        s.append("\n  Critical: ");
        let c3 = u64_to_dec(critical);
        s.append(c3.as_str());
        s.append("\n  Disconnected: ");
        let c4 = u64_to_dec(disconnected);
        s.append(c4.as_str());
        s.append("\n\nModule Details:\n");
        let ghost head = s@;
        for i in 0..n
            invariant
                n == audits@.len(),
                n == es.len(),
                forall|k: int|
                    0 <= k < n ==> audit_matches(#[trigger] audits@[k], es[k], n as int, mx, t),
                s@ == head + details_upto(es, mx, t, i as int),
        {
            let block = render_module(&audits[i]);
            s.append(block.as_str());
            proof {
                assert(block@ == module_block(es[i as int], es.len() as int, mx, t));
            }
        }
        proof {
            assert(s@ =~= report_of(
                es,
                mx,
                old(self).total_operations,
                old(self).average_response_micro_ms,
                t,
            ));
        }
        s
    }
}

} // verus!
