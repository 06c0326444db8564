//! Audit records: per-module synergy scoring, health classification, and
//! the issue and recommendation texts that go with each finding.

use crate::matrix::{mat_get, mat_strength, MatrixEntry};
use crate::names::{clone_strings, deep_view};
use crate::num::clamp_u64;
use crate::registry::ModuleRecord;
use vstd::prelude::*;

verus! {

/// The health classification of one module.
#[derive(Clone, Copy, Debug, PartialEq, Eq, Structural)]
pub enum ModuleStatus {
    Healthy,
    Warning,
    Critical,
    Disconnected,
}

/// One module's entry in an audit run.
pub struct ModuleAudit {
    pub module_name: String,
    pub status: ModuleStatus,
    pub synergy_score_micro: u64,
    pub hypergraph_connections: usize,
    pub last_checked_ms: u64,
    pub issues: Vec<String>,
    pub recommendations: Vec<String>,
}

/// Whether two audit records carry the same data.
pub open spec fn audit_same(a: ModuleAudit, b: ModuleAudit) -> bool {
    &&& a.module_name@ == b.module_name@
    &&& a.status == b.status
    &&& a.synergy_score_micro == b.synergy_score_micro
    &&& a.hypergraph_connections == b.hypergraph_connections
    &&& a.last_checked_ms == b.last_checked_ms
    &&& deep_view(a.issues@) == deep_view(b.issues@)
    &&& deep_view(a.recommendations@) == deep_view(b.recommendations@)
}

impl ModuleAudit {
    /// A copy that carries the same data.
    pub fn duplicate(&self) -> (r: ModuleAudit)
        ensures
            audit_same(r, *self),
    {
        ModuleAudit {
            module_name: self.module_name.clone(),
            status: self.status,
            synergy_score_micro: self.synergy_score_micro,
            hypergraph_connections: self.hypergraph_connections,
            last_checked_ms: self.last_checked_ms,
            issues: clone_strings(&self.issues),
            recommendations: clone_strings(&self.recommendations),
        }
    }
}

/// The strength of the edge from `me` to `peer`; an absent entry counts 0.
pub open spec fn strength_of(matrix: Seq<MatrixEntry>, me: Seq<char>, peer: Seq<char>) -> int {
    match mat_strength(matrix, me, peer) {
        Some(v) => v as int,
        None => 0,
    }
}

/// Sum of the strengths from `me` to its first `k` connections.
pub open spec fn strength_sum_upto(
    conns: Seq<String>,
    me: Seq<char>,
    matrix: Seq<MatrixEntry>,
    k: int,
) -> int
    decreases k,
{
    if k <= 0 {
        0
    } else {
        strength_sum_upto(conns, me, matrix, k - 1) + strength_of(matrix, me, conns[k - 1]@)
    }
}

/// The synergy score of a module, in micro-units: the mean of its
/// connectivity (connections over possible peers) and its average edge
/// strength, each weighted one half.  A lone module scores a full unit.
pub open spec fn synergy_score_micro(
    r: ModuleRecord,
    n_modules: int,
    matrix: Seq<MatrixEntry>,
) -> u64 {
    if n_modules <= 1 {
        1_000_000u64
    } else {
        let c = r.active_connections@.len() as int;
        let peers = n_modules - 1;
        let connectivity = c * 1_000_000 / peers;
        let strength = if c > 0 {
            strength_sum_upto(r.active_connections@, r.name@, matrix, c) / c
        } else {
            0
        };
        clamp_u64((connectivity + strength) / 2)
    }
}

/// Compute the synergy score of one record.
pub(crate) fn score_of_record(r: &ModuleRecord, n_modules: usize, matrix: &Vec<MatrixEntry>) -> (s:
    u64)
    ensures
        s == synergy_score_micro(*r, n_modules as int, matrix@),
{
    if n_modules <= 1 {
        return 1_000_000u64;
    }
    let c = r.active_connections.len();
    let peers = n_modules - 1;
    let connectivity: u128 = c as u128 * 1_000_000u128 / peers as u128;
    proof {
        assert(connectivity as int <= c as int * 1_000_000) by (nonlinear_arith)
            requires
                peers >= 1,
                connectivity as int == c as int * 1_000_000 / peers as int,
                c as int * 1_000_000 >= 0,
        ;
    }
    let mut sum: u128 = 0;
    for k in 0..c
        invariant
            c == r.active_connections@.len(),
            sum == strength_sum_upto(r.active_connections@, r.name@, matrix@, k as int),
            sum as int <= k as int * (u64::MAX as int),
    {
        let v = match mat_get(matrix, &r.name, &r.active_connections[k]) {
            Some(v) => v,
            None => 0,
        };
        proof {
            assert((k + 1) as int * (u64::MAX as int) == k as int * (u64::MAX as int) + (
            u64::MAX as int)) by (nonlinear_arith);
            assert((k + 1) as int * (u64::MAX as int) <= 0x1_0000_0000_0000_0000 * (
            u64::MAX as int)) by (nonlinear_arith)
                requires
                    k + 1 <= 0x1_0000_0000_0000_0000,
            ;
        }
        sum = sum + v as u128;
    }
    let strength: u128 = if c > 0 {
        proof {
            assert(sum as int / (c as int) <= u64::MAX as int) by (nonlinear_arith)
                requires
                    c as int >= 1,
                    sum as int <= c as int * (u64::MAX as int),
            ;
        }
        sum / c as u128
    } else {
        0
    };
    let total: u128 = (connectivity + strength) / 2;
    if total > u64::MAX as u128 {
        u64::MAX
    } else {
        total as u64
    }
}

/// The classification, by the stated priority: high errors, then no
/// connections, then a low score; otherwise healthy.
pub open spec fn status_of(r: ModuleRecord, score: u64) -> ModuleStatus {
    if r.error_count > 10 {
        ModuleStatus::Critical
    } else if r.active_connections@.len() == 0 {
        ModuleStatus::Disconnected
    } else if score < 500_000 {
        ModuleStatus::Warning
    } else {
        ModuleStatus::Healthy
    }
}

/// More than 300 seconds without recorded activity.
pub open spec fn is_stale(r: ModuleRecord, now: u64) -> bool {
    now - r.last_activity_ms > 300_000
}

/// Cognitive load above 0.9.
pub open spec fn is_overloaded(r: ModuleRecord) -> bool {
    r.cognitive_load_micro > 900_000
}

/// The issue texts that go with a classification.
pub open spec fn base_issues(st: ModuleStatus) -> Seq<Seq<char>> {
    match st {
        ModuleStatus::Critical => seq!["High error count detected"@],
        ModuleStatus::Disconnected => seq!["Module appears disconnected"@],
        ModuleStatus::Warning => seq!["Low synergy score"@],
        ModuleStatus::Healthy => Seq::empty(),
    }
}

/// The recommendation texts that go with a classification.
pub open spec fn base_recommendations(st: ModuleStatus) -> Seq<Seq<char>> {
    match st {
        ModuleStatus::Critical => seq!["Review error handling and add circuit breakers"@],
        ModuleStatus::Disconnected => seq!["Establish connections with related modules"@],
        ModuleStatus::Warning => seq!["Improve inter-module communication patterns"@],
        ModuleStatus::Healthy => Seq::empty(),
    }
}

/// All issues reported for a module: the classification's, then the
/// staleness probe's, then the load probe's.
pub open spec fn issues_of(r: ModuleRecord, score: u64, now: u64) -> Seq<Seq<char>> {
    base_issues(status_of(r, score)) + (if is_stale(r, now) {
        seq!["No recent activity"@]
    } else {
        Seq::empty()
    }) + (if is_overloaded(r) {
        seq!["High cognitive load"@]
    } else {
        Seq::empty()
    })
}

/// All recommendations reported for a module, in the same order.
pub open spec fn recommendations_of(r: ModuleRecord, score: u64, now: u64) -> Seq<Seq<char>> {
    base_recommendations(status_of(r, score)) + (if is_stale(r, now) {
        seq!["Verify module is active and responding"@]
    } else {
        Seq::empty()
    }) + (if is_overloaded(r) {
        seq!["Consider load balancing or resource optimization"@]
    } else {
        Seq::empty()
    })
}

/// Whether `a` is exactly the audit record of `r` in a registry of
/// `n_modules` modules, audited at time `now`.
pub open spec fn audit_matches(
    a: ModuleAudit,
    r: ModuleRecord,
    n_modules: int,
    matrix: Seq<MatrixEntry>,
    now: u64,
) -> bool {
    let score = synergy_score_micro(r, n_modules, matrix);
    &&& a.module_name@ == r.name@
    &&& a.status == status_of(r, score)
    &&& a.synergy_score_micro == score
    &&& a.hypergraph_connections == r.active_connections@.len()
    &&& a.last_checked_ms == now
    &&& deep_view(a.issues@) == issues_of(r, score, now)
    &&& deep_view(a.recommendations@) == recommendations_of(r, score, now)
}

/// Build the audit record of one module.
pub(crate) fn build_audit(
    r: &ModuleRecord,
    n_modules: usize,
    matrix: &Vec<MatrixEntry>,
    now: u64,
) -> (a: ModuleAudit)
    requires
        r.last_activity_ms <= now,
    ensures
        audit_matches(a, *r, n_modules as int, matrix@, now),
{
    let score = score_of_record(r, n_modules, matrix);
    let mut issues: Vec<String> = Vec::new();
    let mut recommendations: Vec<String> = Vec::new();
    let status = if r.error_count > 10 {
        issues.push("High error count detected".to_owned());
        recommendations.push("Review error handling and add circuit breakers".to_owned());
        ModuleStatus::Critical
    } else if r.active_connections.len() == 0 {
        issues.push("Module appears disconnected".to_owned());
        recommendations.push("Establish connections with related modules".to_owned());
        ModuleStatus::Disconnected
    } else if score < 500_000 {
        issues.push("Low synergy score".to_owned());
        recommendations.push("Improve inter-module communication patterns".to_owned());
        ModuleStatus::Warning
    } else {
        ModuleStatus::Healthy
    };
    proof {
        assert(deep_view(issues@) =~= base_issues(status_of(*r, score)));
        assert(deep_view(recommendations@) =~= base_recommendations(status_of(*r, score)));
    }
    if now - r.last_activity_ms > 300_000 {
        issues.push("No recent activity".to_owned());
        recommendations.push("Verify module is active and responding".to_owned());
    }
    if r.cognitive_load_micro > 900_000 {
        issues.push("High cognitive load".to_owned());
        recommendations.push("Consider load balancing or resource optimization".to_owned());
    }
    proof {
        assert(deep_view(issues@) =~= issues_of(*r, score, now));
        assert(deep_view(recommendations@) =~= recommendations_of(*r, score, now));
    }
    ModuleAudit {
        module_name: r.name.clone(),
        status,
        synergy_score_micro: score,
        hypergraph_connections: r.active_connections.len(),
        last_checked_ms: now,
        issues,
        recommendations,
    }
}

/// The bound on the audit history: when more than 1000 records are held,
/// the oldest 500 are dropped.
pub open spec fn truncate_drop(total: int) -> int {
    if total > 1000 {
        500
    } else {
        0
    }
}

/// Whether `h1` is the history `h0` extended by `added` and then bounded.
pub open spec fn is_history_after(
    h0: Seq<ModuleAudit>,
    added: Seq<ModuleAudit>,
    h1: Seq<ModuleAudit>,
) -> bool {
    let full = h0 + added;
    let drop = truncate_drop(full.len() as int);
    &&& h1.len() == full.len() - drop
    &&& forall|i: int| 0 <= i < h1.len() ==> audit_same(#[trigger] h1[i], full[i + drop])
}

/// Whether `h1` is the history `h0` after one audit pass over the modules
/// `es` at time `now`: the pass appends one matching record per module and
/// then applies the bound.
pub open spec fn is_audited_history(
    h0: Seq<ModuleAudit>,
    es: Seq<ModuleRecord>,
    matrix: Seq<MatrixEntry>,
    now: u64,
    h1: Seq<ModuleAudit>,
) -> bool {
    let n0 = h0.len() as int;
    let m = es.len() as int;
    let drop = truncate_drop(n0 + m);
    &&& h1.len() == n0 + m - drop
    &&& forall|i: int|
        0 <= i < h1.len() && i + drop < n0 ==> audit_same(#[trigger] h1[i], h0[i + drop])
    &&& forall|i: int|
        0 <= i < h1.len() && i + drop >= n0 ==> audit_matches(
            #[trigger] h1[i],
            es[i + drop - n0],
            m,
            matrix,
            now,
        )
}

/// One audit pass feeds the history: extending with matching records and
/// applying the bound yields an audited history.
pub proof fn lemma_history_after_to_audited(
    h0: Seq<ModuleAudit>,
    audits: Seq<ModuleAudit>,
    h1: Seq<ModuleAudit>,
    es: Seq<ModuleRecord>,
    matrix: Seq<MatrixEntry>,
    now: u64,
)
    requires
        is_history_after(h0, audits, h1),
        audits.len() == es.len(),
        forall|i: int|
            0 <= i < audits.len() ==> audit_matches(
                #[trigger] audits[i],
                es[i],
                es.len() as int,
                matrix,
                now,
            ),
    ensures
        is_audited_history(h0, es, matrix, now, h1),
{
    let full = h0 + audits;
    let drop = truncate_drop(full.len() as int);
    assert forall|i: int| 0 <= i < h1.len() && i + drop >= h0.len() implies audit_matches(
        #[trigger] h1[i],
        es[i + drop - h0.len()],
        es.len() as int,
        matrix,
        now,
    ) by {
        assert(audit_same(h1[i], full[i + drop]));
        assert(full[i + drop] == audits[i + drop - h0.len()]);
        lemma_same_matches(
            h1[i],
            audits[i + drop - h0.len()],
            es[i + drop - h0.len()],
            es.len() as int,
            matrix,
            now,
        );
    }
}

/// Carrying the same data as a matching audit record is matching.
pub proof fn lemma_same_matches(
    a: ModuleAudit,
    b: ModuleAudit,
    r: ModuleRecord,
    n_modules: int,
    matrix: Seq<MatrixEntry>,
    now: u64,
)
    requires
        audit_same(a, b),
        audit_matches(b, r, n_modules, matrix, now),
    ensures
        audit_matches(a, r, n_modules, matrix, now),
{
}

} // verus!
