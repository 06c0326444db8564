//! The library's general laws, each proved once and for all states.

use crate::audit::{
    audit_matches, is_history_after, status_of, synergy_score_micro, ModuleAudit, ModuleStatus,
};
use crate::coordinator::{is_activity_post, is_connect_record, is_error_post, is_register_post};
use crate::matrix::{mat_strength, MatrixEntry};
use crate::metrics::{score_sum_upto, synergy_coefficient_of};
use crate::names::{contains_name, lemma_insert_name_monotone};
use crate::num::sat_add;
use crate::registry::{contains_module, ModuleRecord};
use vstd::prelude::*;

verus! {

/// Recording an activity never lowers any module's message count, and
/// leaves every error count alone.
pub proof fn lemma_activity_counters_monotonic(
    es0: Seq<ModuleRecord>,
    es1: Seq<ModuleRecord>,
    name: Seq<char>,
    op: Seq<char>,
    dur_ms: u64,
    t: u64,
)
    requires
        is_activity_post(es0, es1, name, op, dur_ms, t),
    ensures
        forall|i: int|
            0 <= i < es0.len() ==> #[trigger] es1[i].message_count >= es0[i].message_count,
        forall|i: int| 0 <= i < es0.len() ==> #[trigger] es1[i].error_count == es0[i].error_count,
{
    assert forall|i: int| 0 <= i < es0.len() implies #[trigger] es1[i].message_count
        >= es0[i].message_count && es1[i].error_count == es0[i].error_count by {
        if es0[i].name@ != name {
            assert(es1[i] == es0[i]);
        }
    }
}

/// Recording an error never lowers any module's error count, and leaves
/// every message count alone.
pub proof fn lemma_error_counters_monotonic(
    es0: Seq<ModuleRecord>,
    es1: Seq<ModuleRecord>,
    name: Seq<char>,
)
    requires
        is_error_post(es0, es1, name),
    ensures
        forall|i: int| 0 <= i < es0.len() ==> #[trigger] es1[i].error_count >= es0[i].error_count,
        forall|i: int|
            0 <= i < es0.len() ==> #[trigger] es1[i].message_count == es0[i].message_count,
{
    assert forall|i: int| 0 <= i < es0.len() implies #[trigger] es1[i].error_count
        >= es0[i].error_count && es1[i].message_count == es0[i].message_count by {
        if es0[i].name@ != name {
            assert(es1[i] == es0[i]);
        }
    }
}

/// Registering a name not seen before leaves every existing record, and
/// with it every counter, exactly as it was.  (Re-registering an existing
/// name resets that module's counters by design.)
pub proof fn lemma_register_keeps_others(
    es0: Seq<ModuleRecord>,
    es1: Seq<ModuleRecord>,
    name: Seq<char>,
    t: u64,
)
    requires
        is_register_post(es0, es1, name, t),
        !contains_module(es0, name),
    ensures
        forall|i: int| 0 <= i < es0.len() ==> #[trigger] es1[i] == es0[i],
{
}

/// After an edge is established between two registered modules, each
/// one's connection set names the other.  (The matrix holds the strength
/// in both directions by `establish_connection`'s own contract.)
pub proof fn lemma_connection_symmetric(
    es0: Seq<ModuleRecord>,
    es1: Seq<ModuleRecord>,
    a: Seq<char>,
    b: Seq<char>,
)
    requires
        es1.len() == es0.len(),
        forall|i: int|
            0 <= i < es0.len() ==> is_connect_record(es0[i], #[trigger] es1[i], a, b),
        contains_module(es0, a),
        contains_module(es0, b),
    ensures
        forall|i: int|
            0 <= i < es1.len() && #[trigger] es1[i].name@ == a ==> contains_name(
                es1[i].active_connections@,
                b,
            ),
        forall|i: int|
            0 <= i < es1.len() && #[trigger] es1[i].name@ == b ==> contains_name(
                es1[i].active_connections@,
                a,
            ),
{
    assert forall|i: int|
        0 <= i < es1.len() && (#[trigger] es1[i].name@ == a || es1[i].name@ == b) implies (
    es1[i].name@ == a ==> contains_name(es1[i].active_connections@, b)) && (es1[i].name@ == b
        ==> contains_name(es1[i].active_connections@, a)) by {
        let r0 = es0[i];
        let r1 = es1[i];
        assert(is_connect_record(r0, r1, a, b));
        if r0.name@ == a {
            lemma_insert_name_monotone(r0.active_connections@, r1.active_connections@, b);
            if a == b {
            }
        } else if r0.name@ == b {
            lemma_insert_name_monotone(r0.active_connections@, r1.active_connections@, a);
        }
    }
}

/// An audit record of a module whose connection set is not empty reports
/// a positive connection count (and so never classifies it as
/// disconnected).
pub proof fn lemma_audit_reports_connections(
    a: ModuleAudit,
    r: ModuleRecord,
    n_modules: int,
    mx: Seq<MatrixEntry>,
    now: u64,
    x: Seq<char>,
)
    requires
        audit_matches(a, r, n_modules, mx, now),
        contains_name(r.active_connections@, x),
    ensures
        a.hypergraph_connections > 0,
        a.status != ModuleStatus::Disconnected,
{
    assert(r.active_connections@.len() > 0);
}

/// One audit pass of at most 500 modules keeps the history within its
/// bound of 1000 records.
pub proof fn lemma_history_bound(
    h0: Seq<ModuleAudit>,
    added: Seq<ModuleAudit>,
    h1: Seq<ModuleAudit>,
)
    requires
        is_history_after(h0, added, h1),
        h0.len() <= 1000,
        added.len() <= 500,
    ensures
        h1.len() <= 1000,
{
}

/// Saturating sum of the scores carried by the first `k` audit records.
pub open spec fn audit_score_sum(audits: Seq<ModuleAudit>, k: int) -> u64
    decreases k,
{
    if k <= 0 {
        0u64
    } else {
        sat_add(audit_score_sum(audits, k - 1), audits[k - 1].synergy_score_micro)
    }
}

proof fn lemma_audit_sum_is_score_sum(
    audits: Seq<ModuleAudit>,
    es: Seq<ModuleRecord>,
    mx: Seq<MatrixEntry>,
    now: u64,
    k: int,
)
    requires
        audits.len() == es.len(),
        k <= es.len(),
        forall|i: int|
            0 <= i < audits.len() ==> audit_matches(
                #[trigger] audits[i],
                es[i],
                es.len() as int,
                mx,
                now,
            ),
    ensures
        audit_score_sum(audits, k) == score_sum_upto(es, mx, k),
    decreases k,
{
    if k > 0 {
        lemma_audit_sum_is_score_sum(audits, es, mx, now, k - 1);
    }
}

/// The synergy coefficient of the metrics snapshot is the mean of the
/// per-module scores that the same state's audit reports.
pub proof fn lemma_coefficient_is_mean(
    audits: Seq<ModuleAudit>,
    es: Seq<ModuleRecord>,
    mx: Seq<MatrixEntry>,
    now: u64,
)
    requires
        audits.len() == es.len(),
        forall|i: int|
            0 <= i < audits.len() ==> audit_matches(
                #[trigger] audits[i],
                es[i],
                es.len() as int,
                mx,
                now,
            ),
    ensures
        es.len() > 0 ==> synergy_coefficient_of(es, mx) == ((audit_score_sum(
            audits,
            audits.len() as int,
        ) as int) / (es.len() as int)) as u64,
        es.len() == 0 ==> synergy_coefficient_of(es, mx) == 0,
{
    lemma_audit_sum_is_score_sum(audits, es, mx, now, es.len() as int);
}

proof fn lemma_sum_const(
    conns: Seq<String>,
    me: Seq<char>,
    mx: Seq<MatrixEntry>,
    s: u64,
    k: int,
)
    requires
        0 <= k <= conns.len(),
        forall|j: int| 0 <= j < conns.len() ==> mat_strength(mx, me, #[trigger] conns[j]@) == Some(
            s,
        ),
    ensures
        crate::audit::strength_sum_upto(conns, me, mx, k) == k * s,
    decreases k,
{
    if k <= 0 {
        assert(0 * s == 0) by (nonlinear_arith);
    } else {
        lemma_sum_const(conns, me, mx, s, k - 1);
        assert(k * s == (k - 1) * s + s) by (nonlinear_arith);
    }
}

/// In a fully connected registry of `n` modules, every edge at strength
/// `s`, a module connected to all `n - 1` peers scores the mean of a full
/// unit and `s`.
pub proof fn lemma_full_graph_score(r: ModuleRecord, n: int, mx: Seq<MatrixEntry>, s: u64)
    requires
        n >= 2,
        r.active_connections@.len() == n - 1,
        s <= 1_000_000,
        forall|j: int|
            0 <= j < r.active_connections@.len() ==> mat_strength(
                mx,
                r.name@,
                #[trigger] r.active_connections@[j]@,
            ) == Some(s),
    ensures
        synergy_score_micro(r, n, mx) == ((1_000_000 + s) / 2) as u64,
{
    let c = n - 1;
    lemma_sum_const(r.active_connections@, r.name@, mx, s, c);
    assert(c * 1_000_000 / c == 1_000_000) by (nonlinear_arith)
        requires
            c >= 1,
    ;
    assert(c * s / c == s) by (nonlinear_arith)
        requires
            c >= 1,
    ;
}

/// A single registered module with no possible peer scores a full unit.
pub proof fn lemma_single_module_score(r: ModuleRecord, mx: Seq<MatrixEntry>)
    ensures
        synergy_score_micro(r, 1, mx) == 1_000_000,
{
}

/// An activity recorded under an unknown name leaves the registry
/// untouched.  (The global operation counter still advances, by
/// `record_activity`'s own contract.)
pub proof fn lemma_unknown_activity(
    es0: Seq<ModuleRecord>,
    es1: Seq<ModuleRecord>,
    name: Seq<char>,
    op: Seq<char>,
    dur_ms: u64,
    t: u64,
)
    requires
        is_activity_post(es0, es1, name, op, dur_ms, t),
        !contains_module(es0, name),
    ensures
        es1 == es0,
{
    assert forall|i: int| 0 <= i < es0.len() implies #[trigger] es1[i] == es0[i] by {
        assert(es0[i].name@ != name);
    }
    assert(es1 =~= es0);
}

/// A module past ten errors is critical, whatever else holds — even with
/// no connections at all, the error check comes first.
pub proof fn lemma_critical_beats_disconnected(r: ModuleRecord, score: u64)
    requires
        r.error_count == 11,
        r.active_connections@.len() == 0,
    ensures
        status_of(r, score) == ModuleStatus::Critical,
{
}

/// Exactly ten errors is not critical: the bound is strict.
pub proof fn lemma_ten_errors_not_critical(r: ModuleRecord, score: u64)
    requires
        r.error_count == 10,
    ensures
        status_of(r, score) != ModuleStatus::Critical,
{
}

} // verus!
