//! The reinforcement layer: tuning knobs, scheduled audits turned into
//! recommendation strings, and auto-healing of disconnected modules by
//! attaching them to the hub module named `config`.

use crate::audit::{
    audit_matches, is_audited_history, lemma_history_after_to_audited, status_of,
    synergy_score_micro, ModuleStatus,
};
use crate::clock::now_millis;
use crate::coordinator::{
    is_activity_post, is_connect_record, load_factor_micro, same_but_connections,
    HypergraphCoordinator,
};
use crate::matrix::{mat_strength, MatrixEntry};
use crate::metrics::{score_sum_upto, synergy_coefficient_of};
use crate::names::{
    contains_name, deep_view, lemma_insert_name_members, lemma_insert_name_monotone, push_all,
};
use crate::num::{
    ewma_avg, ewma_load, max_spec, sat_inc, sat_sub, sub64, tenth_of, tenth_string, unit2_of,
    unit2_string,
};
use crate::registry::ModuleRecord;
use vstd::prelude::*;

verus! {

/// The tuning knobs of the reinforcement layer.
#[derive(Clone, Copy, Debug, PartialEq, Eq, Structural)]
pub struct HypergraphConfig {
    /// Ceiling for the heuristic error-rate check.
    pub max_module_errors: u64,
    /// Floor for per-module and global synergy, in micro-units.
    pub synergy_threshold_micro: u64,
    /// Minimum gap between scheduled audits.
    pub audit_interval_seconds: u64,
    /// Whether `apply_auto_healing` mutates the graph.
    pub enable_auto_healing: bool,
    /// Reserved: stored but not applied, in micro-units.
    pub connection_strength_decay_micro: u64,
}

impl Default for HypergraphConfig {
    /// The stock tuning: 20 errors, a 0.6 synergy floor, a five-minute
    /// audit gap, healing on, a reserved decay of 0.95.
    fn default() -> (c: Self)
        ensures
            c.max_module_errors == 20,
            c.synergy_threshold_micro == 600_000,
            c.audit_interval_seconds == 300,
            c.enable_auto_healing == true,
            c.connection_strength_decay_micro == 950_000,
    {
        HypergraphConfig {
            max_module_errors: 20,
            synergy_threshold_micro: 600_000,
            audit_interval_seconds: 300,
            enable_auto_healing: true,
            connection_strength_decay_micro: 950_000,
        }
    }
}

/// The reinforcement state: the knobs and the time of the last scheduled
/// audit.
pub struct ConfigReinforcement {
    pub config: HypergraphConfig,
    pub last_audit_ms: u64,
}

impl ConfigReinforcement {
    /// A reinforcement layer whose audit timer starts at the given time.
    pub fn new_at(config: HypergraphConfig, now_ms: u64) -> (r: Self)
        ensures
            r.config == config,
            r.last_audit_ms == now_ms,
    {
        ConfigReinforcement { config, last_audit_ms: now_ms }
    }

    /// A reinforcement layer whose audit timer starts now.
    pub fn new(config: HypergraphConfig) -> (r: Self)
        ensures
            r.config == config,
    {
        let t = now_millis();
        ConfigReinforcement::new_at(config, t)
    }
}

/// The recommendation for a module whose synergy score is below the
/// threshold.
pub open spec fn low_synergy_line(name: Seq<char>, score: u64) -> Seq<char> {
    "Module '"@ + name + "' has low synergy score ("@ + unit2_of(score as int)
        + "). Consider reviewing connections."@
}

/// The recommendation for a module in critical state.
pub open spec fn critical_line(name: Seq<char>) -> Seq<char> {
    "Module '"@ + name + "' is in critical state. Immediate attention required."@
}

/// The scheduled audit's recommendations for the first `k` modules: a low
/// synergy line and a critical line per module, as they apply, in order.
pub open spec fn sched_lines_upto(
    es: Seq<ModuleRecord>,
    mx: Seq<MatrixEntry>,
    threshold: u64,
    k: int,
) -> Seq<Seq<char>>
    decreases k,
{
    if k <= 0 {
        Seq::empty()
    } else {
        let r = es[k - 1];
        let score = synergy_score_micro(r, es.len() as int, mx);
        sched_lines_upto(es, mx, threshold, k - 1) + (if score < threshold {
            seq![low_synergy_line(r.name@, score)]
        } else {
            Seq::empty()
        }) + (if status_of(r, score) == ModuleStatus::Critical {
            seq![critical_line(r.name@)]
        } else {
            Seq::empty()
        })
    }
}

/// The heuristic error-rate recommendation: a tenth of the operation
/// count, read as a rate.
pub open spec fn rate_line(ops: u64) -> Seq<char> {
    "High error rate detected ("@ + tenth_of(ops as int)
        + "). Consider implementing circuit breakers."@
}

/// The recommendation for a global synergy coefficient under the
/// threshold.
pub open spec fn coefficient_line(coefficient: u64, threshold: u64) -> Seq<char> {
    "System synergy coefficient ("@ + unit2_of(coefficient as int) + ") below threshold ("@
        + unit2_of(threshold as int) + "). Review module connections."@
}

/// The error-threshold check's recommendations.
pub open spec fn threshold_lines(ops: u64, coefficient: u64, cfg: HypergraphConfig) -> Seq<
    Seq<char>,
> {
    (if ops > 0 && ops > 10 * cfg.max_module_errors {
        seq![rate_line(ops)]
    } else {
        Seq::empty()
    }) + (if coefficient < cfg.synergy_threshold_micro {
        seq![coefficient_line(coefficient, cfg.synergy_threshold_micro)]
    } else {
        Seq::empty()
    })
}

/// Everything `validate_configurations` reports, given whether the
/// scheduled audit was due and the operation count after the opening
/// activity.
pub open spec fn validate_lines(
    due: bool,
    es: Seq<ModuleRecord>,
    mx: Seq<MatrixEntry>,
    cfg: HypergraphConfig,
    ops_after: u64,
) -> Seq<Seq<char>> {
    (if due {
        sched_lines_upto(es, mx, cfg.synergy_threshold_micro, es.len() as int)
    } else {
        Seq::empty()
    }) + seq!["Configuration paths validated successfully"@] + threshold_lines(
        ops_after,
        synergy_coefficient_of(es, mx),
        cfg,
    ) + seq!["Connection health assessment completed"@]
}

/// Whether a scheduled audit is due at time `t1`.
pub open spec fn audit_due(r: ConfigReinforcement, t1: u64) -> bool {
    sat_sub(t1, r.last_audit_ms) >= r.config.audit_interval_seconds * 1000
}

/// How the whole validation pass moves the registry: the `config` module
/// records two activities (one opening, one closing), everyone else is
/// untouched.
pub open spec fn is_config_refresh(
    es0: Seq<ModuleRecord>,
    es2: Seq<ModuleRecord>,
    dur2: u64,
    t_end: u64,
) -> bool {
    &&& es2.len() == es0.len()
    &&& forall|i: int|
        0 <= i < es0.len() && es0[i].name@ != "config"@ ==> #[trigger] es2[i] == es0[i]
    &&& forall|i: int|
        0 <= i < es0.len() && es0[i].name@ == "config"@ ==> {
            let r0 = es0[i];
            let r1 = #[trigger] es2[i];
            &&& r1.name@ == r0.name@
            &&& r1.active_connections@ == r0.active_connections@
            &&& r1.message_count == sat_inc(sat_inc(r0.message_count))
            &&& r1.error_count == r0.error_count
            &&& r1.last_activity_ms == t_end
            &&& r1.memory_usage == r0.memory_usage
            &&& r1.cognitive_load_micro == ewma_load(
                ewma_load(r0.cognitive_load_micro, load_factor_micro("validation"@), 1),
                load_factor_micro("validation"@),
                dur2,
            )
        }
}

/// The whole effect of the validation pass short of the closing activity:
/// the opening activity on `config` at `t1`, the scheduled audit if due,
/// and the recommendation list.
pub open spec fn validate_main_post(
    r0: ConfigReinforcement,
    r1: ConfigReinforcement,
    c0: HypergraphCoordinator,
    c1: HypergraphCoordinator,
    rv: Seq<Seq<char>>,
    t1: u64,
) -> bool {
    let due = audit_due(r0, t1);
    let t_mid = max_spec(c0.clock_ms, t1);
    &&& r1.config == r0.config
    &&& r1.last_audit_ms == if due {
        t1
    } else {
        r0.last_audit_ms
    }
    &&& c1.clock_ms == t_mid
    &&& c1.matrix == c0.matrix
    &&& c1.name_index == c0.name_index
    &&& c1.total_operations == sat_inc(c0.total_operations)
    &&& c1.average_response_micro_ms == ewma_avg(c0.average_response_micro_ms, 1)
    &&& is_activity_post(c0.records@, c1.records@, "config"@, "validation"@, 1, t_mid)
    &&& (due ==> is_audited_history(
        c0.audit_history@,
        c1.records@,
        c0.matrix@,
        t_mid,
        c1.audit_history@,
    ))
    &&& (!due ==> c1.audit_history == c0.audit_history)
    &&& rv == validate_lines(due, c0.records@, c0.matrix@, r0.config, sat_inc(c0.total_operations))
}

/// The whole effect of the validation pass, closing activity included.
pub open spec fn validate_post(
    r0: ConfigReinforcement,
    r1: ConfigReinforcement,
    c0: HypergraphCoordinator,
    c2: HypergraphCoordinator,
    rv: Seq<Seq<char>>,
    t1: u64,
    t2: u64,
) -> bool {
    let due = audit_due(r0, t1);
    let t_mid = max_spec(c0.clock_ms, t1);
    let t_end = max_spec(t_mid, t2);
    &&& r1.config == r0.config
    &&& r1.last_audit_ms == if due {
        t1
    } else {
        r0.last_audit_ms
    }
    &&& c2.clock_ms == t_end
    &&& c2.matrix == c0.matrix
    &&& c2.name_index == c0.name_index
    &&& c2.total_operations == sat_inc(sat_inc(c0.total_operations))
    &&& c2.average_response_micro_ms == ewma_avg(
        ewma_avg(c0.average_response_micro_ms, 1),
        sat_sub(t2, t1),
    )
    &&& is_config_refresh(c0.records@, c2.records@, sat_sub(t2, t1), t_end)
    &&& (audit_due(r0, t1) ==> exists|es_mid: Seq<ModuleRecord>|
        #[trigger] is_activity_post(c0.records@, es_mid, "config"@, "validation"@, 1, t_mid)
            && is_audited_history(c0.audit_history@, es_mid, c0.matrix@, t_mid, c2.audit_history@))
    &&& (!audit_due(r0, t1) ==> c2.audit_history == c0.audit_history)
    &&& rv == validate_lines(due, c0.records@, c0.matrix@, r0.config, sat_inc(c0.total_operations))
}

/// An activity touches no field that scoring or classification reads, so
/// every score, status and the coefficient are unchanged by it.
proof fn lemma_activity_keeps_scores(
    es0: Seq<ModuleRecord>,
    es1: Seq<ModuleRecord>,
    name: Seq<char>,
    op: Seq<char>,
    dur: u64,
    t: u64,
    mx: Seq<MatrixEntry>,
)
    requires
        is_activity_post(es0, es1, name, op, dur, t),
    ensures
        forall|i: int|
            0 <= i < es0.len() ==> synergy_score_micro(#[trigger] es1[i], es1.len() as int, mx)
                == synergy_score_micro(es0[i], es0.len() as int, mx),
        forall|i: int|
            0 <= i < es0.len() ==> status_of(
                #[trigger] es1[i],
                synergy_score_micro(es1[i], es1.len() as int, mx),
            ) == status_of(es0[i], synergy_score_micro(es0[i], es0.len() as int, mx)),
        forall|i: int| 0 <= i < es0.len() ==> #[trigger] es1[i].name@ == es0[i].name@,
        synergy_coefficient_of(es1, mx) == synergy_coefficient_of(es0, mx),
{
    assert forall|i: int|
        0 <= i < es0.len() implies synergy_score_micro(#[trigger] es1[i], es1.len() as int, mx)
        == synergy_score_micro(es0[i], es0.len() as int, mx) && status_of(
        es1[i],
        synergy_score_micro(es1[i], es1.len() as int, mx),
    ) == status_of(es0[i], synergy_score_micro(es0[i], es0.len() as int, mx)) && es1[i].name@
        == es0[i].name@ by {
        if es0[i].name@ == name {
            assert(es1[i].active_connections@ == es0[i].active_connections@);
        } else {
            assert(es1[i] == es0[i]);
        }
    }
    lemma_score_sum_same(es0, es1, mx, es0.len() as int);
}

/// Pointwise equal scores give equal score sums.
proof fn lemma_score_sum_same(
    es0: Seq<ModuleRecord>,
    es1: Seq<ModuleRecord>,
    mx: Seq<MatrixEntry>,
    k: int,
)
    requires
        es0.len() == es1.len(),
        k <= es0.len(),
        forall|i: int|
            0 <= i < es0.len() ==> synergy_score_micro(#[trigger] es1[i], es1.len() as int, mx)
                == synergy_score_micro(es0[i], es0.len() as int, mx),
    ensures
        score_sum_upto(es1, mx, k) == score_sum_upto(es0, mx, k),
    decreases k,
{
    if k > 0 {
        lemma_score_sum_same(es0, es1, mx, k - 1);
    }
}

/// Pointwise equal names, scores and classifications give the same
/// scheduled-audit lines.
proof fn lemma_sched_lines_same(
    es0: Seq<ModuleRecord>,
    es1: Seq<ModuleRecord>,
    mx: Seq<MatrixEntry>,
    threshold: u64,
    k: int,
)
    requires
        es0.len() == es1.len(),
        k <= es0.len(),
        forall|i: int|
            0 <= i < es0.len() ==> synergy_score_micro(#[trigger] es1[i], es1.len() as int, mx)
                == synergy_score_micro(es0[i], es0.len() as int, mx),
        forall|i: int|
            0 <= i < es0.len() ==> status_of(
                #[trigger] es1[i],
                synergy_score_micro(es1[i], es1.len() as int, mx),
            ) == status_of(es0[i], synergy_score_micro(es0[i], es0.len() as int, mx)),
        forall|i: int| 0 <= i < es0.len() ==> #[trigger] es1[i].name@ == es0[i].name@,
    ensures
        sched_lines_upto(es1, mx, threshold, k) == sched_lines_upto(es0, mx, threshold, k),
    decreases k,
{
    if k > 0 {
        lemma_sched_lines_same(es0, es1, mx, threshold, k - 1);
    }
}

impl ConfigReinforcement {
    /// Run a scheduled audit and turn its results into recommendations:
    /// one line per module under the synergy threshold, one per module in
    /// critical state.
    fn perform_scheduled_audit(&self, c: &mut HypergraphCoordinator, now_ms: u64) -> (recs: Vec<
        String,
    >)
        requires
            old(c).inv(),
        ensures
            final(c).inv(),
            final(c).clock_ms == max_spec(old(c).clock_ms, now_ms),
            final(c).records == old(c).records,
            final(c).matrix == old(c).matrix,
            final(c).total_operations == old(c).total_operations,
            final(c).average_response_micro_ms == old(c).average_response_micro_ms,
            final(c).name_index == old(c).name_index,
            is_audited_history(
                old(c).audit_history@,
                old(c).records@,
                old(c).matrix@,
                final(c).clock_ms,
                final(c).audit_history@,
            ),
            deep_view(recs@) == sched_lines_upto(
                old(c).records@,
                old(c).matrix@,
                self.config.synergy_threshold_micro,
                old(c).records@.len() as int,
            ),
    {
        let audits = c.audit_core_modules_at(now_ms);
        let ghost es = old(c).records@;
        let ghost mx = old(c).matrix@;
        let ghost t = c.clock_ms;
        let ghost threshold = self.config.synergy_threshold_micro;
        proof {
            lemma_history_after_to_audited(
                old(c).audit_history@,
                audits@,
                c.audit_history@,
                es,
                mx,
                t,
            );
        }
        let mut recs: Vec<String> = Vec::new();
        let n = audits.len();
        for i in 0..n
            invariant
                n == audits@.len(),
                n == es.len(),
                threshold == self.config.synergy_threshold_micro,
                forall|k: int|
                    0 <= k < n ==> audit_matches(#[trigger] audits@[k], es[k], n as int, mx, t),
                deep_view(recs@) == sched_lines_upto(es, mx, threshold, i as int),
        {
            let ghost before = deep_view(recs@);
            let ghost score = synergy_score_micro(es[i as int], n as int, mx);
            if audits[i].synergy_score_micro < self.config.synergy_threshold_micro {
                let mut line = "Module '".to_owned();
                line.append(audits[i].module_name.as_str());
                line.append("' has low synergy score (");
                let v = unit2_string(audits[i].synergy_score_micro);
                line.append(v.as_str());
                line.append("). Consider reviewing connections.");
                proof {
                    assert(line@ =~= low_synergy_line(es[i as int].name@, score));
                }
                recs.push(line);
                proof {
                    assert(deep_view(recs@) =~= before.push(low_synergy_line(
                        es[i as int].name@,
                        score,
                    )));
                }
            }
            let ghost before2 = deep_view(recs@);
            let crit = match audits[i].status {
                ModuleStatus::Critical => true,
                _ => false,
            };
            if crit {
                let mut line = "Module '".to_owned();
                line.append(audits[i].module_name.as_str());
                line.append("' is in critical state. Immediate attention required.");
                proof {
                    assert(line@ =~= critical_line(es[i as int].name@));
                }
                recs.push(line);
                proof {
                    assert(deep_view(recs@) =~= before2.push(critical_line(es[i as int].name@)));
                }
            }
            proof {
                let st = status_of(es[i as int], score);
                let low: Seq<Seq<char>> = if score < threshold {
                    seq![low_synergy_line(es[i as int].name@, score)]
                } else {
                    Seq::empty()
                };
                let cr: Seq<Seq<char>> = if st == ModuleStatus::Critical {
                    seq![critical_line(es[i as int].name@)]
                } else {
                    Seq::empty()
                };
                assert(deep_view(recs@) =~= sched_lines_upto(es, mx, threshold, i as int) + low
                    + cr);
            }
        }
        recs
    }

    /// The fixed line reporting that the configuration paths check ran.
    fn validate_critical_paths(&self) -> (recs: Vec<String>)
        ensures
            deep_view(recs@) == seq!["Configuration paths validated successfully"@],
    {
        let mut recs: Vec<String> = Vec::new();
        recs.push("Configuration paths validated successfully".to_owned());
        proof {
            assert(deep_view(recs@) =~= seq!["Configuration paths validated successfully"@]);
        }
        recs
    }

    /// The error-threshold check against the live metrics: the heuristic
    /// rate read off the operation counter, and the global synergy
    /// coefficient against its floor.
    fn check_error_thresholds(&self, c: &HypergraphCoordinator) -> (recs: Vec<String>)
        ensures
            deep_view(recs@) == threshold_lines(
                c.total_operations,
                synergy_coefficient_of(c.records@, c.matrix@),
                self.config,
            ),
    {
        let mut recs: Vec<String> = Vec::new();
        let metrics = c.get_performance_metrics();
        let ghost base = deep_view(recs@);
        if metrics.total_operations > 0 && metrics.total_operations as u128 > 10u128
            * self.config.max_module_errors as u128 {
            let mut line = "High error rate detected (".to_owned();
            let v = tenth_string(metrics.total_operations);
            line.append(v.as_str());
            line.append("). Consider implementing circuit breakers.");
            proof {
                assert(line@ =~= rate_line(metrics.total_operations));
            }
            recs.push(line);
            proof {
                assert(deep_view(recs@) =~= base.push(rate_line(metrics.total_operations)));
            }
        }
        let ghost with_rate = deep_view(recs@);
        if metrics.synergy_coefficient_micro < self.config.synergy_threshold_micro {
            let mut line = "System synergy coefficient (".to_owned();
            let v = unit2_string(metrics.synergy_coefficient_micro);
            line.append(v.as_str());
            line.append(") below threshold (");
            let w = unit2_string(self.config.synergy_threshold_micro);
            line.append(w.as_str());
            line.append("). Review module connections.");
            proof {
                assert(line@ =~= coefficient_line(
                    metrics.synergy_coefficient_micro,
                    self.config.synergy_threshold_micro,
                ));
            }
            recs.push(line);
            proof {
                assert(deep_view(recs@) =~= with_rate.push(coefficient_line(
                    metrics.synergy_coefficient_micro,
                    self.config.synergy_threshold_micro,
                )));
            }
        }
        proof {
            assert(deep_view(recs@) =~= threshold_lines(
                c.total_operations,
                synergy_coefficient_of(c.records@, c.matrix@),
                self.config,
            ));
        }
        recs
    }

    /// The fixed line reporting that the connection health check ran.
    fn assess_connection_health(&self) -> (recs: Vec<String>)
        ensures
            deep_view(recs@) == seq!["Connection health assessment completed"@],
    {
        let mut recs: Vec<String> = Vec::new();
        recs.push("Connection health assessment completed".to_owned());
        proof {
            assert(deep_view(recs@) =~= seq!["Connection health assessment completed"@]);
        }
        recs
    }

    /// The validation pass short of the closing activity: record the
    /// opening activity on `config`, run the scheduled audit if it is
    /// due, and collect the recommendations.
    fn validate_main(&mut self, c: &mut HypergraphCoordinator, now_ms: u64) -> (recs: Vec<String>)
        requires
            old(c).inv(),
        ensures
            final(c).inv(),
            validate_main_post(
                *old(self),
                *final(self),
                *old(c),
                *final(c),
                deep_view(recs@),
                now_ms,
            ),
    {
        let ghost c0 = *old(c);
        c.record_activity_at("config", "validation", 1, now_ms);
        let ghost ca = *c;
        proof {
            lemma_activity_keeps_scores(
                c0.records@,
                ca.records@,
                "config"@,
                "validation"@,
                1,
                ca.clock_ms,
                c0.matrix@,
            );
        }
        let mut recs: Vec<String> = Vec::new();
        let elapsed = sub64(now_ms, self.last_audit_ms);
        let due = elapsed as u128 >= self.config.audit_interval_seconds as u128 * 1000;
        if due {
            let lines = self.perform_scheduled_audit(c, now_ms);
            proof {
                lemma_sched_lines_same(
                    c0.records@,
                    ca.records@,
                    c0.matrix@,
                    self.config.synergy_threshold_micro,
                    c0.records@.len() as int,
                );
            }
            let ghost before = deep_view(recs@);
            push_all(&mut recs, &lines);
            proof {
                assert(deep_view(recs@) =~= before + deep_view(lines@));
            }
            self.last_audit_ms = now_ms;
        }
        let ghost sched = deep_view(recs@);
        let paths = self.validate_critical_paths();
        push_all(&mut recs, &paths);
        proof {
            assert(deep_view(recs@) =~= sched + deep_view(paths@));
        }
        let ghost with_paths = deep_view(recs@);
        let thresholds = self.check_error_thresholds(c);
        push_all(&mut recs, &thresholds);
        proof {
            assert(deep_view(recs@) =~= with_paths + deep_view(thresholds@));
        }
        let ghost with_thresholds = deep_view(recs@);
        let health = self.assess_connection_health();
        push_all(&mut recs, &health);
        proof {
            assert(deep_view(recs@) =~= with_thresholds + deep_view(health@));
        }
        proof {
            let due_s = audit_due(*old(self), now_ms);
            assert(due == due_s);
            assert(deep_view(recs@) =~= validate_lines(
                due_s,
                c0.records@,
                c0.matrix@,
                old(self).config,
                sat_inc(c0.total_operations),
            ));
        }
        recs
    }

    /// The full validation pass against the given clock readings: the
    /// opening activity, the scheduled audit if due, the recommendation
    /// list, and the closing activity whose duration is the time the pass
    /// took.
    pub fn validate_configurations_at(
        &mut self,
        c: &mut HypergraphCoordinator,
        now_ms: u64,
        end_now_ms: u64,
    ) -> (recs: Vec<String>)
        requires
            old(c).inv(),
        ensures
            final(c).inv(),
            validate_post(
                *old(self),
                *final(self),
                *old(c),
                *final(c),
                deep_view(recs@),
                now_ms,
                end_now_ms,
            ),
    {
        let ghost c0 = *old(c);
        let recs = self.validate_main(c, now_ms);
        let ghost c1 = *c;
        c.record_activity_at("config", "validation", sub64(end_now_ms, now_ms), end_now_ms);
        proof {
            lemma_validate_compose(
                *old(self),
                *self,
                c0,
                c1,
                *c,
                deep_view(recs@),
                now_ms,
                end_now_ms,
            );
        }
        recs
    }

    /// The full validation pass, timed by the wall clock.
    pub fn validate_configurations(&mut self, c: &mut HypergraphCoordinator) -> (recs: Vec<String>)
        requires
            old(c).inv(),
        ensures
            final(c).inv(),
            exists|t1: u64, t2: u64|
                #[trigger] validate_post(
                    *old(self),
                    *final(self),
                    *old(c),
                    *final(c),
                    deep_view(recs@),
                    t1,
                    t2,
                ),
    {
        let ghost c0 = *old(c);
        let t1 = now_millis();
        let recs = self.validate_main(c, t1);
        let ghost c1 = *c;
        let t2 = now_millis();
        c.record_activity_at("config", "validation", sub64(t2, t1), t2);
        proof {
            lemma_validate_compose(
                *old(self),
                *self,
                c0,
                c1,
                *c,
                deep_view(recs@),
                t1,
                t2,
            );
        }
        recs
    }
}

/// Composing the main pass with the closing activity gives the full pass.
proof fn lemma_validate_compose(
    r0: ConfigReinforcement,
    r1: ConfigReinforcement,
    c0: HypergraphCoordinator,
    c1: HypergraphCoordinator,
    c2: HypergraphCoordinator,
    rv: Seq<Seq<char>>,
    t1: u64,
    t2: u64,
)
    requires
        validate_main_post(r0, r1, c0, c1, rv, t1),
        c2.clock_ms == max_spec(c1.clock_ms, t2),
        is_activity_post(
            c1.records@,
            c2.records@,
            "config"@,
            "validation"@,
            sat_sub(t2, t1),
            c2.clock_ms,
        ),
        c2.total_operations == sat_inc(c1.total_operations),
        c2.average_response_micro_ms == ewma_avg(c1.average_response_micro_ms, sat_sub(t2, t1)),
        c2.matrix == c1.matrix,
        c2.audit_history == c1.audit_history,
        c2.name_index == c1.name_index,
    ensures
        validate_post(r0, r1, c0, c2, rv, t1, t2),
{
    let t_mid = max_spec(c0.clock_ms, t1);
    let t_end = max_spec(t_mid, t2);
    let es0 = c0.records@;
    let es1 = c1.records@;
    let es2 = c2.records@;
    assert forall|i: int|
        0 <= i < es0.len() && es0[i].name@ != "config"@ implies #[trigger] es2[i] == es0[i] by {
        assert(es1[i] == es0[i]);
    }
    assert forall|i: int|
        0 <= i < es0.len() && #[trigger] es0[i].name@ == "config"@ implies es2[i].last_activity_ms
            == t_end && es2[i].message_count == sat_inc(sat_inc(es0[i].message_count))
            && es2[i].cognitive_load_micro == ewma_load(
            ewma_load(es0[i].cognitive_load_micro, load_factor_micro("validation"@), 1),
            load_factor_micro("validation"@),
            sat_sub(t2, t1),
        ) && es2[i].error_count == es0[i].error_count && es2[i].memory_usage
            == es0[i].memory_usage && es2[i].name@ == es0[i].name@ && es2[i].active_connections@
            == es0[i].active_connections@ by {
        assert(es1[i].name@ == es0[i].name@);
    }
    if audit_due(r0, t1) {
        let es_mid = es1;
        assert(is_activity_post(es0, es_mid, "config"@, "validation"@, 1, t_mid));
        assert(is_audited_history(c0.audit_history@, es_mid, c0.matrix@, t_mid, c2.audit_history@));
    }
}

/// A module the audit classifies as disconnected.
pub open spec fn is_disconnected(r: ModuleRecord, n: int, mx: Seq<MatrixEntry>) -> bool {
    status_of(r, synergy_score_micro(r, n, mx)) == ModuleStatus::Disconnected
}

/// The action line recorded for one healed module.
pub open spec fn heal_line(name: Seq<char>) -> Seq<char> {
    "Reconnected disconnected module '"@ + name + "'"@
}

/// The action lines for the first `k` modules: one per disconnected
/// module, in registry order.
pub open spec fn heal_lines_upto(es: Seq<ModuleRecord>, mx: Seq<MatrixEntry>, k: int) -> Seq<
    Seq<char>,
>
    decreases k,
{
    if k <= 0 {
        Seq::empty()
    } else {
        heal_lines_upto(es, mx, k - 1) + (if is_disconnected(es[k - 1], es.len() as int, mx) {
            seq![heal_line(es[k - 1].name@)]
        } else {
            Seq::empty()
        })
    }
}

/// Whether `(p, q)` is a directed matrix entry the healing pass writes:
/// one of the first `k` modules the audit classified as disconnected,
/// tied to the hub in either direction.
pub open spec fn is_heal_pair_upto(
    es: Seq<ModuleRecord>,
    mx: Seq<MatrixEntry>,
    k: int,
    p: Seq<char>,
    q: Seq<char>,
) -> bool {
    exists|j: int|
        0 <= j < k && #[trigger] is_disconnected(es[j], es.len() as int, mx) && ((p == es[j].name@
            && q == "config"@) || (p == "config"@ && q == es[j].name@))
}

/// The whole effect of a healing pass: one audit feeds the history, no
/// counter moves, no connection is lost or gained but the new hub ties,
/// no other matrix pair moves, and every module the audit found
/// disconnected is now tied to the hub with strength one half.
pub open spec fn heal_post(
    c0: HypergraphCoordinator,
    c1: HypergraphCoordinator,
    actions: Seq<Seq<char>>,
) -> bool {
    let es0 = c0.records@;
    let mx0 = c0.matrix@;
    let n = es0.len() as int;
    &&& c1.clock_ms >= c0.clock_ms
    &&& c1.records@.len() == es0.len()
    &&& c1.total_operations == c0.total_operations
    &&& c1.average_response_micro_ms == c0.average_response_micro_ms
    &&& c1.name_index == c0.name_index
    &&& is_audited_history(c0.audit_history@, es0, mx0, c1.clock_ms, c1.audit_history@)
    &&& actions == heal_lines_upto(es0, mx0, n)
    &&& forall|i: int| 0 <= i < n ==> same_but_connections(es0[i], #[trigger] c1.records@[i])
    &&& forall|i: int, x: Seq<char>|
        0 <= i < n && contains_name(es0[i].active_connections@, x) ==> #[trigger] contains_name(
            c1.records@[i].active_connections@,
            x,
        )
    &&& forall|i: int|
        0 <= i < n && is_disconnected(#[trigger] es0[i], n, mx0) ==> contains_name(
            c1.records@[i].active_connections@,
            "config"@,
        )
    &&& forall|i: int|
        0 <= i < n && is_disconnected(#[trigger] es0[i], n, mx0) ==> mat_strength(
            c1.matrix@,
            es0[i].name@,
            "config"@,
        ) == Some(500_000u64) && mat_strength(c1.matrix@, "config"@, es0[i].name@) == Some(
            500_000u64,
        )
    &&& forall|i: int, x: Seq<char>|
        0 <= i < n && #[trigger] contains_name(c1.records@[i].active_connections@, x)
            ==> contains_name(es0[i].active_connections@, x) || (is_disconnected(es0[i], n, mx0)
            && x == "config"@) || (es0[i].name@ == "config"@ && exists|j: int|
            0 <= j < n && #[trigger] is_disconnected(es0[j], n, mx0) && es0[j].name@ == x)
    &&& forall|i: int|
        0 <= i < n && is_disconnected(#[trigger] es0[i], n, mx0) && es0[i].name@ != "config"@
            ==> c1.records@[i].active_connections@.len() == 1
    &&& forall|p: Seq<char>, q: Seq<char>|
        !is_heal_pair_upto(es0, mx0, n, p, q) ==> #[trigger] mat_strength(c1.matrix@, p, q)
            == mat_strength(c0.matrix@, p, q)
}

impl ConfigReinforcement {
    /// If healing is enabled, audit every module and tie each one the
    /// audit classified as disconnected to the hub module `config` with
    /// strength one half, recording one action line per healed module.
    pub fn apply_auto_healing(&self, c: &mut HypergraphCoordinator) -> (actions: Vec<String>)
        requires
            old(c).inv(),
        ensures
            final(c).inv(),
            !self.config.enable_auto_healing ==> *final(c) == *old(c) && actions@.len() == 0,
            self.config.enable_auto_healing ==> heal_post(*old(c), *final(c), deep_view(actions@)),
    {
        let mut actions: Vec<String> = Vec::new();
        if !self.config.enable_auto_healing {
            return actions;
        }
        let ghost c0 = *old(c);
        let audits = c.audit_core_modules();
        let ghost ca = *c;
        let ghost es0 = c0.records@;
        let ghost mx0 = c0.matrix@;
        proof {
            lemma_history_after_to_audited(
                c0.audit_history@,
                audits@,
                ca.audit_history@,
                es0,
                mx0,
                ca.clock_ms,
            );
        }
        let n = audits.len();
        for i in 0..n
            invariant
                n == audits@.len(),
                n == es0.len(),
                c.inv(),
                forall|k: int|
                    0 <= k < n ==> audit_matches(
                        #[trigger] audits@[k],
                        es0[k],
                        n as int,
                        mx0,
                        ca.clock_ms,
                    ),
                forall|k1: int, k2: int|
                    0 <= k1 < k2 < n ==> #[trigger] es0[k1].name@ != #[trigger] es0[k2].name@,
                c.records@.len() == n,
                c.clock_ms == ca.clock_ms,
                c.audit_history == ca.audit_history,
                c.name_index == ca.name_index,
                c.total_operations == ca.total_operations,
                c.average_response_micro_ms == ca.average_response_micro_ms,
                forall|k: int|
                    0 <= k < n ==> same_but_connections(es0[k], #[trigger] c.records@[k]),
                forall|k: int, x: Seq<char>|
                    0 <= k < n && contains_name(es0[k].active_connections@, x)
                        ==> #[trigger] contains_name(c.records@[k].active_connections@, x),
                deep_view(actions@) == heal_lines_upto(es0, mx0, i as int),
                forall|k: int|
                    0 <= k < i && is_disconnected(#[trigger] es0[k], n as int, mx0)
                        ==> contains_name(c.records@[k].active_connections@, "config"@),
                forall|k: int|
                    0 <= k < i && is_disconnected(#[trigger] es0[k], n as int, mx0)
                        ==> mat_strength(c.matrix@, es0[k].name@, "config"@) == Some(500_000u64)
                        && mat_strength(c.matrix@, "config"@, es0[k].name@) == Some(500_000u64),
                forall|k: int, x: Seq<char>|
                    0 <= k < n && #[trigger] contains_name(c.records@[k].active_connections@, x)
                        ==> contains_name(es0[k].active_connections@, x) || (k < i
                        && is_disconnected(es0[k], n as int, mx0) && x == "config"@) || (
                    es0[k].name@ == "config"@ && exists|j: int|
                        0 <= j < i && #[trigger] is_disconnected(es0[j], n as int, mx0)
                            && es0[j].name@ == x),
                forall|k: int|
                    0 <= k < i && is_disconnected(#[trigger] es0[k], n as int, mx0)
                        && es0[k].name@ != "config"@
                        ==> c.records@[k].active_connections@.len() == 1,
                forall|p: Seq<char>, q: Seq<char>|
                    !is_heal_pair_upto(es0, mx0, i as int, p, q) ==> #[trigger] mat_strength(
                        c.matrix@,
                        p,
                        q,
                    ) == mat_strength(mx0, p, q),
        {
            let ghost cpre = *c;
            let disc = match audits[i].status {
                ModuleStatus::Disconnected => true,
                _ => false,
            };
            proof {
                assert(audit_matches(audits@[i as int], es0[i as int], n as int, mx0, ca.clock_ms));
                assert(disc == is_disconnected(es0[i as int], n as int, mx0));
            }
            if disc {
                let ghost nm = es0[i as int].name@;
                c.establish_connection(audits[i].module_name.as_str(), "config", 500_000);
                let mut line = "Reconnected disconnected module '".to_owned();
                line.append(audits[i].module_name.as_str());
                line.append("'");
                proof {
                    assert(line@ =~= heal_line(nm));
                }
                let ghost before = deep_view(actions@);
                actions.push(line);
                proof {
                    assert(deep_view(actions@) =~= before.push(heal_line(nm)));
                    assert(deep_view(actions@) =~= heal_lines_upto(es0, mx0, (i + 1) as int));
                    assert forall|k: int| 0 <= k < n implies same_but_connections(
                        es0[k],
                        #[trigger] c.records@[k],
                    ) by {
                        assert(is_connect_record(cpre.records@[k], c.records@[k], nm, "config"@));
                    }
                    assert forall|k: int, x: Seq<char>|
                        0 <= k < n && contains_name(es0[k].active_connections@, x)
                            implies #[trigger] contains_name(
                        c.records@[k].active_connections@,
                        x,
                    ) by {
                        assert(is_connect_record(cpre.records@[k], c.records@[k], nm, "config"@));
                        let r0 = cpre.records@[k];
                        let r1 = c.records@[k];
                        if r0.name@ == nm {
                            lemma_insert_name_monotone(
                                r0.active_connections@,
                                r1.active_connections@,
                                "config"@,
                            );
                        } else if r0.name@ == "config"@ {
                            lemma_insert_name_monotone(
                                r0.active_connections@,
                                r1.active_connections@,
                                nm,
                            );
                        }
                    }
                    assert(cpre.records@[i as int].name@ == nm);
                    assert(is_connect_record(
                        cpre.records@[i as int],
                        c.records@[i as int],
                        nm,
                        "config"@,
                    ));
                    lemma_insert_name_monotone(
                        cpre.records@[i as int].active_connections@,
                        c.records@[i as int].active_connections@,
                        "config"@,
                    );
                    assert forall|k: int|
                        0 <= k < i + 1 && is_disconnected(#[trigger] es0[k], n as int, mx0)
                            implies contains_name(
                        c.records@[k].active_connections@,
                        "config"@,
                    ) by {
                        if k < i {
                            let r0 = cpre.records@[k];
                            assert(is_connect_record(r0, c.records@[k], nm, "config"@));
                            if r0.name@ == nm {
                                lemma_insert_name_monotone(
                                    r0.active_connections@,
                                    c.records@[k].active_connections@,
                                    "config"@,
                                );
                            } else if r0.name@ == "config"@ {
                                lemma_insert_name_monotone(
                                    r0.active_connections@,
                                    c.records@[k].active_connections@,
                                    nm,
                                );
                            }
                        }
                    }
                    assert forall|k: int|
                        0 <= k < i + 1 && is_disconnected(#[trigger] es0[k], n as int, mx0)
                            implies mat_strength(c.matrix@, es0[k].name@, "config"@) == Some(
                        500_000u64,
                    ) && mat_strength(c.matrix@, "config"@, es0[k].name@) == Some(
                        500_000u64,
                    ) by {
                        if k < i {
                            if es0[k].name@ == nm {
                            } else {
                                assert(mat_strength(c.matrix@, es0[k].name@, "config"@)
                                    == mat_strength(cpre.matrix@, es0[k].name@, "config"@));
                                assert(mat_strength(c.matrix@, "config"@, es0[k].name@)
                                    == mat_strength(cpre.matrix@, "config"@, es0[k].name@));
                            }
                        }
                    }
                    assert forall|k: int, x: Seq<char>|
                        0 <= k < n && #[trigger] contains_name(
                            c.records@[k].active_connections@,
                            x,
                        ) implies contains_name(es0[k].active_connections@, x) || (k < i + 1
                        && is_disconnected(es0[k], n as int, mx0) && x == "config"@) || (
                    es0[k].name@ == "config"@ && exists|j: int|
                        0 <= j < i + 1 && #[trigger] is_disconnected(es0[j], n as int, mx0)
                            && es0[j].name@ == x) by {
                        let r0 = cpre.records@[k];
                        let r1 = c.records@[k];
                        assert(is_connect_record(r0, r1, nm, "config"@));
                        let in_pre = contains_name(r0.active_connections@, x);
                        if r0.name@ == nm {
                            lemma_insert_name_members(
                                r0.active_connections@,
                                r1.active_connections@,
                                "config"@,
                            );
                            if !in_pre {
                                if k < i {
                                    assert(es0[k].name@ != es0[i as int].name@);
                                } else if k > i {
                                    assert(es0[i as int].name@ != es0[k].name@);
                                }
                                assert(k == i);
                            }
                        } else if r0.name@ == "config"@ {
                            lemma_insert_name_members(
                                r0.active_connections@,
                                r1.active_connections@,
                                nm,
                            );
                            if !in_pre {
                                assert(x == nm);
                                assert(0 <= i < i + 1 && is_disconnected(
                                    es0[i as int],
                                    n as int,
                                    mx0,
                                ) && es0[i as int].name@ == x);
                            }
                        } else {
                            assert(r1 == r0);
                        }
                        if in_pre {
                            if es0[k].name@ == "config"@ && exists|j: int|
                                0 <= j < i && #[trigger] is_disconnected(es0[j], n as int, mx0)
                                    && es0[j].name@ == x {
                                let j = choose|j: int|
                                    0 <= j < i && #[trigger] is_disconnected(
                                        es0[j],
                                        n as int,
                                        mx0,
                                    ) && es0[j].name@ == x;
                                assert(0 <= j < i + 1 && is_disconnected(es0[j], n as int, mx0)
                                    && es0[j].name@ == x);
                            }
                        }
                    }
                    assert forall|k: int|
                        0 <= k < i + 1 && is_disconnected(#[trigger] es0[k], n as int, mx0)
                            && es0[k].name@ != "config"@ implies c.records@[k].active_connections@.len()
                        == 1 by {
                        let r0 = cpre.records@[k];
                        let r1 = c.records@[k];
                        assert(is_connect_record(r0, r1, nm, "config"@));
                        if k == i {
                            assert(es0[i as int].active_connections@.len() == 0);
                            assert(r0.active_connections@.len() == 0) by {
                                if r0.active_connections@.len() > 0 {
                                    assert(contains_name(
                                        r0.active_connections@,
                                        r0.active_connections@[0]@,
                                    ));
                                }
                            }
                            assert(!contains_name(r0.active_connections@, "config"@));
                        } else {
                            assert(es0[k].name@ != es0[i as int].name@);
                            assert(r1 == r0);
                        }
                    }
                    assert forall|p: Seq<char>, q: Seq<char>|
                        !is_heal_pair_upto(es0, mx0, (i + 1) as int, p, q) implies #[trigger] mat_strength(
                        c.matrix@,
                        p,
                        q,
                    ) == mat_strength(mx0, p, q) by {
                        assert(is_disconnected(es0[i as int], n as int, mx0));
                        assert(!is_heal_pair_upto(es0, mx0, i as int, p, q)) by {
                            if is_heal_pair_upto(es0, mx0, i as int, p, q) {
                                let j = choose|j: int|
                                    0 <= j < i && #[trigger] is_disconnected(
                                        es0[j],
                                        es0.len() as int,
                                        mx0,
                                    ) && ((p == es0[j].name@ && q == "config"@) || (p == "config"@
                                        && q == es0[j].name@));
                                assert(is_heal_pair_upto(es0, mx0, (i + 1) as int, p, q));
                            }
                        }
                        assert(!(p == nm && q == "config"@) && !(p == "config"@ && q == nm)) by {
                            if (p == nm && q == "config"@) || (p == "config"@ && q == nm) {
                                assert(is_heal_pair_upto(es0, mx0, (i + 1) as int, p, q));
                            }
                        }
                        assert(mat_strength(c.matrix@, p, q) == mat_strength(cpre.matrix@, p, q));
                    }
                }
            } else {
                proof {
                    assert(deep_view(actions@) =~= heal_lines_upto(es0, mx0, (i + 1) as int));
                    assert forall|k: int, x: Seq<char>|
                        0 <= k < n && #[trigger] contains_name(
                            c.records@[k].active_connections@,
                            x,
                        ) implies contains_name(es0[k].active_connections@, x) || (k < i + 1
                        && is_disconnected(es0[k], n as int, mx0) && x == "config"@) || (
                    es0[k].name@ == "config"@ && exists|j: int|
                        0 <= j < i + 1 && #[trigger] is_disconnected(es0[j], n as int, mx0)
                            && es0[j].name@ == x) by {
                        if es0[k].name@ == "config"@ && exists|j: int|
                            0 <= j < i && #[trigger] is_disconnected(es0[j], n as int, mx0)
                                && es0[j].name@ == x {
                            let j = choose|j: int|
                                0 <= j < i && #[trigger] is_disconnected(es0[j], n as int, mx0)
                                    && es0[j].name@ == x;
                            assert(0 <= j < i + 1 && is_disconnected(es0[j], n as int, mx0)
                                && es0[j].name@ == x);
                        }
                    }
                    assert forall|p: Seq<char>, q: Seq<char>|
                        !is_heal_pair_upto(es0, mx0, (i + 1) as int, p, q) implies #[trigger] mat_strength(
                        c.matrix@,
                        p,
                        q,
                    ) == mat_strength(mx0, p, q) by {
                        assert(!is_heal_pair_upto(es0, mx0, i as int, p, q)) by {
                            if is_heal_pair_upto(es0, mx0, i as int, p, q) {
                                let j = choose|j: int|
                                    0 <= j < i && #[trigger] is_disconnected(
                                        es0[j],
                                        es0.len() as int,
                                        mx0,
                                    ) && ((p == es0[j].name@ && q == "config"@) || (p == "config"@
                                        && q == es0[j].name@));
                                assert(is_heal_pair_upto(es0, mx0, (i + 1) as int, p, q));
                            }
                        }
                    }
                }
            }
        }
        actions
    }
}

} // verus!
