//! The coordinator: the registry of modules, the synergy matrix, the
//! rolling performance counters, and the bounded audit history.
//!
//! Every operation is total.  Timestamps come from one trusted clock
//! reading per operation; each operation with a `_at` variant is fully
//! determined by its arguments, and the clock-reading variant is proved
//! against the same postcondition with the reading left open.

use crate::audit::{audit_matches, audit_same, build_audit, is_history_after, ModuleAudit};
use crate::clock::now_millis;
use crate::matrix::{mat_set, mat_strength, MatrixEntry};
use crate::names::{insert_name, is_insert_name};
use crate::num::{ewma_avg, ewma_avg_exec, ewma_load, ewma_load_exec, inc64, max64, sat_inc};
use crate::registry::{
    contains_module, index_contents, index_get, index_insert, index_new, ModuleRecord, NameIndex,
};
use vstd::prelude::*;

verus! {

/// The coordinator's whole state.
pub struct HypergraphCoordinator {
    /// Position of each module's record, by name.
    pub name_index: NameIndex,
    /// One record per registered module, in registration order.
    pub records: Vec<ModuleRecord>,
    /// Strengths of the directed edges; stored in both directions.
    pub matrix: Vec<MatrixEntry>,
    /// The bounded audit history.
    pub audit_history: Vec<ModuleAudit>,
    /// Count of recorded activities, over all modules, known or not.
    pub total_operations: u64,
    /// Moving average of activity durations, in micro-milliseconds.
    pub average_response_micro_ms: u64,
    /// The latest clock reading seen, in milliseconds.
    pub clock_ms: u64,
}

impl HypergraphCoordinator {
    /// The registry is well formed: names are unique, the name index maps
    /// each name to its record's position and nothing else, and no record
    /// is newer than the latest clock reading.
    pub open spec fn inv(self) -> bool {
        &&& forall|i: int, j: int|
            0 <= i < j < self.records@.len() ==> #[trigger] self.records@[i].name@
                != #[trigger] self.records@[j].name@
        &&& forall|i: int|
            0 <= i < self.records@.len() ==> index_contents(self.name_index).contains_key(
                #[trigger] self.records@[i].name@,
            )
        &&& forall|i: int|
            0 <= i < self.records@.len() ==> index_contents(self.name_index)[#[trigger] self.records@[i].name@]
                == i as usize
        &&& forall|k: Seq<char>|
            index_contents(self.name_index).contains_key(k) ==> contains_module(self.records@, k)
        &&& forall|i: int|
            0 <= i < self.records@.len() ==> #[trigger] self.records@[i].last_activity_ms
                <= self.clock_ms
    }

    /// A coordinator with nothing registered and all counters at zero.
    pub fn new() -> (c: HypergraphCoordinator)
        ensures
            c.inv(),
            c.records@.len() == 0,
            c.matrix@.len() == 0,
            c.audit_history@.len() == 0,
            c.total_operations == 0,
            c.average_response_micro_ms == 0,
            c.clock_ms == 0,
    {
        HypergraphCoordinator {
            name_index: index_new(),
            records: Vec::new(),
            matrix: Vec::new(),
            audit_history: Vec::new(),
            total_operations: 0,
            average_response_micro_ms: 0,
            clock_ms: 0,
        }
    }

    /// The position of the module's record, if the name is registered.
    pub(crate) fn find_module(&self, name: &str) -> (r: Option<usize>)
        requires
            self.inv(),
        ensures
            match r {
                Some(i) => 0 <= i < self.records@.len() && self.records@[i as int].name@ == name@,
                None => !contains_module(self.records@, name@),
            },
    {
        let r = index_get(&self.name_index, name);
        proof {
            match r {
                Some(i) => {
                    vstd::std_specs::vec::axiom_spec_len(&self.records);
                    assert(index_contents(self.name_index).contains_key(name@));
                    assert(contains_module(self.records@, name@));
                    let p = choose|p: int|
                        0 <= p < self.records@.len() && self.records@[p].name@ == name@;
                    assert(index_contents(self.name_index).contains_key(self.records@[p].name@));
                    assert(index_contents(self.name_index)[self.records@[p].name@] == p as usize);
                    assert(i == p);
                },
                None => {
                    if contains_module(self.records@, name@) {
                        let p = choose|p: int|
                            0 <= p < self.records@.len() && self.records@[p].name@ == name@;
                        assert(index_contents(self.name_index).contains_key(
                            self.records@[p].name@,
                        ));
                    }
                },
            }
        }
        r
    }
}

/// A record as `register_module` creates it at time `t`.
pub open spec fn is_fresh_record(r: ModuleRecord, name: Seq<char>, t: u64) -> bool {
    &&& r.name@ == name
    &&& r.active_connections@.len() == 0
    &&& r.message_count == 0
    &&& r.error_count == 0
    &&& r.last_activity_ms == t
    &&& r.memory_usage == 0
    &&& r.cognitive_load_micro == 0
}

/// The invariant survives any step that keeps the name index, the set of
/// record positions and their names, and keeps every record no newer than
/// the clock.
proof fn lemma_inv_same_names(c0: HypergraphCoordinator, c1: HypergraphCoordinator)
    requires
        c0.inv(),
        c1.name_index == c0.name_index,
        c1.records@.len() == c0.records@.len(),
        forall|i: int|
            0 <= i < c0.records@.len() ==> #[trigger] c1.records@[i].name@ == c0.records@[i].name@,
        forall|i: int|
            0 <= i < c1.records@.len() ==> #[trigger] c1.records@[i].last_activity_ms
                <= c1.clock_ms,
    ensures
        c1.inv(),
{
    assert forall|k: Seq<char>|
        index_contents(c1.name_index).contains_key(k) implies contains_module(c1.records@, k) by {
        assert(contains_module(c0.records@, k));
        let p = choose|p: int| 0 <= p < c0.records@.len() && c0.records@[p].name@ == k;
        assert(c1.records@[p].name@ == k);
    }
}

/// Registration replaces the record of an already-registered name in
/// place (its position is kept, its counters are lost) and appends a
/// record for a new name.
pub open spec fn is_register_post(
    es: Seq<ModuleRecord>,
    es2: Seq<ModuleRecord>,
    name: Seq<char>,
    t: u64,
) -> bool {
    if contains_module(es, name) {
        &&& es2.len() == es.len()
        &&& forall|i: int|
            0 <= i < es.len() && es[i].name@ != name ==> #[trigger] es2[i] == es[i]
        &&& forall|i: int|
            0 <= i < es.len() && es[i].name@ == name ==> is_fresh_record(#[trigger] es2[i], name, t)
    } else {
        &&& es2.len() == es.len() + 1
        &&& forall|i: int| 0 <= i < es.len() ==> #[trigger] es2[i] == es[i]
        &&& is_fresh_record(es2[es.len() as int], name, t)
    }
}

/// The per-operation cognitive-load factor, in micro-units.
pub open spec fn load_factor_micro(op: Seq<char>) -> u64 {
    if op == "llm_completion"@ {
        800_000u64
    } else if op == "embedding"@ {
        500_000u64
    } else if op == "session_management"@ {
        300_000u64
    } else if op == "rag_query"@ {
        600_000u64
    } else if op == "hypergraph_update"@ {
        900_000u64
    } else {
        400_000u64
    }
}

/// How one activity at time `t` changes the module's own record.
pub open spec fn is_activity_update(
    r0: ModuleRecord,
    r1: ModuleRecord,
    op: Seq<char>,
    dur_ms: u64,
    t: u64,
) -> bool {
    &&& r1.name@ == r0.name@
    &&& r1.active_connections@ == r0.active_connections@
    &&& r1.message_count == sat_inc(r0.message_count)
    &&& r1.error_count == r0.error_count
    &&& r1.last_activity_ms == t
    &&& r1.memory_usage == r0.memory_usage
    &&& r1.cognitive_load_micro == ewma_load(r0.cognitive_load_micro, load_factor_micro(op), dur_ms)
}

/// How one activity changes the registry: only the named module's record
/// moves, and only if that name is registered.
pub open spec fn is_activity_post(
    es: Seq<ModuleRecord>,
    es2: Seq<ModuleRecord>,
    name: Seq<char>,
    op: Seq<char>,
    dur_ms: u64,
    t: u64,
) -> bool {
    &&& es2.len() == es.len()
    &&& forall|i: int| 0 <= i < es.len() && es[i].name@ != name ==> #[trigger] es2[i] == es[i]
    &&& forall|i: int|
        0 <= i < es.len() && es[i].name@ == name ==> is_activity_update(
            es[i],
            #[trigger] es2[i],
            op,
            dur_ms,
            t,
        )
}

/// How one recorded error changes the registry.
pub open spec fn is_error_post(
    es: Seq<ModuleRecord>,
    es2: Seq<ModuleRecord>,
    name: Seq<char>,
) -> bool {
    &&& es2.len() == es.len()
    &&& forall|i: int| 0 <= i < es.len() && es[i].name@ != name ==> #[trigger] es2[i] == es[i]
    &&& forall|i: int|
        0 <= i < es.len() && es[i].name@ == name ==> {
            let r0 = es[i];
            let r1 = #[trigger] es2[i];
            &&& r1.name == r0.name
            &&& r1.active_connections == r0.active_connections
            &&& r1.message_count == r0.message_count
            &&& r1.error_count == sat_inc(r0.error_count)
            &&& r1.last_activity_ms == r0.last_activity_ms
            &&& r1.memory_usage == r0.memory_usage
            &&& r1.cognitive_load_micro == r0.cognitive_load_micro
        }
}

/// Everything but the connection set is kept.
pub open spec fn same_but_connections(r0: ModuleRecord, r1: ModuleRecord) -> bool {
    &&& r1.name == r0.name
    &&& r1.message_count == r0.message_count
    &&& r1.error_count == r0.error_count
    &&& r1.last_activity_ms == r0.last_activity_ms
    &&& r1.memory_usage == r0.memory_usage
    &&& r1.cognitive_load_micro == r0.cognitive_load_micro
}

/// How establishing the edge `(a, b)` changes one record: each endpoint
/// that is registered learns the other's name; everyone else is untouched.
pub open spec fn is_connect_record(
    r0: ModuleRecord,
    r1: ModuleRecord,
    a: Seq<char>,
    b: Seq<char>,
) -> bool {
    if r0.name@ == a {
        same_but_connections(r0, r1) && is_insert_name(
            r0.active_connections@,
            r1.active_connections@,
            b,
        )
    } else if r0.name@ == b {
        same_but_connections(r0, r1) && is_insert_name(
            r0.active_connections@,
            r1.active_connections@,
            a,
        )
    } else {
        r1 == r0
    }
}

impl HypergraphCoordinator {
    /// Register a module under `module_name` with a fresh record, dated by
    /// the given clock reading.
    pub fn register_module_at(&mut self, module_name: &str, now_ms: u64)
        requires
            old(self).inv(),
        ensures
            final(self).inv(),
            final(self).clock_ms == if old(self).clock_ms >= now_ms {
                old(self).clock_ms
            } else {
                now_ms
            },
            is_register_post(
                old(self).records@,
                final(self).records@,
                module_name@,
                final(self).clock_ms,
            ),
            final(self).matrix == old(self).matrix,
            final(self).audit_history == old(self).audit_history,
            final(self).total_operations == old(self).total_operations,
            final(self).average_response_micro_ms == old(self).average_response_micro_ms,
    {
        self.clock_ms = max64(self.clock_ms, now_ms);
        let rec = ModuleRecord {
            name: module_name.to_owned(),
            active_connections: Vec::new(),
            message_count: 0,
            error_count: 0,
            last_activity_ms: self.clock_ms,
            memory_usage: 0,
            cognitive_load_micro: 0,
        };
        let found = self.find_module(module_name);
        match found {
            Some(i) => {
                self.records[i] = rec;
                proof {
                    assert forall|j: int|
                        0 <= j < self.records@.len() implies #[trigger] self.records@[j].name@
                        == old(self).records@[j].name@ by {
                        if j != i {
                            assert(self.records@[j] == old(self).records@[j]);
                        }
                    }
                    assert forall|j: int|
                        0 <= j < self.records@.len() implies #[trigger] self.records@[j].last_activity_ms
                        <= self.clock_ms by {
                        if j != i {
                            assert(self.records@[j] == old(self).records@[j]);
                            assert(old(self).records@[j].last_activity_ms <= old(self).clock_ms);
                        }
                    }
                    lemma_inv_same_names(*old(self), *self);
                    assert(contains_module(old(self).records@, module_name@));
                }
            },
            None => {
                let i = self.records.len();
                index_insert(&mut self.name_index, module_name.to_owned(), i);
                self.records.push(rec);
                proof {
                    let es0 = old(self).records@;
                    let es2 = self.records@;
                    let con = index_contents(self.name_index);
                    assert(con == index_contents(old(self).name_index).insert(
                        module_name@,
                        i as usize,
                    ));
                    assert(forall|j: int| 0 <= j < es0.len() ==> #[trigger] es2[j] == es0[j]);
                    assert(forall|j: int|
                        0 <= j < es0.len() ==> #[trigger] es2[j].name@ != module_name@);
                    assert forall|k: Seq<char>| con.contains_key(k) implies contains_module(
                        es2,
                        k,
                    ) by {
                        if k == module_name@ {
                            assert(es2[es2.len() - 1].name@ == k);
                        } else {
                            assert(index_contents(old(self).name_index).contains_key(k));
                            assert(contains_module(es0, k));
                            let p = choose|p: int|
                                0 <= p < es0.len() && es0[p].name@ == k;
                            assert(es2[p].name@ == k);
                        }
                    }
                    assert forall|j: int|
                        0 <= j < es2.len() implies con.contains_key(
                        #[trigger] es2[j].name@,
                    ) && con[es2[j].name@] == j as usize by {
                        if j < es0.len() {
                            assert(index_contents(old(self).name_index).contains_key(
                                es2[j].name@,
                            ));
                        }
                    }
                    assert forall|j: int|
                        0 <= j < es2.len() implies #[trigger] es2[j].last_activity_ms
                        <= self.clock_ms by {
                        if j < es0.len() {
                            assert(es0[j].last_activity_ms <= old(self).clock_ms);
                        }
                    }
                }
            },
        }
    }

    /// Register a module, dated by the current clock.
    pub fn register_module(&mut self, module_name: &str)
        requires
            old(self).inv(),
        ensures
            final(self).inv(),
            final(self).clock_ms >= old(self).clock_ms,
            is_register_post(
                old(self).records@,
                final(self).records@,
                module_name@,
                final(self).clock_ms,
            ),
            final(self).matrix == old(self).matrix,
            final(self).audit_history == old(self).audit_history,
            final(self).total_operations == old(self).total_operations,
            final(self).average_response_micro_ms == old(self).average_response_micro_ms,
    {
        let t = now_millis();
        self.register_module_at(module_name, t);
    }

    /// Record one activity of the named module: its message count and
    /// cognitive load move, and the global counters move whether or not
    /// the name is registered.
    pub fn record_activity_at(
        &mut self,
        module_name: &str,
        operation_type: &str,
        duration_ms: u64,
        now_ms: u64,
    )
        requires
            old(self).inv(),
        ensures
            final(self).inv(),
            final(self).clock_ms == if old(self).clock_ms >= now_ms {
                old(self).clock_ms
            } else {
                now_ms
            },
            is_activity_post(
                old(self).records@,
                final(self).records@,
                module_name@,
                operation_type@,
                duration_ms,
                final(self).clock_ms,
            ),
            final(self).total_operations == sat_inc(old(self).total_operations),
            final(self).average_response_micro_ms == ewma_avg(
                old(self).average_response_micro_ms,
                duration_ms,
            ),
            final(self).matrix == old(self).matrix,
            final(self).audit_history == old(self).audit_history,
            final(self).name_index == old(self).name_index,
    {
        self.clock_ms = max64(self.clock_ms, now_ms);
        let found = self.find_module(module_name);
        if let Some(i) = found {
            let factor = load_factor_exec(operation_type);
            let r = &mut self.records[i];
            r.message_count = inc64(r.message_count);
            r.last_activity_ms = self.clock_ms;
            r.cognitive_load_micro = ewma_load_exec(r.cognitive_load_micro, factor, duration_ms);
            proof {
                let es0 = old(self).records@;
                let es1 = self.records@;
                assert(forall|j: int|
                    0 <= j < es1.len() && j != i ==> #[trigger] es1[j] == es0[j]);
                assert forall|j: int|
                    0 <= j < es1.len() implies #[trigger] es1[j].name@ == es0[j].name@ by {
                    if j != i {
                        assert(es1[j] == es0[j]);
                    }
                }
                assert forall|j: int|
                    0 <= j < es1.len() implies #[trigger] es1[j].last_activity_ms
                    <= self.clock_ms by {
                    if j != i {
                        assert(es0[j].last_activity_ms <= old(self).clock_ms);
                    }
                }
                lemma_inv_same_names(*old(self), *self);
                assert forall|j: int|
                    0 <= j < es0.len() && es0[j].name@ == module_name@ implies is_activity_update(
                    es0[j],
                    #[trigger] es1[j],
                    operation_type@,
                    duration_ms,
                    self.clock_ms,
                ) by {
                    if j < i {
                        assert(es0[j].name@ != es0[i as int].name@);
                    } else if j > i {
                        assert(es0[i as int].name@ != es0[j].name@);
                    }
                }
            }
        }
        self.total_operations = inc64(self.total_operations);
        self.average_response_micro_ms = ewma_avg_exec(
            self.average_response_micro_ms,
            duration_ms,
        );
    }

    /// Record one activity, dated by the current clock.
    pub fn record_activity(&mut self, module_name: &str, operation_type: &str, duration_ms: u64)
        requires
            old(self).inv(),
        ensures
            final(self).inv(),
            final(self).clock_ms >= old(self).clock_ms,
            is_activity_post(
                old(self).records@,
                final(self).records@,
                module_name@,
                operation_type@,
                duration_ms,
                final(self).clock_ms,
            ),
            final(self).total_operations == sat_inc(old(self).total_operations),
            final(self).average_response_micro_ms == ewma_avg(
                old(self).average_response_micro_ms,
                duration_ms,
            ),
            final(self).matrix == old(self).matrix,
            final(self).audit_history == old(self).audit_history,
    {
        let t = now_millis();
        self.record_activity_at(module_name, operation_type, duration_ms, t);
    }

    /// Record an error of the named module.  The text is for the host's
    /// log and does not reach the coordinator's state.
    pub fn record_error(&mut self, module_name: &str, _error_text: &str)
        requires
            old(self).inv(),
        ensures
            final(self).inv(),
            is_error_post(old(self).records@, final(self).records@, module_name@),
            final(self).matrix == old(self).matrix,
            final(self).audit_history == old(self).audit_history,
            final(self).total_operations == old(self).total_operations,
            final(self).average_response_micro_ms == old(self).average_response_micro_ms,
            final(self).clock_ms == old(self).clock_ms,
            final(self).name_index == old(self).name_index,
    {
        let found = self.find_module(module_name);
        if let Some(i) = found {
            let r = &mut self.records[i];
            r.error_count = inc64(r.error_count);
            proof {
                let es0 = old(self).records@;
                let es1 = self.records@;
                assert(forall|j: int|
                    0 <= j < es1.len() && j != i ==> #[trigger] es1[j] == es0[j]);
                assert forall|j: int|
                    0 <= j < es1.len() implies #[trigger] es1[j].name@ == es0[j].name@ by {
                    if j != i {
                        assert(es1[j] == es0[j]);
                    }
                }
                assert forall|j: int|
                    0 <= j < es1.len() implies #[trigger] es1[j].last_activity_ms
                    <= self.clock_ms by {
                    if j != i {
                        assert(es1[j] == es0[j]);
                    }
                }
                lemma_inv_same_names(*old(self), *self);
                assert forall|j: int|
                    0 <= j < es0.len() && #[trigger] es0[j].name@ == module_name@ implies j
                    == i as int by {
                    if j < i {
                        assert(es0[j].name@ != es0[i as int].name@);
                    } else if j > i {
                        assert(es0[i as int].name@ != es0[j].name@);
                    }
                }
            }
        }
    }

    /// Establish (or re-weigh) the undirected edge between `module_a` and
    /// `module_b` with the given strength.  Each endpoint that is
    /// registered learns the other's name; the matrix takes both directed
    /// entries either way.
    pub fn establish_connection(&mut self, module_a: &str, module_b: &str, strength_micro: u64)
        requires
            old(self).inv(),
        ensures
            final(self).inv(),
            final(self).records@.len() == old(self).records@.len(),
            forall|i: int|
                0 <= i < old(self).records@.len() ==> is_connect_record(
                    old(self).records@[i],
                    #[trigger] final(self).records@[i],
                    module_a@,
                    module_b@,
                ),
            mat_strength(final(self).matrix@, module_a@, module_b@) == Some(strength_micro),
            mat_strength(final(self).matrix@, module_b@, module_a@) == Some(strength_micro),
            forall|p: Seq<char>, q: Seq<char>|
                !(p == module_a@ && q == module_b@) && !(p == module_b@ && q == module_a@)
                    ==> #[trigger] mat_strength(final(self).matrix@, p, q) == mat_strength(
                    old(self).matrix@,
                    p,
                    q,
                ),
            final(self).audit_history == old(self).audit_history,
            final(self).total_operations == old(self).total_operations,
            final(self).average_response_micro_ms == old(self).average_response_micro_ms,
            final(self).clock_ms == old(self).clock_ms,
            final(self).name_index == old(self).name_index,
    {
        let found_a = self.find_module(module_a);
        if let Some(i) = found_a {
            let r = &mut self.records[i];
            insert_name(&mut r.active_connections, module_b.to_owned());
            proof {
                let es0 = old(self).records@;
                let es1 = self.records@;
                assert(forall|j: int|
                    0 <= j < es1.len() && j != i ==> #[trigger] es1[j] == es0[j]);
                assert(same_but_connections(es0[i as int], es1[i as int]));
                assert(is_insert_name(
                    es0[i as int].active_connections@,
                    es1[i as int].active_connections@,
                    module_b@,
                ));
                assert forall|j: int|
                    0 <= j < es1.len() implies #[trigger] es1[j].name@ == es0[j].name@ by {
                    if j != i {
                        assert(es1[j] == es0[j]);
                    }
                }
                assert forall|j: int|
                    0 <= j < es1.len() implies #[trigger] es1[j].last_activity_ms
                    <= self.clock_ms by {
                    if j != i {
                        assert(es1[j] == es0[j]);
                    }
                }
                lemma_inv_same_names(*old(self), *self);
            }
        }
        let ghost mid = *self;
        proof {
            assert(mid.inv());
        }
        let found_b = self.find_module(module_b);
        if let Some(j) = found_b {
            let r = &mut self.records[j];
            insert_name(&mut r.active_connections, module_a.to_owned());
            proof {
                let es1 = mid.records@;
                let es2 = self.records@;
                assert(forall|k: int|
                    0 <= k < es2.len() && k != j ==> #[trigger] es2[k] == es1[k]);
                assert(same_but_connections(es1[j as int], es2[j as int]));
                assert(is_insert_name(
                    es1[j as int].active_connections@,
                    es2[j as int].active_connections@,
                    module_a@,
                ));
                assert forall|k: int|
                    0 <= k < es2.len() implies #[trigger] es2[k].name@ == es1[k].name@ by {
                    if k != j {
                        assert(es2[k] == es1[k]);
                    }
                }
                assert forall|k: int|
                    0 <= k < es2.len() implies #[trigger] es2[k].last_activity_ms
                    <= self.clock_ms by {
                    if k != j {
                        assert(es2[k] == es1[k]);
                    }
                }
                lemma_inv_same_names(mid, *self);
            }
        }
        proof {
            let es0 = old(self).records@;
            let esm = mid.records@;
            let es2 = self.records@;
            assert forall|t: int|
                0 <= t < es0.len() implies is_connect_record(
                es0[t],
                #[trigger] es2[t],
                module_a@,
                module_b@,
            ) by {
                if es0[t].name@ == module_a@ {
                    let i = found_a.unwrap() as int;
                    if t < i {
                        assert(es0[t].name@ != es0[i].name@);
                    } else if t > i {
                        assert(es0[i].name@ != es0[t].name@);
                    }
                    assert(t == i);
                    if module_a@ == module_b@ {
                        let j = found_b.unwrap() as int;
                        if t < j {
                            assert(esm[t].name@ != esm[j].name@);
                        } else if t > j {
                            assert(esm[j].name@ != esm[t].name@);
                        }
                        assert(t == j);
                        assert(crate::names::contains_name(
                            esm[t].active_connections@,
                            module_a@,
                        ));
                        assert(es2[t].active_connections@ == esm[t].active_connections@);
                        assert(is_insert_name(
                            es0[t].active_connections@,
                            es2[t].active_connections@,
                            module_b@,
                        ));
                        assert(same_but_connections(es0[t], es2[t]));
                    } else {
                        if found_b is Some {
                            let j = found_b.unwrap() as int;
                            assert(esm[j].name@ == module_b@);
                            assert(t != j);
                        }
                        assert(es2[t] == esm[t]);
                    }
                } else if es0[t].name@ == module_b@ {
                    if found_a is Some {
                        let i = found_a.unwrap() as int;
                        assert(es0[i].name@ == module_a@);
                        assert(t != i);
                    }
                    assert(esm[t] == es0[t]);
                    let j = found_b.unwrap() as int;
                    if t < j {
                        assert(esm[t].name@ != esm[j].name@);
                    } else if t > j {
                        assert(esm[j].name@ != esm[t].name@);
                    }
                    assert(t == j);
                } else {
                    if found_a is Some {
                        let i = found_a.unwrap() as int;
                        assert(t != i);
                    }
                    assert(esm[t] == es0[t]);
                    if found_b is Some {
                        let j = found_b.unwrap() as int;
                        assert(esm[j].name@ == module_b@);
                        assert(t != j);
                    }
                    assert(es2[t] == esm[t]);
                }
            }
        }
        mat_set(
            &mut self.matrix,
            module_a.to_owned(),
            module_b.to_owned(),
            strength_micro,
        );
        let ghost m1 = self.matrix@;
        mat_set(
            &mut self.matrix,
            module_b.to_owned(),
            module_a.to_owned(),
            strength_micro,
        );
        proof {
            if module_a@ != module_b@ {
                assert(mat_strength(self.matrix@, module_a@, module_b@) == mat_strength(
                    m1,
                    module_a@,
                    module_b@,
                ));
            }
            assert forall|p: Seq<char>, q: Seq<char>|
                !(p == module_a@ && q == module_b@) && !(p == module_b@ && q
                == module_a@) implies #[trigger] mat_strength(self.matrix@, p, q) == mat_strength(
                old(self).matrix@,
                p,
                q,
            ) by {
                assert(mat_strength(self.matrix@, p, q) == mat_strength(m1, p, q));
                assert(mat_strength(m1, p, q) == mat_strength(old(self).matrix@, p, q));
            }
        }
    }
}

impl HypergraphCoordinator {
    /// Audit every registered module, in registration order, against the
    /// given clock reading; append the results to the bounded history.
    pub fn audit_core_modules_at(&mut self, now_ms: u64) -> (audits: Vec<ModuleAudit>)
        requires
            old(self).inv(),
        ensures
            final(self).inv(),
            final(self).clock_ms == if old(self).clock_ms >= now_ms {
                old(self).clock_ms
            } else {
                now_ms
            },
            audits@.len() == old(self).records@.len(),
            forall|i: int|
                0 <= i < audits@.len() ==> audit_matches(
                    #[trigger] audits@[i],
                    old(self).records@[i],
                    old(self).records@.len() as int,
                    old(self).matrix@,
                    final(self).clock_ms,
                ),
            is_history_after(old(self).audit_history@, audits@, final(self).audit_history@),
            final(self).records == old(self).records,
            final(self).matrix == old(self).matrix,
            final(self).total_operations == old(self).total_operations,
            final(self).average_response_micro_ms == old(self).average_response_micro_ms,
            final(self).name_index == old(self).name_index,
    {
        self.clock_ms = max64(self.clock_ms, now_ms);
        let ghost snap = *self;
        let t = self.clock_ms;
        let n = self.records.len();
        let mut audits: Vec<ModuleAudit> = Vec::new();
        for i in 0..n
            invariant
                *self == snap,
                self.inv(),
                t == self.clock_ms,
                n == self.records@.len(),
                audits@.len() == i,
                forall|k: int|
                    0 <= k < i ==> audit_matches(
                        #[trigger] audits@[k],
                        self.records@[k],
                        n as int,
                        self.matrix@,
                        t,
                    ),
        {
            let a = build_audit(&self.records[i], n, &self.matrix, t);
            audits.push(a);
        }
        let ghost h0 = self.audit_history@;
        let m = audits.len();
        for i in 0..m
            invariant
                m == audits@.len(),
                self.audit_history@.len() == h0.len() + i,
                forall|k: int| 0 <= k < h0.len() ==> #[trigger] self.audit_history@[k] == h0[k],
                forall|k: int|
                    0 <= k < i ==> audit_same(
                        #[trigger] self.audit_history@[h0.len() + k],
                        audits@[k],
                    ),
                self.records == snap.records,
                self.matrix == snap.matrix,
                self.name_index == snap.name_index,
                self.clock_ms == snap.clock_ms,
                self.total_operations == snap.total_operations,
                self.average_response_micro_ms == snap.average_response_micro_ms,
        {
            let d = audits[i].duplicate();
            self.audit_history.push(d);
        }
        let ghost hmid = self.audit_history@;
        if self.audit_history.len() > 1000 {
            let len = self.audit_history.len();
            let mut kept: Vec<ModuleAudit> = Vec::new();
            for i in 500..len
                invariant
                    len == self.audit_history@.len(),
                    len > 1000,
                    kept@.len() == i - 500,
                    forall|k: int|
                        0 <= k < kept@.len() ==> audit_same(
                            #[trigger] kept@[k],
                            self.audit_history@[k + 500],
                        ),
                    self.audit_history@ == hmid,
                    self.records == snap.records,
                    self.matrix == snap.matrix,
                    self.name_index == snap.name_index,
                    self.clock_ms == snap.clock_ms,
                    self.total_operations == snap.total_operations,
                    self.average_response_micro_ms == snap.average_response_micro_ms,
            {
                let d = self.audit_history[i].duplicate();
                kept.push(d);
            }
            self.audit_history = kept;
        }
        proof {
            let full = h0 + audits@;
            let drop = crate::audit::truncate_drop(full.len() as int);
            let h1 = self.audit_history@;
            assert(hmid.len() == full.len());
            assert forall|k: int| 0 <= k < hmid.len() implies audit_same(
                #[trigger] hmid[k],
                full[k],
            ) by {
                if k < h0.len() {
                    assert(hmid[k] == h0[k]);
                    assert(full[k] == h0[k]);
                } else {
                    let k2 = k - h0.len();
                    assert(audit_same(hmid[h0.len() + k2], audits@[k2]));
                    assert(hmid[h0.len() + k2] == hmid[k]);
                    assert(full[k] == audits@[k2]);
                }
            }
            assert forall|k: int| 0 <= k < h1.len() implies audit_same(
                #[trigger] h1[k],
                full[k + drop],
            ) by {
                if drop == 500 {
                    assert(audit_same(h1[k], hmid[k + 500]));
                    assert(audit_same(hmid[k + 500], full[k + 500]));
                } else {
                    assert(h1 == hmid);
                    assert(audit_same(h1[k], full[k]));
                }
            }
        }
        audits
    }

    /// Audit every registered module, dated by the current clock.
    pub fn audit_core_modules(&mut self) -> (audits: Vec<ModuleAudit>)
        requires
            old(self).inv(),
        ensures
            final(self).inv(),
            final(self).clock_ms >= old(self).clock_ms,
            audits@.len() == old(self).records@.len(),
            forall|i: int|
                0 <= i < audits@.len() ==> audit_matches(
                    #[trigger] audits@[i],
                    old(self).records@[i],
                    old(self).records@.len() as int,
                    old(self).matrix@,
                    final(self).clock_ms,
                ),
            is_history_after(old(self).audit_history@, audits@, final(self).audit_history@),
            final(self).records == old(self).records,
            final(self).matrix == old(self).matrix,
            final(self).total_operations == old(self).total_operations,
            final(self).average_response_micro_ms == old(self).average_response_micro_ms,
            final(self).name_index == old(self).name_index,
    {
        let t = now_millis();
        self.audit_core_modules_at(t)
    }
}

/// The cognitive-load factor for an operation type.
fn load_factor_exec(operation_type: &str) -> (f: u64)
    ensures
        f == load_factor_micro(operation_type@),
{
    let op = operation_type.to_owned();
    if op.eq(&"llm_completion".to_owned()) {
        800_000
    } else if op.eq(&"embedding".to_owned()) {
        500_000
    } else if op.eq(&"session_management".to_owned()) {
        300_000
    } else if op.eq(&"rag_query".to_owned()) {
        600_000
    } else if op.eq(&"hypergraph_update".to_owned()) {
        900_000
    } else {
        400_000
    }
}

/// The explicit initialisation entry point: a fresh coordinator for the
/// host to own (and usually to wrap in its own process-wide cell).
pub fn init_hypergraph_coordinator() -> (c: HypergraphCoordinator)
    ensures
        c.inv(),
        c.records@.len() == 0,
        c.matrix@.len() == 0,
        c.audit_history@.len() == 0,
        c.total_operations == 0,
        c.average_response_micro_ms == 0,
        c.clock_ms == 0,
{
    HypergraphCoordinator::new()
}

} // verus!
