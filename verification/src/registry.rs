//! Module records, and the name index that backs the registry.
//!
//! The registry itself lives in the coordinator as a vector of records in
//! registration order, together with an `indexmap::IndexMap` from module
//! name to position in that vector.  The map is opaque to the verifier; the
//! trusted wrappers below state what its operations do to its contents.

use indexmap::IndexMap;
use vstd::prelude::*;

verus! {

/// Everything the coordinator tracks about one module.
pub struct ModuleRecord {
    pub name: String,
    /// Peer module names, without duplicates, in first-connection order.
    pub active_connections: Vec<String>,
    pub message_count: u64,
    pub error_count: u64,
    pub last_activity_ms: u64,
    pub memory_usage: u64,
    pub cognitive_load_micro: u64,
}

#[verifier::external_type_specification]
#[verifier::external_body]
#[verifier::reject_recursive_types(K)]
#[verifier::reject_recursive_types(V)]
#[verifier::reject_recursive_types(S)]
pub struct ExIndexMap<K, V, S>(IndexMap<K, V, S>);

/// The registry's name index: module name to position.
pub type NameIndex = IndexMap<String, usize>;

/// What a name index holds: the views of its keys mapped to its values.
pub uninterp spec fn index_contents(m: NameIndex) -> Map<Seq<char>, usize>;

/// The contents of a name index with nothing in it.
pub open spec fn empty_index() -> Map<Seq<char>, usize> {
    Map::empty()
}

/// Relies on indexmap::IndexMap::new: the new map is empty.
#[verifier::external_body]
pub(crate) fn index_new() -> (r: NameIndex)
    ensures
        index_contents(r) == empty_index(),
{
    IndexMap::new()
}

/// Relies on indexmap::IndexMap::get: the value stored under the key whose
/// view is `name@`, if one is present.
#[verifier::external_body]
pub(crate) fn index_get(m: &NameIndex, name: &str) -> (r: Option<usize>)
    ensures
        r is Some <==> index_contents(*m).contains_key(name@),
        r is Some ==> r == Some(index_contents(*m)[name@]),
{
    m.get(name).copied()
}

/// Relies on indexmap::IndexMap::insert: stores the value under the key,
/// replacing a previous binding of an equal key if there was one.
#[verifier::external_body]
pub(crate) fn index_insert(m: &mut NameIndex, name: String, i: usize)
    ensures
        index_contents(*final(m)) == index_contents(*old(m)).insert(name@, i),
{
    m.insert(name, i);
}

/// Whether some record in `records` is for the module named `name`.
pub open spec fn contains_module(records: Seq<ModuleRecord>, name: Seq<char>) -> bool {
    exists|i: int| 0 <= i < records.len() && records[i].name@ == name
}

} // verus!
