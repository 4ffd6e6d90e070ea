//! The table of active plugins, a concurrent map keyed by plugin id.
//!
//! The map is `dashmap::DashMap`; what it holds is known here only
//! through the trusted items below.  None of them keeps a reference
//! into the map, so none can block another.

use vstd::prelude::*;
use crate::plugin::record::Plugin;
use crate::text::texts;

verus! {

#[verifier::external_type_specification]
#[verifier::external_body]
#[verifier::reject_recursive_types(K)]
#[verifier::reject_recursive_types(V)]
#[verifier::reject_recursive_types(S)]
pub struct ExDashMap<K, V, S>(dashmap::DashMap<K, V, S>);

/// What a plugin table holds: the plugin record for each id.
pub uninterp spec fn table_contents(table: dashmap::DashMap<String, Plugin>) -> Map<Seq<char>, Plugin>;

/// The contents of a table that holds nothing.
pub open spec fn empty_table() -> Map<Seq<char>, Plugin> {
    Map::empty()
}

/// `DashMap::new`: a map that holds nothing.
#[verifier::external_body]
pub(crate) fn table_new() -> (fresh: dashmap::DashMap<String, Plugin>)
    ensures
        table_contents(fresh) == empty_table(),
{
    dashmap::DashMap::new()
}

/// `DashMap::insert`: binds `key` to `value`, replacing and returning the
/// value that was bound before, if any.
#[verifier::external_body]
pub(crate) fn table_insert(
    table: &mut dashmap::DashMap<String, Plugin>,
    key: String,
    value: Plugin,
) -> (previous: Option<Plugin>)
    ensures
        table_contents(*final(table)) == table_contents(*old(table)).insert(key@, value),
        previous == if table_contents(*old(table)).dom().contains(key@) {
            Some(table_contents(*old(table))[key@])
        } else {
            None
        },
{
    table.insert(key, value)
}

/// `DashMap::get`, then a copy of the value found: the record bound to
/// `key`, if any.
#[verifier::external_body]
pub(crate) fn table_get(table: &dashmap::DashMap<String, Plugin>, key: &str) -> (found: Option<
    Plugin,
>)
    ensures
        found == if table_contents(*table).dom().contains(key@) {
            Some(table_contents(*table)[key@])
        } else {
            None
        },
{
    table.get(key).map(|entry| entry.value().clone())
}

/// `DashMap::remove`: unbinds `key` and returns the value that was bound,
/// if any.
#[verifier::external_body]
pub(crate) fn table_remove(table: &mut dashmap::DashMap<String, Plugin>, key: &str) -> (removed:
    Option<Plugin>)
    ensures
        table_contents(*final(table)) == table_contents(*old(table)).remove(key@),
        removed == if table_contents(*old(table)).dom().contains(key@) {
            Some(table_contents(*old(table))[key@])
        } else {
            None
        },
{
    table.remove(key).map(|pair| pair.1)
}

/// `DashMap::iter`, keeping each entry's key: every bound key once, in no
/// particular order.
#[verifier::external_body]
pub(crate) fn table_keys(table: &dashmap::DashMap<String, Plugin>) -> (keys: Vec<String>)
    ensures
        forall|k: Seq<char>| #[trigger]
            texts(keys@).contains(k) <==> table_contents(*table).dom().contains(k),
        forall|i: int, j: int| 0 <= i < j < keys@.len() ==> keys@[i]@ != keys@[j]@,
{
    table.iter().map(|entry| entry.key().clone()).collect()
}

} // verus!
