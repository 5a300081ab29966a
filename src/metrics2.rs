use dashmap::mapref::entry::Entry;
use dashmap::mapref::one::RefMut;
use dashmap::DashMap;
use std::collections::hash_map::RandomState;
use std::sync::Arc;
use vstd::prelude::*;

use crate::counters::{listing_of, listing_text, pairs_view};
use crate::error::MetricsError;

verus! {

#[verifier::external_type_specification]
#[verifier::external_body]
#[verifier::reject_recursive_types(K)]
#[verifier::reject_recursive_types(V)]
#[verifier::reject_recursive_types(S)]
pub struct ExDashMap<K, V, S>(DashMap<K, V, S>);

#[verifier::external_type_specification]
#[verifier::external_body]
#[verifier::reject_recursive_types(K)]
#[verifier::reject_recursive_types(V)]
pub struct ExEntry<'a, K, V>(Entry<'a, K, V>);

#[verifier::external_type_specification]
#[verifier::external_body]
#[verifier::reject_recursive_types(K)]
#[verifier::reject_recursive_types(V)]
pub struct ExRefMut<'a, K, V>(RefMut<'a, K, V>);

/// Relies on dashmap's `DashMap::new`: a map with no entries.
#[verifier::external_body]
fn empty_map() -> (r: DashMap<String, i64, RandomState>) {
    DashMap::new()
}

/// Relies on dashmap's `DashMap::entry`: the entry of `key`, which holds the
/// key's shard locked until it is dropped.
#[verifier::external_body]
fn entry_of<'a>(map: &'a DashMap<String, i64, RandomState>, key: String) -> (r: Entry<'a, String, i64>) {
    map.entry(key)
}

/// Relies on dashmap's `Entry::or_insert`: a guard on the entry's value,
/// inserting `value` first when the key was absent.
#[verifier::external_body]
fn or_insert<'a>(entry: Entry<'a, String, i64>, value: i64) -> (r: RefMut<'a, String, i64>) {
    entry.or_insert(value)
}

/// Relies on dashmap's `RefMut::value_mut`: the guarded value, for writing.
#[verifier::external_body]
fn value_mut<'a, 'b>(guard: &'b mut RefMut<'a, String, i64>) -> (r: &'b mut i64) {
    guard.value_mut()
}

/// Relies on dashmap's `DashMap::iter`: each key with its count, in the
/// order the map walks its shards, which nothing fixes.
#[verifier::external_body]
fn pairs_of(map: &DashMap<String, i64, RandomState>) -> (r: Vec<(String, i64)>) {
    map.iter().map(|e| (e.key().clone(), *e.value())).collect()
}

/// Named counters shared between threads in a sharded concurrent map.
#[derive(Clone)]
pub struct Metrics2 {
    pub data: Arc<DashMap<String, i64, RandomState>>,
}

impl Default for Metrics2 {
    fn default() -> Self {
        Self::new()
    }
}

impl Metrics2 {
    /// A store with no counters.
    pub fn new() -> (r: Self) {
        Metrics2 { data: Arc::new(empty_map()) }
    }

    /// Counts one more occurrence of `key` while its shard is locked. Fails,
    /// leaving the counter as it was, only when that counter is already at its
    /// maximum.
    pub fn inc(&self, key: &str) -> (r: Result<(), MetricsError>)
        ensures
            r is Err ==> r == Err::<(), MetricsError>(MetricsError::Overflow),
    {
        let mut guard = or_insert(entry_of(&self.data, key.to_owned()), 0);
        let counter = value_mut(&mut guard);
        if *counter == i64::MAX {
            return Err(MetricsError::Overflow);
        }
        *counter = *counter + 1;
        Ok(())
    }

    /// One `key: count` line per counter, in the order the map walks them.
    pub fn listing(&self) -> (r: String)
        ensures
            exists|pairs: Seq<(String, i64)>| r@ == listing_text(#[trigger] pairs_view(pairs)),
    {
        let pairs = pairs_of(&self.data);
        listing_of(&pairs)
    }
}

} // verus!
