use std::sync::Arc;
use vstd::prelude::*;
use vstd::rwlock::{RwLock, RwLockPredicate};

use crate::counters::CounterTable;
use crate::error::MetricsError;

pub mod rwmap;

verus! {

/// What a counter lock guarantees of the table it holds: it is well formed.
pub struct WellFormedTable;

impl RwLockPredicate<CounterTable> for WellFormedTable {
    open spec fn inv(self, t: CounterTable) -> bool {
        t.wf()
    }
}

/// Named counters shared between threads behind a reader-writer lock.
#[derive(Clone)]
pub struct Metrics {
    pub data: Arc<RwLock<CounterTable, WellFormedTable>>,
}

impl Default for Metrics {
    fn default() -> (r: Self)
        ensures
            r.data.pred() == WellFormedTable,
    {
        Self::new()
    }
}

impl Metrics {
    /// A store with no counters.
    pub fn new() -> (r: Self)
        ensures
            r.data.pred() == WellFormedTable,
    {
        Metrics { data: Arc::new(RwLock::new(CounterTable::new(), Ghost(WellFormedTable))) }
    }

    /// Counts one more occurrence of `key` under the write lock. Fails, leaving
    /// the counter as it was, only when that counter is already at its maximum.
    pub fn inc(&self, key: &str) -> (r: Result<(), MetricsError>)
        ensures
            r is Err ==> r == Err::<(), MetricsError>(MetricsError::Overflow),
    {
        let (mut table, handle) = self.data.acquire_write();
        let r = table.increment(key);
        handle.release_write(table);
        r
    }

    /// A copy of all counters, taken under the read lock.
    pub fn snapshot(&self) -> (r: Result<CounterTable, MetricsError>)
        ensures
            r is Ok,
            r->Ok_0.wf(),
    {
        let handle = self.data.acquire_read();
        let copy = handle.borrow().copy();
        handle.release_read();
        Ok(copy)
    }
}

} // verus!
