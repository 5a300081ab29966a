use std::sync::Arc;
use vstd::prelude::*;
use vstd::rwlock::RwLock;

use crate::counters::{listing_text, CounterTable};
use crate::error::MetricsError;
use crate::metrics::WellFormedTable;

verus! {

/// Named counters shared between threads behind a reader-writer lock, with a
/// textual listing.
#[derive(Clone)]
pub struct RwMetrics {
    pub data: Arc<RwLock<CounterTable, WellFormedTable>>,
}

impl Default for RwMetrics {
    fn default() -> (r: Self)
        ensures
            r.data.pred() == WellFormedTable,
    {
        Self::new()
    }
}

impl RwMetrics {
    /// A store with no counters.
    pub fn new() -> (r: Self)
        ensures
            r.data.pred() == WellFormedTable,
    {
        RwMetrics { data: Arc::new(RwLock::new(CounterTable::new(), Ghost(WellFormedTable))) }
    }

    /// Counts one more occurrence of `key` under the write lock. Fails, leaving
    /// the counter as it was, only when that counter is already at its maximum.
    pub fn inc(&self, key: &str) -> (r: Result<(), MetricsError>)
        ensures
            r is Err ==> r == Err::<(), MetricsError>(MetricsError::Overflow),
    {
        let (mut table, handle) = self.data.acquire_write();
        let r = table.increment(key);
        handle.release_write(table);
        r
    }

    /// A copy of all counters, taken under the read lock.
    pub fn snapshot(&self) -> (r: Result<CounterTable, MetricsError>)
        ensures
            r is Ok,
            r->Ok_0.wf(),
    {
        let handle = self.data.acquire_read();
        let copy = handle.borrow().copy();
        handle.release_read();
        Ok(copy)
    }

    /// One `key: count` line per counter, read under the read lock.
    pub fn listing(&self) -> (r: String)
        ensures
            exists|t: CounterTable| t.wf() && r@ == listing_text(#[trigger] t.ordered()),
    {
        let handle = self.data.acquire_read();
        let text = handle.borrow().listing();
        proof {
            let t = handle.view();
            assert(t.wf() && text@ == listing_text(t.ordered()));
        }
        handle.release_read();
        text
    }
}

} // verus!
