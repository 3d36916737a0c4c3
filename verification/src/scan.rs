//! One page of a table scan against the store.

use vstd::prelude::*;

verus! {

/// Result of a scan operation: the items that passed the store-side
/// filter, how many there are, how many rows the store examined, and the
/// key to resume from when the store paged the answer.
#[derive(Debug, Clone)]
pub struct ScanResult<T, K> {
    /// Retrieved items.
    pub items: Vec<T>,
    /// Number of items retrieved; always `items.len()`.
    pub count: usize,
    /// Number of rows the store examined before filtering.
    pub scanned_count: usize,
    /// Key to resume pagination from, when the store reports one.
    pub last_evaluated_key: Option<K>,
}

impl<T, K> ScanResult<T, K> {
    /// Packs one page of scan answers; the count is the number of items
    /// retrieved, while `scanned_count` is what the store reports it
    /// examined.
    pub fn new(items: Vec<T>, scanned_count: usize, last_evaluated_key: Option<K>) -> (r: Self)
        ensures
            r.items@ == items@,
            r.count == items@.len(),
            r.scanned_count == scanned_count,
            r.last_evaluated_key == last_evaluated_key,
    {
        let count = items.len();
        ScanResult { items, count, scanned_count, last_evaluated_key }
    }
}

} // verus!
