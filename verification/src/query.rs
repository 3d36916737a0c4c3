//! One page of a query against the store.

use vstd::prelude::*;

verus! {

/// Result of a query operation: the items of one page, how many there
/// are, and the key to resume from when the store paged the answer.
#[derive(Debug, Clone)]
pub struct QueryResult<T, K> {
    /// Retrieved items.
    pub items: Vec<T>,
    /// Number of items retrieved; always `items.len()`.
    pub count: usize,
    /// Key to resume pagination from, when the store reports one.
    pub last_evaluated_key: Option<K>,
}

impl<T, K> QueryResult<T, K> {
    /// Packs one page of query answers; the count is the number of items
    /// retrieved.
    pub fn new(items: Vec<T>, last_evaluated_key: Option<K>) -> (r: Self)
        ensures
            r.items@ == items@,
            r.count == items@.len(),
            r.last_evaluated_key == last_evaluated_key,
    {
        let count = items.len();
        QueryResult { items, count, last_evaluated_key }
    }
}

} // verus!
