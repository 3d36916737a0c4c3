//! Splitting an ordered workload into bounded-size groups.
//!
//! The remote store caps how many records one bulk request may carry, so an
//! oversized input has to be split into chunks that respect the cap. Chunks
//! partition the input exactly: every element lands in exactly one chunk,
//! chunk order matches input order, and only the last chunk may be shorter
//! than the cap.

use vstd::prelude::*;

verus! {

/// Most records one bulk-write request to the store may carry.
pub const DYNAMODB_BATCH_LIMIT: usize = 25;

/// Most keys one bulk-read request to the store may carry.
pub const DYNAMODB_BATCH_GET_LIMIT: usize = 100;

/// The groups that splitting `s` into pieces of at most `limit` elements
/// yields, in order. An empty sequence yields no groups at all.
pub open spec fn chunks_of<T>(s: Seq<T>, limit: int) -> Seq<Seq<T>>
    decreases s.len(),
{
    if limit <= 0 || s.len() == 0 {
        Seq::empty()
    } else if s.len() <= limit {
        seq![s]
    } else {
        seq![s.subrange(0, limit)] + chunks_of(s.subrange(limit, s.len() as int), limit)
    }
}

/// How many chunks a sequence of `n` elements makes under `limit`:
/// `n / limit`, rounded up.
pub open spec fn chunk_count(n: int, limit: int) -> int {
    (n + limit - 1) / limit
}

/// Splitting yields exactly `chunk_count` groups; an empty input yields
/// none at all.
pub proof fn lemma_chunks_of_len<T>(s: Seq<T>, limit: int)
    requires
        limit > 0,
    ensures
        chunks_of(s, limit).len() == chunk_count(s.len() as int, limit),
        s.len() == 0 ==> chunks_of(s, limit).len() == 0,
    decreases s.len(),
{
    if s.len() == 0 {
        vstd::arithmetic::div_mod::lemma_basic_div(limit - 1, limit);
    } else if s.len() <= limit {
        vstd::arithmetic::div_mod::lemma_div_plus_one(s.len() - 1, limit);
        vstd::arithmetic::div_mod::lemma_basic_div(s.len() - 1, limit);
    } else {
        lemma_chunks_of_len(s.subrange(limit, s.len() as int), limit);
        vstd::arithmetic::div_mod::lemma_div_plus_one(s.len() - 1, limit);
    }
}

/// Chunking partitions the input: the chunks concatenate back to the
/// original sequence in order, every chunk is non-empty and no chunk
/// exceeds the limit.
pub proof fn lemma_chunks_of_partition<T>(s: Seq<T>, limit: int)
    requires
        limit > 0,
    ensures
        chunks_of(s, limit).flatten() == s,
        forall|i: int|
            0 <= i < chunks_of(s, limit).len() ==> 1 <= (#[trigger] chunks_of(s, limit)[i]).len()
                <= limit,
    decreases s.len(),
{
    let cs = chunks_of(s, limit);
    if s.len() == 0 {
        assert(cs =~= Seq::<Seq<T>>::empty());
        assert(Seq::<Seq<T>>::empty().flatten() =~= Seq::<T>::empty());
        assert(cs.flatten() =~= s);
    } else if s.len() <= limit {
        cs.lemma_flatten_one_element();
        assert(cs.flatten() =~= s);
    } else {
        let first = s.subrange(0, limit);
        let rest = s.subrange(limit, s.len() as int);
        lemma_chunks_of_partition(rest, limit);
        assert(cs.drop_first() =~= chunks_of(rest, limit));
        assert(cs.flatten() == cs.first() + cs.drop_first().flatten());
        assert(first + rest =~= s);
        assert(forall|i: int|
            1 <= i < cs.len() ==> #[trigger] cs[i] == chunks_of(rest, limit)[i - 1]);
    }
}

/// Chunking is deterministic: the same input under the same limit always
/// yields the same chunk boundaries.
pub proof fn lemma_chunks_of_deterministic<T>(s1: Seq<T>, s2: Seq<T>, limit: int)
    requires
        s1 == s2,
    ensures
        chunks_of(s1, limit) == chunks_of(s2, limit),
{
}

/// Splits a slice into chunks of at most `chunk_size` elements; `None`
/// falls back to the bulk-write cap of the store.
pub fn chunk_items<'a, T>(items: &'a [T], chunk_size: Option<usize>) -> (chunks: Vec<&'a [T]>)
    requires
        chunk_size matches Some(s) ==> s > 0,
    ensures
        chunks@.map_values(|c: &[T]| c@) == chunks_of(
            items@,
            match chunk_size {
                Some(s) => s as int,
                None => DYNAMODB_BATCH_LIMIT as int,
            },
        ),
{
    let limit: usize = match chunk_size {
        Some(s) => s,
        None => DYNAMODB_BATCH_LIMIT,
    };
    let ghost k: int = limit as int;
    let mut chunks: Vec<&'a [T]> = Vec::new();
    let mut start: usize = 0;
    proof {
        assert(items@.subrange(0, items@.len() as int) =~= items@);
        assert(chunks@.map_values(|c: &[T]| c@) =~= Seq::<Seq<T>>::empty());
        assert(chunks_of(items@, k) =~= Seq::<Seq<T>>::empty() + chunks_of(items@, k));
    }
    while start < items.len()
        invariant
            0 < limit,
            k == limit as int,
            start <= items.len(),
            chunks_of(items@, k) == chunks@.map_values(|c: &[T]| c@) + chunks_of(
                items@.subrange(start as int, items@.len() as int),
                k,
            ),
        decreases items.len() - start,
    {
        let remaining = items.len() - start;
        let step = if remaining < limit {
            remaining
        } else {
            limit
        };
        let end = start + step;
        let piece = vstd::slice::slice_subrange(items, start, end);
        let ghost suffix = items@.subrange(start as int, items@.len() as int);
        proof {
            assert(suffix.len() == remaining);
            if suffix.len() <= k {
                assert(piece@ =~= suffix);
                assert(chunks_of(suffix, k) =~= seq![piece@]);
            } else {
                assert(piece@ =~= suffix.subrange(0, k));
                assert(suffix.subrange(k, suffix.len() as int) =~= items@.subrange(
                    end as int,
                    items@.len() as int,
                ));
                assert(chunks_of(suffix, k) =~= seq![piece@] + chunks_of(
                    items@.subrange(end as int, items@.len() as int),
                    k,
                ));
            }
            assert((chunks@ + seq![piece]).map_values(|c: &[T]| c@) =~= chunks@.map_values(
                |c: &[T]| c@,
            ) + seq![piece@]);
            assert(chunks@.map_values(|c: &[T]| c@) + chunks_of(suffix, k) =~= (chunks@
                + seq![piece]).map_values(|c: &[T]| c@) + chunks_of(
                items@.subrange(end as int, items@.len() as int),
                k,
            ));
        }
        chunks.push(piece);
        start = end;
    }
    proof {
        assert(chunks_of(items@.subrange(start as int, items@.len() as int), k)
            =~= Seq::<Seq<T>>::empty());
        assert(chunks@.map_values(|c: &[T]| c@) + Seq::<Seq<T>>::empty() =~= chunks@.map_values(
            |c: &[T]| c@,
        ));
    }
    chunks
}

/// Splits records for bulk-write requests: at most 25 per chunk.
pub fn chunk_for_write<'a, T>(items: &'a [T]) -> (chunks: Vec<&'a [T]>)
    ensures
        chunks@.map_values(|c: &[T]| c@) == chunks_of(items@, DYNAMODB_BATCH_LIMIT as int),
{
    chunk_items(items, Some(DYNAMODB_BATCH_LIMIT))
}

/// Splits keys for bulk-read requests: at most 100 per chunk.
pub fn chunk_for_get<'a, T>(items: &'a [T]) -> (chunks: Vec<&'a [T]>)
    ensures
        chunks@.map_values(|c: &[T]| c@) == chunks_of(items@, DYNAMODB_BATCH_GET_LIMIT as int),
{
    chunk_items(items, Some(DYNAMODB_BATCH_GET_LIMIT))
}

} // verus!
