//! Chunked batch execution: the orchestrators that split an oversized
//! workload into provider-sized chunks, drive each chunk through the retry
//! loop, and merge the per-chunk outcomes into one final accounting.
//!
//! The store's answers are handed in as plain values: for a bulk write,
//! each attempt reports how many of the chunk's records were left
//! unprocessed, or a terminal error; for a bulk read, each attempt reports
//! the records retrieved and whether any keys were left unprocessed. An
//! orchestrator takes one such report per attempt its retry budget
//! permits, chunk by chunk, and consumes per chunk exactly the prefix the
//! retry loop runs through.
//!
//! Accounting note: a chunk whose final attempt still reports unprocessed
//! records after the retry budget is spent contributes only the records
//! the last attempt accepted; the residue is not recorded as failed
//! items. Only a terminal error turns a whole chunk into failed items.
//! `successful + failed` therefore need not reach the input length.

use vstd::prelude::*;
use vstd::string::StringExecFns;
use crate::chunking::DYNAMODB_BATCH_LIMIT;
use crate::chunking::DYNAMODB_BATCH_GET_LIMIT;
use crate::chunking::chunks_of;
use crate::error::Error;
use crate::retry::RetryConfig;
use crate::retry::attempt_halts;
use crate::retry::lemma_final_attempt_found;
use crate::retry::retry_outcome;
use crate::validate::is_blank;
use crate::validate::validate_table_name;

verus! {

/// Information about an item that failed to write after all retry
/// attempts, with a description of why it failed.
#[derive(Debug, Clone)]
pub struct FailedItem<R> {
    /// The record that could not be written.
    pub item: R,
    /// Error message describing why it failed.
    pub error: String,
}

/// Result of a batch write operation: how many records were confirmed
/// written, and which records permanently failed, in input order.
#[derive(Debug, Clone)]
pub struct BatchWriteResult<R> {
    /// Number of successfully written records.
    pub successful: usize,
    /// Number of failed records; always `failed_items.len()`.
    pub failed: usize,
    /// Records that permanently failed, with error details.
    pub failed_items: Vec<FailedItem<R>>,
}

/// Information about a key that failed to retrieve after all retry
/// attempts, with a description of why it failed.
#[derive(Debug, Clone)]
pub struct FailedKey<K> {
    /// The key whose record could not be retrieved.
    pub key: K,
    /// Error message describing why it failed.
    pub error: String,
}

/// Result of a batch read operation: the records retrieved, in chunk
/// order, and which keys permanently failed.
#[derive(Debug, Clone)]
pub struct BatchGetResult<K, T> {
    /// Number of successfully retrieved records; always `items.len()`.
    pub successful: usize,
    /// Number of failed keys; always `failed_keys.len()`.
    pub failed: usize,
    /// Successfully retrieved records.
    pub items: Vec<T>,
    /// Keys that permanently failed, with error details.
    pub failed_keys: Vec<FailedKey<K>>,
}

/// One bulk-write attempt's answer lifted to the retry loop's shape: the
/// store reports how many of the chunk's records it left unprocessed, and
/// any unprocessed record asks for a retry.
pub open spec fn write_retry_shape(script: Seq<Result<usize, Error>>) -> Seq<
    Result<(usize, bool), Error>,
> {
    script.map_values(
        |report: Result<usize, Error>|
            match report {
                Ok(unprocessed) => Ok((unprocessed, unprocessed != 0)),
                Err(e) => Err(e),
            },
    )
}

/// What one chunk's retry loop resolves to under the default budget: the
/// unprocessed count its final attempt reports, or the terminal error
/// that aborted the chunk.
pub open spec fn chunk_write_resolution(script: Seq<Result<usize, Error>>, max_retries: nat) -> Result<
    usize,
    Error,
> {
    retry_outcome(write_retry_shape(script), max_retries)
}

/// The description a terminal error leaves on every record of its chunk.
pub open spec fn write_failure_note(e: Error) -> Seq<char> {
    "Batch write error: "@ + e.message_view()
}

/// Records confirmed written over a run: each chunk whose retry loop
/// resolves without error contributes what its final attempt accepted.
pub open spec fn write_successful_count<R>(
    chunks: Seq<Seq<R>>,
    scripts: Seq<Seq<Result<usize, Error>>>,
    max_retries: nat,
) -> int
    decreases chunks.len(),
{
    if chunks.len() == 0 {
        0
    } else {
        write_successful_count(chunks.drop_last(), scripts.drop_last(), max_retries) + (
        match chunk_write_resolution(scripts[chunks.len() - 1], max_retries) {
            Ok(unprocessed) => chunks.last().len() - unprocessed,
            Err(_) => 0,
        })
    }
}

/// The records that end as failed items over a run: every record of every
/// chunk whose retry loop was aborted by a terminal error, in input order.
pub open spec fn write_failed_records<R>(
    chunks: Seq<Seq<R>>,
    scripts: Seq<Seq<Result<usize, Error>>>,
    max_retries: nat,
) -> Seq<R>
    decreases chunks.len(),
{
    if chunks.len() == 0 {
        Seq::empty()
    } else {
        write_failed_records(chunks.drop_last(), scripts.drop_last(), max_retries) + (
        match chunk_write_resolution(scripts[chunks.len() - 1], max_retries) {
            Ok(_) => Seq::empty(),
            Err(_) => chunks.last(),
        })
    }
}

/// The error descriptions on the failed items of a run, aligned with
/// `write_failed_records`: each failed chunk stamps its terminal error's
/// description on every one of its records.
pub open spec fn write_failure_notes<R>(
    chunks: Seq<Seq<R>>,
    scripts: Seq<Seq<Result<usize, Error>>>,
    max_retries: nat,
) -> Seq<Seq<char>>
    decreases chunks.len(),
{
    if chunks.len() == 0 {
        Seq::empty()
    } else {
        write_failure_notes(chunks.drop_last(), scripts.drop_last(), max_retries) + (
        match chunk_write_resolution(scripts[chunks.len() - 1], max_retries) {
            Ok(_) => Seq::empty(),
            Err(e) => Seq::new(chunks.last().len(), |i: int| write_failure_note(e)),
        })
    }
}

/// Appending one chunk and its script extends each write aggregate by
/// that chunk's own contribution.
proof fn lemma_write_aggregates_push<R>(
    chunks: Seq<Seq<R>>,
    scripts: Seq<Seq<Result<usize, Error>>>,
    chunk: Seq<R>,
    script: Seq<Result<usize, Error>>,
    max_retries: nat,
)
    requires
        chunks.len() == scripts.len(),
    ensures
        write_successful_count(chunks.push(chunk), scripts.push(script), max_retries)
            == write_successful_count(chunks, scripts, max_retries) + (
        match chunk_write_resolution(script, max_retries) {
            Ok(unprocessed) => chunk.len() - unprocessed,
            Err(_) => 0,
        }),
        write_failed_records(chunks.push(chunk), scripts.push(script), max_retries)
            == write_failed_records(chunks, scripts, max_retries) + (
        match chunk_write_resolution(script, max_retries) {
            Ok(_) => Seq::<R>::empty(),
            Err(_) => chunk,
        }),
        write_failure_notes(chunks.push(chunk), scripts.push(script), max_retries)
            == write_failure_notes(chunks, scripts, max_retries) + (
        match chunk_write_resolution(script, max_retries) {
            Ok(_) => Seq::<Seq<char>>::empty(),
            Err(e) => Seq::new(chunk.len(), |i: int| write_failure_note(e)),
        }),
{
    assert(chunks.push(chunk).drop_last() =~= chunks);
    assert(scripts.push(script).drop_last() =~= scripts);
    assert(chunks.push(chunk).last() == chunk);
    assert(scripts.push(script)[chunks.push(chunk).len() - 1] == script);
}

/// The per-chunk attempt scripts as mathematical sequences.
pub open spec fn scripts_view<A>(reports: Seq<Vec<A>>) -> Seq<Seq<A>> {
    reports.map_values(|v: Vec<A>| v@)
}

/// The per-attempt outcome of one bulk-write call, reduced for the retry
/// driver: how many of the chunk's records the store accepted on this
/// attempt, and whether any were left unprocessed, which asks for a
/// retry.
pub fn write_attempt_outcome(chunk_len: usize, unprocessed_count: usize) -> (o: (usize, bool))
    requires
        unprocessed_count <= chunk_len,
    ensures
        o.0 == chunk_len - unprocessed_count,
        o.1 == (unprocessed_count > 0),
{
    (chunk_len - unprocessed_count, unprocessed_count > 0)
}

/// Whether one bulk-write attempt's report ends the chunk's retry loop:
/// a terminal error does, and so does a report with nothing unprocessed.
fn write_report_halts(report: &Result<usize, Error>) -> (b: bool)
    ensures
        b == (*report is Err || (*report)->Ok_0 == 0),
{
    match report {
        Ok(unprocessed) => *unprocessed == 0,
        Err(_) => true,
    }
}

/// Batch-writes records. The records are split into chunks of at most 25,
/// the store's bulk-write cap; each chunk is driven through the retry
/// loop with the default backoff configuration, strictly in input order,
/// and the per-chunk outcomes are merged into one accounting.
///
/// The store's side of the run is handed in as `attempt_reports`: one
/// script per chunk, one entry per attempt the retry budget permits, each
/// entry the unprocessed-record count that attempt reported or the
/// terminal error that aborted the call. The run consumes per chunk
/// exactly the prefix its retry loop runs through.
///
/// A blank table name is rejected before anything else; no records are
/// consumed. Empty input yields the all-zero accounting.
pub fn batch_put_items<R>(
    table_name: &str,
    items: Vec<R>,
    attempt_reports: Vec<Vec<Result<usize, Error>>>,
) -> (r: Result<BatchWriteResult<R>, Error>)
    requires
        attempt_reports@.len() == chunks_of(items@, DYNAMODB_BATCH_LIMIT as int).len(),
        forall|i: int|
            0 <= i < attempt_reports@.len() ==> (#[trigger] scripts_view(attempt_reports@)[i]).len()
                > RetryConfig::default_spec().max_retries,
        forall|i: int, j: int|
            0 <= i < attempt_reports@.len() && 0 <= j < scripts_view(attempt_reports@)[i].len()
                ==> ((#[trigger] scripts_view(attempt_reports@)[i][j]) matches Ok(u) ==> u
                <= chunks_of(items@, DYNAMODB_BATCH_LIMIT as int)[i].len()),
    ensures
        r is Err <==> is_blank(table_name@),
        r matches Err(e) ==> e matches Error::Validation(s) && s@ == "Table name cannot be empty"@,
        r matches Ok(res) ==> ({
            let cs = chunks_of(items@, DYNAMODB_BATCH_LIMIT as int);
            let sc = scripts_view(attempt_reports@);
            let max = RetryConfig::default_spec().max_retries as nat;
            &&& res.successful as int == write_successful_count(cs, sc, max)
            &&& res.failed_items@.map_values(|f: FailedItem<R>| f.item) == write_failed_records(
                cs,
                sc,
                max,
            )
            &&& res.failed_items@.map_values(|f: FailedItem<R>| f.error@) == write_failure_notes(
                cs,
                sc,
                max,
            )
            &&& res.failed == res.failed_items@.len()
        }),
{
    match validate_table_name(table_name) {
        Err(e) => {
            return Err(e);
        },
        Ok(()) => {},
    }
    let config = RetryConfig::default();
    let ghost cs = chunks_of(items@, DYNAMODB_BATCH_LIMIT as int);
    let ghost sc = scripts_view(attempt_reports@);
    let ghost max = config.max_retries as nat;
    let total = items.len();
    let mut remaining = items;
    let mut reports = attempt_reports;
    let mut successful: usize = 0;
    let mut failed_items: Vec<FailedItem<R>> = Vec::new();
    let ghost mut ci: int = 0;
    proof {
        assert(chunks_of(remaining@, DYNAMODB_BATCH_LIMIT as int) =~= cs.subrange(
            0,
            cs.len() as int,
        ));
        assert(reports@.map_values(|v: Vec<Result<usize, Error>>| v@) =~= sc.subrange(
            0,
            sc.len() as int,
        ));
        assert(cs.subrange(0, 0) =~= Seq::<Seq<R>>::empty());
        assert(sc.subrange(0, 0) =~= Seq::<Seq<Result<usize, Error>>>::empty());
        assert(failed_items@.map_values(|f: FailedItem<R>| f.item) =~= Seq::<R>::empty());
        assert(failed_items@.map_values(|f: FailedItem<R>| f.error@) =~= Seq::<Seq<char>>::empty());
        assert(write_failed_records(cs.subrange(0, 0), sc.subrange(0, 0), max) =~= Seq::<
            R,
        >::empty());
        assert(write_failure_notes(cs.subrange(0, 0), sc.subrange(0, 0), max) =~= Seq::<
            Seq<char>,
        >::empty());
    }
    while remaining.len() > 0
        invariant
            0 <= ci <= cs.len(),
            cs.len() == sc.len(),
            config == RetryConfig::default_spec(),
            max == config.max_retries as nat,
            chunks_of(remaining@, DYNAMODB_BATCH_LIMIT as int) == cs.subrange(ci, cs.len() as int),
            reports@.map_values(|v: Vec<Result<usize, Error>>| v@) == sc.subrange(
                ci,
                sc.len() as int,
            ),
            forall|i: int| 0 <= i < sc.len() ==> (#[trigger] sc[i]).len() > max,
            forall|i: int, j: int|
                0 <= i < sc.len() && 0 <= j < sc[i].len() ==> ((#[trigger] sc[i][j]) matches Ok(u)
                    ==> u <= cs[i].len()),
            successful as int == write_successful_count(
                cs.subrange(0, ci),
                sc.subrange(0, ci),
                max,
            ),
            successful as int <= total - remaining@.len(),
            failed_items@.map_values(|f: FailedItem<R>| f.item) == write_failed_records(
                cs.subrange(0, ci),
                sc.subrange(0, ci),
                max,
            ),
            failed_items@.map_values(|f: FailedItem<R>| f.error@) == write_failure_notes(
                cs.subrange(0, ci),
                sc.subrange(0, ci),
                max,
            ),
        decreases remaining@.len(),
    {
        let ghost old_remaining = remaining@;
        let chunk_len = if remaining.len() < DYNAMODB_BATCH_LIMIT {
            remaining.len()
        } else {
            DYNAMODB_BATCH_LIMIT
        };
        let tail = remaining.split_off(chunk_len);
        let mut chunk = remaining;
        remaining = tail;
        proof {
            assert(chunks_of(old_remaining, DYNAMODB_BATCH_LIMIT as int).len() > 0);
            assert(ci < cs.len());
            if old_remaining.len() <= DYNAMODB_BATCH_LIMIT {
                assert(chunk@ =~= old_remaining);
                assert(remaining@.len() == 0);
                assert(chunks_of(old_remaining, DYNAMODB_BATCH_LIMIT as int) =~= seq![chunk@]);
                assert(chunks_of(remaining@, DYNAMODB_BATCH_LIMIT as int) =~= Seq::<
                    Seq<R>,
                >::empty());
            } else {
                assert(chunk@ =~= old_remaining.subrange(0, DYNAMODB_BATCH_LIMIT as int));
                assert(remaining@ =~= old_remaining.subrange(
                    DYNAMODB_BATCH_LIMIT as int,
                    old_remaining.len() as int,
                ));
            }
            assert(chunks_of(old_remaining, DYNAMODB_BATCH_LIMIT as int) =~= seq![chunk@]
                + chunks_of(remaining@, DYNAMODB_BATCH_LIMIT as int));
            assert(seq![chunk@] + chunks_of(remaining@, DYNAMODB_BATCH_LIMIT as int)
                == cs.subrange(ci, cs.len() as int));
            assert(cs[ci] == cs.subrange(ci, cs.len() as int)[0]);
            assert(cs[ci] == chunk@);
            assert(chunks_of(remaining@, DYNAMODB_BATCH_LIMIT as int).len() == cs.len() - ci - 1);
            assert forall|j: int| 0 <= j < cs.len() - ci - 1 implies #[trigger] cs.subrange(
                ci + 1,
                cs.len() as int,
            )[j] == chunks_of(remaining@, DYNAMODB_BATCH_LIMIT as int)[j] by {
                assert(cs.subrange(ci, cs.len() as int)[j + 1] == (seq![chunk@] + chunks_of(
                    remaining@,
                    DYNAMODB_BATCH_LIMIT as int,
                ))[j + 1]);
            }
            assert(chunks_of(remaining@, DYNAMODB_BATCH_LIMIT as int) =~= cs.subrange(
                ci + 1,
                cs.len() as int,
            ));
        }
        let ghost old_reports = reports@;
        proof {
            assert(old_reports.map_values(|v: Vec<Result<usize, Error>>| v@).len() == sc.len()
                - ci);
            assert(old_reports.len() == sc.len() - ci);
        }
        let script = reports.remove(0);
        proof {
            assert(script@ == old_reports.map_values(|v: Vec<Result<usize, Error>>| v@)[0]);
            assert(script@ == sc.subrange(ci, sc.len() as int)[0]);
            assert(script@ == sc[ci]);
            assert(reports@ =~= old_reports.subrange(1, old_reports.len() as int));
            assert forall|j: int| 0 <= j < sc.len() - ci - 1 implies reports@.map_values(
                |v: Vec<Result<usize, Error>>| v@,
            )[j] == #[trigger] sc.subrange(ci + 1, sc.len() as int)[j] by {
                assert(reports@[j] == old_reports[j + 1]);
                assert(old_reports.map_values(|v: Vec<Result<usize, Error>>| v@)[j + 1]
                    == sc.subrange(ci, sc.len() as int)[j + 1]);
            }
            assert(reports@.map_values(|v: Vec<Result<usize, Error>>| v@) =~= sc.subrange(
                ci + 1,
                sc.len() as int,
            ));
            assert(sc[ci].len() > max);
        }
        let mut a: usize = 0;
        while a < config.max_retries
            invariant_except_break
                a <= config.max_retries,
                script@.len() > config.max_retries,
                forall|j: int|
                    0 <= j < a ==> !attempt_halts(#[trigger] write_retry_shape(script@)[j]),
            ensures
                a <= config.max_retries,
                script@.len() > config.max_retries,
                forall|j: int|
                    0 <= j < a ==> !attempt_halts(#[trigger] write_retry_shape(script@)[j]),
                a == config.max_retries || attempt_halts(write_retry_shape(script@)[a as int]),
            decreases config.max_retries - a,
        {
            let halts_here = write_report_halts(&script[a]);
            proof {
                assert(write_retry_shape(script@)[a as int] == (match script@[a as int] {
                    Ok(u) => Ok::<(usize, bool), Error>((u, u != 0)),
                    Err(e) => Err::<(usize, bool), Error>(e),
                }));
                assert(attempt_halts(write_retry_shape(script@)[a as int]) == (script@[a as int]
                    is Err || script@[a as int]->Ok_0 == 0));
            }
            if halts_here {
                break ;
            }
            a = a + 1;
        }
        proof {
            assert(write_retry_shape(script@).len() == script@.len());
            lemma_final_attempt_found::<usize, Error>(
                write_retry_shape(script@),
                0,
                a as nat,
                max,
            );
        }
        let mut script_own = script;
        let final_report = script_own.remove(a);
        proof {
            assert(final_report == sc[ci][a as int]);
            assert(write_retry_shape(sc[ci])[a as int] == (match sc[ci][a as int] {
                Ok(u) => Ok::<(usize, bool), Error>((u, u != 0)),
                Err(e) => Err::<(usize, bool), Error>(e),
            }));
            lemma_write_aggregates_push(
                cs.subrange(0, ci),
                sc.subrange(0, ci),
                cs[ci],
                sc[ci],
                max,
            );
            assert(cs.subrange(0, ci + 1) =~= cs.subrange(0, ci).push(cs[ci]));
            assert(sc.subrange(0, ci + 1) =~= sc.subrange(0, ci).push(sc[ci]));
        }
        match final_report {
            Ok(unprocessed) => {
                proof {
                    assert(sc[ci][a as int] matches Ok(u) ==> u <= cs[ci].len());
                    assert(chunk_write_resolution(sc[ci], max) == Ok::<usize, Error>(unprocessed));
                }
                let (accepted, _needs_retry) = write_attempt_outcome(chunk.len(), unprocessed);
                successful = successful + accepted;
                proof {
                    ci = ci + 1;
                }
            },
            Err(e) => {
                proof {
                    assert(chunk_write_resolution(sc[ci], max) == Err::<usize, Error>(e));
                }
                let note = "Batch write error: ".to_owned().concat(e.message().as_str());
                proof {
                    assert(note@ == write_failure_note(e));
                }
                let ghost chunk_seq = chunk@;
                let ghost base_records = failed_items@.map_values(|f: FailedItem<R>| f.item);
                let ghost base_notes = failed_items@.map_values(|f: FailedItem<R>| f.error@);
                proof {
                    assert(base_records + chunk_seq.take(0) =~= base_records);
                    assert(base_notes + Seq::new(0, |i: int| note@) =~= base_notes);
                    assert(chunk@ =~= chunk_seq.subrange(0, chunk_seq.len() as int));
                }
                while chunk.len() > 0
                    invariant
                        chunk@.len() <= chunk_seq.len(),
                        chunk@ == chunk_seq.subrange(
                            chunk_seq.len() - chunk@.len(),
                            chunk_seq.len() as int,
                        ),
                        failed_items@.map_values(|f: FailedItem<R>| f.item) == base_records
                            + chunk_seq.take(chunk_seq.len() - chunk@.len()),
                        failed_items@.map_values(|f: FailedItem<R>| f.error@) == base_notes
                            + Seq::new((chunk_seq.len() - chunk@.len()) as nat, |i: int| note@),
                    decreases chunk@.len(),
                {
                    let ghost done = chunk_seq.len() - chunk@.len();
                    let ghost pre_chunk = chunk@;
                    let ghost pre_failed = failed_items@;
                    let item = chunk.remove(0);
                    let entry_error = note.clone();
                    let ghost item_spec = item;
                    let ghost error_spec = entry_error;
                    proof {
                        assert(entry_error@ == note@);
                    }
                    failed_items.push(FailedItem { item, error: entry_error });
                    proof {
                        assert(item_spec == pre_chunk[0]);
                        assert(pre_chunk[0] == chunk_seq[done as int]);
                        assert(chunk@ =~= pre_chunk.subrange(1, pre_chunk.len() as int));
                        assert(chunk@ =~= chunk_seq.subrange(
                            chunk_seq.len() - chunk@.len(),
                            chunk_seq.len() as int,
                        ));
                        assert(chunk_seq.take(done + 1) =~= chunk_seq.take(done).push(
                            chunk_seq[done as int],
                        ));
                        assert(Seq::new((done + 1) as nat, |i: int| note@) =~= Seq::new(
                            done as nat,
                            |i: int| note@,
                        ).push(note@));
                        assert(failed_items@ =~= pre_failed.push(
                            (FailedItem { item: item_spec, error: error_spec }),
                        ));
                        assert(failed_items@.map_values(|f: FailedItem<R>| f.item)
                            =~= pre_failed.map_values(|f: FailedItem<R>| f.item).push(item_spec));
                        assert(failed_items@.map_values(|f: FailedItem<R>| f.error@)
                            =~= pre_failed.map_values(|f: FailedItem<R>| f.error@).push(
                            error_spec@,
                        ));
                        assert(failed_items@.map_values(|f: FailedItem<R>| f.item) =~= base_records
                            + chunk_seq.take(done + 1));
                        assert(failed_items@.map_values(|f: FailedItem<R>| f.error@) =~= base_notes
                            + Seq::new((done + 1) as nat, |i: int| note@));
                    }
                }
                proof {
                    assert(chunk_seq.take(chunk_seq.len() as int) =~= chunk_seq);
                    assert(Seq::new(chunk_seq.len(), |i: int| note@) =~= Seq::new(
                        cs[ci].len(),
                        |i: int| write_failure_note(e),
                    ));
                    ci = ci + 1;
                }
            },
        }
    }
    proof {
        assert(chunks_of(remaining@, DYNAMODB_BATCH_LIMIT as int) =~= Seq::<Seq<R>>::empty());
        assert(ci == cs.len());
        assert(cs.subrange(0, ci) =~= cs);
        assert(sc.subrange(0, ci) =~= sc);
    }
    let failed = failed_items.len();
    Ok(BatchWriteResult { successful, failed, failed_items })
}

/// The description a terminal error leaves on every key of its chunk.
pub open spec fn read_failure_note(e: Error) -> Seq<char> {
    "Batch get error: "@ + e.message_view()
}

/// The records a run retrieves: each chunk whose retry loop resolves
/// without error contributes what its final attempt returned, in chunk
/// order. Within a chunk the order is whatever the store answered with;
/// it need not match the order of the keys.
pub open spec fn read_retrieved_records<T>(
    scripts: Seq<Seq<Result<(Vec<T>, bool), Error>>>,
    max_retries: nat,
) -> Seq<T>
    decreases scripts.len(),
{
    if scripts.len() == 0 {
        Seq::empty()
    } else {
        read_retrieved_records(scripts.drop_last(), max_retries) + (
        match retry_outcome(scripts.last(), max_retries) {
            Ok(retrieved) => retrieved@,
            Err(_) => Seq::empty(),
        })
    }
}

/// The keys that end as failed keys over a run: every key of every chunk
/// whose retry loop was aborted by a terminal error, in input order.
pub open spec fn read_failed_keys<K, T>(
    chunks: Seq<Seq<K>>,
    scripts: Seq<Seq<Result<(Vec<T>, bool), Error>>>,
    max_retries: nat,
) -> Seq<K>
    decreases chunks.len(),
{
    if chunks.len() == 0 {
        Seq::empty()
    } else {
        read_failed_keys(chunks.drop_last(), scripts.drop_last(), max_retries) + (
        match retry_outcome(scripts[chunks.len() - 1], max_retries) {
            Ok(_) => Seq::empty(),
            Err(_) => chunks.last(),
        })
    }
}

/// The error descriptions on the failed keys of a run, aligned with
/// `read_failed_keys`.
pub open spec fn read_failure_notes<K, T>(
    chunks: Seq<Seq<K>>,
    scripts: Seq<Seq<Result<(Vec<T>, bool), Error>>>,
    max_retries: nat,
) -> Seq<Seq<char>>
    decreases chunks.len(),
{
    if chunks.len() == 0 {
        Seq::empty()
    } else {
        read_failure_notes(chunks.drop_last(), scripts.drop_last(), max_retries) + (
        match retry_outcome(scripts[chunks.len() - 1], max_retries) {
            Ok(_) => Seq::empty(),
            Err(e) => Seq::new(chunks.last().len(), |i: int| read_failure_note(e)),
        })
    }
}

/// Appending one chunk and its script extends each read aggregate by
/// that chunk's own contribution.
proof fn lemma_read_aggregates_push<K, T>(
    chunks: Seq<Seq<K>>,
    scripts: Seq<Seq<Result<(Vec<T>, bool), Error>>>,
    chunk: Seq<K>,
    script: Seq<Result<(Vec<T>, bool), Error>>,
    max_retries: nat,
)
    requires
        chunks.len() == scripts.len(),
    ensures
        read_retrieved_records(scripts.push(script), max_retries) == read_retrieved_records(
            scripts,
            max_retries,
        ) + (match retry_outcome(script, max_retries) {
            Ok(retrieved) => retrieved@,
            Err(_) => Seq::<T>::empty(),
        }),
        read_failed_keys(chunks.push(chunk), scripts.push(script), max_retries)
            == read_failed_keys(chunks, scripts, max_retries) + (
        match retry_outcome(script, max_retries) {
            Ok(_) => Seq::<K>::empty(),
            Err(_) => chunk,
        }),
        read_failure_notes(chunks.push(chunk), scripts.push(script), max_retries)
            == read_failure_notes(chunks, scripts, max_retries) + (
        match retry_outcome(script, max_retries) {
            Ok(_) => Seq::<Seq<char>>::empty(),
            Err(e) => Seq::new(chunk.len(), |i: int| read_failure_note(e)),
        }),
{
    assert(chunks.push(chunk).drop_last() =~= chunks);
    assert(scripts.push(script).drop_last() =~= scripts);
    assert(chunks.push(chunk).last() == chunk);
    assert(scripts.push(script).last() == script);
    assert(scripts.push(script)[chunks.push(chunk).len() - 1] == script);
}

/// Batch-reads records by key. The keys are split into chunks of at most
/// 100, the store's bulk-read cap; each chunk is driven through the retry
/// loop with the default backoff configuration, strictly in input order,
/// and the per-chunk outcomes are merged into one accounting.
///
/// The store's side of the run is handed in as `attempt_reports`: one
/// script per chunk, one entry per attempt the retry budget permits, each
/// entry the records that attempt retrieved together with whether any
/// keys were left unprocessed, or the terminal error that aborted the
/// call. A chunk's retry loop resolves to its final attempt's answer.
///
/// A blank table name is rejected before anything else. Empty input
/// yields the all-zero accounting.
pub fn batch_get_items<K, T>(
    table_name: &str,
    keys: Vec<K>,
    attempt_reports: Vec<Vec<Result<(Vec<T>, bool), Error>>>,
) -> (r: Result<BatchGetResult<K, T>, Error>)
    requires
        attempt_reports@.len() == chunks_of(keys@, DYNAMODB_BATCH_GET_LIMIT as int).len(),
        forall|i: int|
            0 <= i < attempt_reports@.len() ==> (#[trigger] scripts_view(attempt_reports@)[i]).len()
                > RetryConfig::default_spec().max_retries,
    ensures
        r is Err <==> is_blank(table_name@),
        r matches Err(e) ==> e matches Error::Validation(s) && s@ == "Table name cannot be empty"@,
        r matches Ok(res) ==> ({
            let cs = chunks_of(keys@, DYNAMODB_BATCH_GET_LIMIT as int);
            let sc = scripts_view(attempt_reports@);
            let max = RetryConfig::default_spec().max_retries as nat;
            &&& res.items@ == read_retrieved_records(sc, max)
            &&& res.successful == res.items@.len()
            &&& res.failed_keys@.map_values(|f: FailedKey<K>| f.key) == read_failed_keys(
                cs,
                sc,
                max,
            )
            &&& res.failed_keys@.map_values(|f: FailedKey<K>| f.error@) == read_failure_notes(
                cs,
                sc,
                max,
            )
            &&& res.failed == res.failed_keys@.len()
        }),
{
    match validate_table_name(table_name) {
        Err(e) => {
            return Err(e);
        },
        Ok(()) => {},
    }
    let config = RetryConfig::default();
    let ghost cs = chunks_of(keys@, DYNAMODB_BATCH_GET_LIMIT as int);
    let ghost sc = scripts_view(attempt_reports@);
    let ghost max = config.max_retries as nat;
    let mut remaining = keys;
    let mut reports = attempt_reports;
    let mut all_items: Vec<T> = Vec::new();
    let mut failed_keys: Vec<FailedKey<K>> = Vec::new();
    let ghost mut ci: int = 0;
    proof {
        assert(chunks_of(remaining@, DYNAMODB_BATCH_GET_LIMIT as int) =~= cs.subrange(
            0,
            cs.len() as int,
        ));
        assert(reports@.map_values(|v: Vec<Result<(Vec<T>, bool), Error>>| v@) =~= sc.subrange(
            0,
            sc.len() as int,
        ));
        assert(cs.subrange(0, 0) =~= Seq::<Seq<K>>::empty());
        assert(sc.subrange(0, 0) =~= Seq::<Seq<Result<(Vec<T>, bool), Error>>>::empty());
        assert(all_items@ =~= Seq::<T>::empty());
        assert(failed_keys@.map_values(|f: FailedKey<K>| f.key) =~= Seq::<K>::empty());
        assert(failed_keys@.map_values(|f: FailedKey<K>| f.error@) =~= Seq::<Seq<char>>::empty());
        assert(read_retrieved_records(sc.subrange(0, 0), max) =~= Seq::<T>::empty());
        assert(read_failed_keys(cs.subrange(0, 0), sc.subrange(0, 0), max) =~= Seq::<K>::empty());
        assert(read_failure_notes(cs.subrange(0, 0), sc.subrange(0, 0), max) =~= Seq::<
            Seq<char>,
        >::empty());
    }
    while remaining.len() > 0
        invariant
            0 <= ci <= cs.len(),
            cs.len() == sc.len(),
            config == RetryConfig::default_spec(),
            max == config.max_retries as nat,
            chunks_of(remaining@, DYNAMODB_BATCH_GET_LIMIT as int) == cs.subrange(
                ci,
                cs.len() as int,
            ),
            reports@.map_values(|v: Vec<Result<(Vec<T>, bool), Error>>| v@) == sc.subrange(
                ci,
                sc.len() as int,
            ),
            forall|i: int| 0 <= i < sc.len() ==> (#[trigger] sc[i]).len() > max,
            all_items@ == read_retrieved_records(sc.subrange(0, ci), max),
            failed_keys@.map_values(|f: FailedKey<K>| f.key) == read_failed_keys(
                cs.subrange(0, ci),
                sc.subrange(0, ci),
                max,
            ),
            failed_keys@.map_values(|f: FailedKey<K>| f.error@) == read_failure_notes(
                cs.subrange(0, ci),
                sc.subrange(0, ci),
                max,
            ),
        decreases remaining@.len(),
    {
        let ghost old_remaining = remaining@;
        let chunk_len = if remaining.len() < DYNAMODB_BATCH_GET_LIMIT {
            remaining.len()
        } else {
            DYNAMODB_BATCH_GET_LIMIT
        };
        let tail = remaining.split_off(chunk_len);
        let mut chunk = remaining;
        remaining = tail;
        proof {
            assert(chunks_of(old_remaining, DYNAMODB_BATCH_GET_LIMIT as int).len() > 0);
            assert(ci < cs.len());
            if old_remaining.len() <= DYNAMODB_BATCH_GET_LIMIT {
                assert(chunk@ =~= old_remaining);
                assert(remaining@.len() == 0);
                assert(chunks_of(old_remaining, DYNAMODB_BATCH_GET_LIMIT as int)
                    =~= seq![chunk@]);
                assert(chunks_of(remaining@, DYNAMODB_BATCH_GET_LIMIT as int) =~= Seq::<
                    Seq<K>,
                >::empty());
            } else {
                assert(chunk@ =~= old_remaining.subrange(0, DYNAMODB_BATCH_GET_LIMIT as int));
                assert(remaining@ =~= old_remaining.subrange(
                    DYNAMODB_BATCH_GET_LIMIT as int,
                    old_remaining.len() as int,
                ));
            }
            assert(chunks_of(old_remaining, DYNAMODB_BATCH_GET_LIMIT as int) =~= seq![chunk@]
                + chunks_of(remaining@, DYNAMODB_BATCH_GET_LIMIT as int));
            assert(seq![chunk@] + chunks_of(remaining@, DYNAMODB_BATCH_GET_LIMIT as int)
                == cs.subrange(ci, cs.len() as int));
            assert(cs[ci] == cs.subrange(ci, cs.len() as int)[0]);
            assert(cs[ci] == chunk@);
            assert(chunks_of(remaining@, DYNAMODB_BATCH_GET_LIMIT as int).len() == cs.len() - ci
                - 1);
            assert forall|j: int| 0 <= j < cs.len() - ci - 1 implies #[trigger] cs.subrange(
                ci + 1,
                cs.len() as int,
            )[j] == chunks_of(remaining@, DYNAMODB_BATCH_GET_LIMIT as int)[j] by {
                assert(cs.subrange(ci, cs.len() as int)[j + 1] == (seq![chunk@] + chunks_of(
                    remaining@,
                    DYNAMODB_BATCH_GET_LIMIT as int,
                ))[j + 1]);
            }
            assert(chunks_of(remaining@, DYNAMODB_BATCH_GET_LIMIT as int) =~= cs.subrange(
                ci + 1,
                cs.len() as int,
            ));
        }
        let ghost old_reports = reports@;
        proof {
            assert(old_reports.map_values(|v: Vec<Result<(Vec<T>, bool), Error>>| v@).len()
                == sc.len() - ci);
            assert(old_reports.len() == sc.len() - ci);
        }
        let script = reports.remove(0);
        proof {
            assert(script@ == old_reports.map_values(
                |v: Vec<Result<(Vec<T>, bool), Error>>| v@,
            )[0]);
            assert(script@ == sc.subrange(ci, sc.len() as int)[0]);
            assert(script@ == sc[ci]);
            assert(reports@ =~= old_reports.subrange(1, old_reports.len() as int));
            assert forall|j: int| 0 <= j < sc.len() - ci - 1 implies reports@.map_values(
                |v: Vec<Result<(Vec<T>, bool), Error>>| v@,
            )[j] == #[trigger] sc.subrange(ci + 1, sc.len() as int)[j] by {
                assert(reports@[j] == old_reports[j + 1]);
                assert(old_reports.map_values(|v: Vec<Result<(Vec<T>, bool), Error>>| v@)[j + 1]
                    == sc.subrange(ci, sc.len() as int)[j + 1]);
            }
            assert(reports@.map_values(|v: Vec<Result<(Vec<T>, bool), Error>>| v@)
                =~= sc.subrange(ci + 1, sc.len() as int));
            assert(sc[ci].len() > max);
        }
        let mut a: usize = 0;
        while a < config.max_retries
            invariant_except_break
                a <= config.max_retries,
                script@.len() > config.max_retries,
                forall|j: int| 0 <= j < a ==> !attempt_halts(#[trigger] script@[j]),
            ensures
                a <= config.max_retries,
                script@.len() > config.max_retries,
                forall|j: int| 0 <= j < a ==> !attempt_halts(#[trigger] script@[j]),
                a == config.max_retries || attempt_halts(script@[a as int]),
            decreases config.max_retries - a,
        {
            if crate::retry::outcome_halts(&script[a]) {
                break ;
            }
            a = a + 1;
        }
        proof {
            lemma_final_attempt_found::<Vec<T>, Error>(script@, 0, a as nat, max);
        }
        let mut script_own = script;
        let final_report = script_own.remove(a);
        proof {
            assert(final_report == sc[ci][a as int]);
            lemma_read_aggregates_push(
                cs.subrange(0, ci),
                sc.subrange(0, ci),
                cs[ci],
                sc[ci],
                max,
            );
            assert(cs.subrange(0, ci + 1) =~= cs.subrange(0, ci).push(cs[ci]));
            assert(sc.subrange(0, ci + 1) =~= sc.subrange(0, ci).push(sc[ci]));
        }
        match final_report {
            Ok((retrieved, _had_unprocessed)) => {
                let ghost retrieved_spec = retrieved@;
                proof {
                    assert(retry_outcome(sc[ci], max) matches Ok(v) && v@ == retrieved_spec);
                }
                let mut batch = retrieved;
                all_items.append(&mut batch);
                proof {
                    ci = ci + 1;
                }
            },
            Err(e) => {
                proof {
                    assert(retry_outcome(sc[ci], max) == Err::<Vec<T>, Error>(e));
                }
                let note = "Batch get error: ".to_owned().concat(e.message().as_str());
                proof {
                    assert(note@ == read_failure_note(e));
                }
                let ghost chunk_seq = chunk@;
                let ghost base_keys = failed_keys@.map_values(|f: FailedKey<K>| f.key);
                let ghost base_notes = failed_keys@.map_values(|f: FailedKey<K>| f.error@);
                proof {
                    assert(base_keys + chunk_seq.take(0) =~= base_keys);
                    assert(base_notes + Seq::new(0, |i: int| note@) =~= base_notes);
                    assert(chunk@ =~= chunk_seq.subrange(0, chunk_seq.len() as int));
                }
                while chunk.len() > 0
                    invariant
                        chunk@.len() <= chunk_seq.len(),
                        chunk@ == chunk_seq.subrange(
                            chunk_seq.len() - chunk@.len(),
                            chunk_seq.len() as int,
                        ),
                        failed_keys@.map_values(|f: FailedKey<K>| f.key) == base_keys
                            + chunk_seq.take(chunk_seq.len() - chunk@.len()),
                        failed_keys@.map_values(|f: FailedKey<K>| f.error@) == base_notes
                            + Seq::new((chunk_seq.len() - chunk@.len()) as nat, |i: int| note@),
                    decreases chunk@.len(),
                {
                    let ghost done = chunk_seq.len() - chunk@.len();
                    let ghost pre_chunk = chunk@;
                    let ghost pre_failed = failed_keys@;
                    let key = chunk.remove(0);
                    let entry_error = note.clone();
                    let ghost key_spec = key;
                    let ghost error_spec = entry_error;
                    proof {
                        assert(entry_error@ == note@);
                    }
                    failed_keys.push(FailedKey { key, error: entry_error });
                    proof {
                        assert(key_spec == pre_chunk[0]);
                        assert(pre_chunk[0] == chunk_seq[done as int]);
                        assert(chunk@ =~= pre_chunk.subrange(1, pre_chunk.len() as int));
                        assert(chunk@ =~= chunk_seq.subrange(
                            chunk_seq.len() - chunk@.len(),
                            chunk_seq.len() as int,
                        ));
                        assert(chunk_seq.take(done + 1) =~= chunk_seq.take(done).push(
                            chunk_seq[done as int],
                        ));
                        assert(Seq::new((done + 1) as nat, |i: int| note@) =~= Seq::new(
                            done as nat,
                            |i: int| note@,
                        ).push(note@));
                        assert(failed_keys@ =~= pre_failed.push(
                            (FailedKey { key: key_spec, error: error_spec }),
                        ));
                        assert(failed_keys@.map_values(|f: FailedKey<K>| f.key)
                            =~= pre_failed.map_values(|f: FailedKey<K>| f.key).push(key_spec));
                        assert(failed_keys@.map_values(|f: FailedKey<K>| f.error@)
                            =~= pre_failed.map_values(|f: FailedKey<K>| f.error@).push(
                            error_spec@,
                        ));
                        assert(failed_keys@.map_values(|f: FailedKey<K>| f.key) =~= base_keys
                            + chunk_seq.take(done + 1));
                        assert(failed_keys@.map_values(|f: FailedKey<K>| f.error@) =~= base_notes
                            + Seq::new((done + 1) as nat, |i: int| note@));
                    }
                }
                proof {
                    assert(chunk_seq.take(chunk_seq.len() as int) =~= chunk_seq);
                    assert(Seq::new(chunk_seq.len(), |i: int| note@) =~= Seq::new(
                        cs[ci].len(),
                        |i: int| read_failure_note(e),
                    ));
                    ci = ci + 1;
                }
            },
        }
    }
    proof {
        assert(chunks_of(remaining@, DYNAMODB_BATCH_GET_LIMIT as int) =~= Seq::<Seq<K>>::empty());
        assert(ci == cs.len());
        assert(cs.subrange(0, ci) =~= cs);
        assert(sc.subrange(0, ci) =~= sc);
    }
    let successful = all_items.len();
    let failed = failed_keys.len();
    Ok(BatchGetResult { successful, failed, items: all_items, failed_keys })
}

} // verus!
