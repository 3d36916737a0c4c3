use clean_dynamodb_store::batch::{batch_get_items, batch_put_items, write_attempt_outcome};
use clean_dynamodb_store::Error;

fn accepted_script() -> Vec<Result<usize, Error>> {
    // Every attempt reports full acceptance; only the first is consumed.
    vec![Ok(0), Ok(0), Ok(0), Ok(0)]
}

fn failing_script(message: &str) -> Vec<Result<usize, Error>> {
    (0..4).map(|_| Err(Error::AwsSdk(message.to_string()))).collect()
}

#[test]
fn test_batch_write_end_to_end() {
    // 100 records with the write cap of 25 make 4 chunks, dispatched in
    // order; full acceptance on every first attempt counts all 100.
    let records: Vec<u64> = (0..100).collect();
    let reports = vec![accepted_script(), accepted_script(), accepted_script(), accepted_script()];
    let result = batch_put_items("users", records, reports).unwrap();
    assert_eq!(result.successful, 100);
    assert_eq!(result.failed, 0);
    assert!(result.failed_items.is_empty());
}

#[test]
fn test_batch_write_one_chunk_hard_failure() {
    // Chunk 3 of 4 raises a store error on its first attempt (hard
    // errors are never retried), so its 25 records all appear as failed
    // items with a description referencing the error, while the other 75
    // are counted successful.
    let records: Vec<u64> = (0..100).collect();
    let reports = vec![
        accepted_script(),
        accepted_script(),
        failing_script("connection refused"),
        accepted_script(),
    ];
    let result = batch_put_items("users", records, reports).unwrap();
    assert_eq!(result.successful, 75);
    assert_eq!(result.failed, 25);
    assert_eq!(result.failed_items.len(), 25);
    for (offset, failed) in result.failed_items.iter().enumerate() {
        assert_eq!(failed.item, (50 + offset) as u64);
        assert_eq!(failed.error, "Batch write error: AWS SDK error: connection refused");
    }
}

#[test]
fn test_batch_write_empty_input() {
    let result = batch_put_items::<u64>("users", Vec::new(), Vec::new()).unwrap();
    assert_eq!(result.successful, 0);
    assert_eq!(result.failed, 0);
    assert!(result.failed_items.is_empty());
}

#[test]
fn test_batch_write_blank_table_name() {
    let records: Vec<u64> = (0..10).collect();
    let reports = vec![accepted_script()];
    let err = batch_put_items("   ", records, reports).unwrap_err();
    assert_eq!(err, Error::Validation("Table name cannot be empty".to_string()));
    assert_eq!(err.message(), "Validation error: Table name cannot be empty");
}

#[test]
fn test_batch_write_retry_then_acceptance() {
    // The first attempt leaves 10 records unprocessed, the second
    // accepts everything: the chunk's final attempt reports the whole
    // chunk accepted.
    let records: Vec<u64> = (0..25).collect();
    let reports = vec![vec![Ok(10), Ok(0), Ok(0), Ok(0)]];
    let result = batch_put_items("users", records, reports).unwrap();
    assert_eq!(result.successful, 25);
    assert_eq!(result.failed, 0);
}

#[test]
fn test_batch_write_residue_after_exhaustion() {
    // Every attempt keeps one record unprocessed. After the retry budget
    // is spent the final attempt's count stands: the residue is dropped
    // silently, not recorded as a failed item, so successful + failed
    // falls short of the input length.
    let records: Vec<u64> = (0..25).collect();
    let reports = vec![vec![Ok(5), Ok(3), Ok(2), Ok(1)]];
    let result = batch_put_items("users", records, reports).unwrap();
    assert_eq!(result.successful, 24);
    assert_eq!(result.failed, 0);
    assert!(result.failed_items.is_empty());
}

#[test]
fn test_batch_read_pagination() {
    // 250 keys with the read cap of 100 make 3 chunks of 100, 100 and
    // 50; the accounting ties items to successful and failed_keys to
    // failed.
    let keys: Vec<u64> = (0..250).collect();
    let page = |start: u64, n: u64| -> Vec<Result<(Vec<u64>, bool), Error>> {
        vec![
            Ok(((start..start + n).collect(), false)),
            Ok((Vec::new(), false)),
            Ok((Vec::new(), false)),
            Ok((Vec::new(), false)),
        ]
    };
    let reports = vec![page(0, 100), page(100, 100), page(200, 50)];
    let result = batch_get_items("users", keys, reports).unwrap();
    assert_eq!(result.items.len(), result.successful);
    assert_eq!(result.failed_keys.len(), result.failed);
    assert_eq!(result.successful, 250);
    assert_eq!(result.failed, 0);
    let expected: Vec<u64> = (0..250).collect();
    assert_eq!(result.items, expected);
}

#[test]
fn test_batch_read_chunk_hard_failure() {
    // 150 keys make 2 chunks; the second chunk's call fails terminally,
    // so its 50 keys are recorded as failed with a description
    // referencing the error, contributing no retrieved records.
    let keys: Vec<u64> = (0..150).collect();
    let ok_page: Vec<Result<(Vec<u64>, bool), Error>> = vec![
        Ok(((0..100).collect(), false)),
        Ok((Vec::new(), false)),
        Ok((Vec::new(), false)),
        Ok((Vec::new(), false)),
    ];
    let failing: Vec<Result<(Vec<u64>, bool), Error>> =
        (0..4).map(|_| Err(Error::AwsSdk("access denied".to_string()))).collect();
    let result = batch_get_items("users", keys, vec![ok_page, failing]).unwrap();
    assert_eq!(result.successful, 100);
    assert_eq!(result.failed, 50);
    for (offset, failed) in result.failed_keys.iter().enumerate() {
        assert_eq!(failed.key, (100 + offset) as u64);
        assert_eq!(failed.error, "Batch get error: AWS SDK error: access denied");
    }
}

#[test]
fn test_batch_read_retry_keeps_last_attempt() {
    // A retried chunk resolves to its final attempt's answer.
    let keys: Vec<u64> = (0..3).collect();
    let reports: Vec<Vec<Result<(Vec<u64>, bool), Error>>> = vec![vec![
        Ok((vec![0], true)),
        Ok((vec![0, 1, 2], false)),
        Ok((Vec::new(), false)),
        Ok((Vec::new(), false)),
    ]];
    let result = batch_get_items("users", keys, reports).unwrap();
    assert_eq!(result.successful, 3);
    assert_eq!(result.items, vec![0, 1, 2]);
}

#[test]
fn test_batch_read_blank_table_name() {
    let keys: Vec<u64> = vec![1];
    let reports: Vec<Vec<Result<(Vec<u64>, bool), Error>>> = vec![vec![
        Ok((Vec::new(), false)),
        Ok((Vec::new(), false)),
        Ok((Vec::new(), false)),
        Ok((Vec::new(), false)),
    ]];
    let err = batch_get_items("\t \n", keys, reports).unwrap_err();
    assert_eq!(err, Error::Validation("Table name cannot be empty".to_string()));
}

#[test]
fn test_write_attempt_outcome() {
    // A partial acceptance asks for a retry; full acceptance does not.
    assert_eq!(write_attempt_outcome(25, 5), (20, true));
    assert_eq!(write_attempt_outcome(25, 0), (25, false));
    assert_eq!(write_attempt_outcome(25, 25), (0, true));
}
