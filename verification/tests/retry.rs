use clean_dynamodb_store::retry::{retry_with_backoff, RetryConfig, RetryDecision};

#[test]
fn test_default_config() {
    let config = RetryConfig::default();
    assert_eq!(config.max_retries, 3);
    assert_eq!(config.initial_delay_ms, 100);
    assert_eq!(config.backoff_multiplier, 2);
}

#[test]
fn test_delay_calculation() {
    let config = RetryConfig::default();
    assert_eq!(config.delay_for_attempt(0), 100);
    assert_eq!(config.delay_for_attempt(1), 200);
    assert_eq!(config.delay_for_attempt(2), 400);
    assert_eq!(config.delay_for_attempt(3), 800);
}

#[test]
fn test_custom_config_delay() {
    let config = RetryConfig { max_retries: 5, initial_delay_ms: 50, backoff_multiplier: 3 };
    assert_eq!(config.delay_for_attempt(0), 50);
    assert_eq!(config.delay_for_attempt(1), 150);
    assert_eq!(config.delay_for_attempt(2), 450);
}

#[test]
fn test_no_retry_on_success() {
    // The operation reports completion on its first attempt: one
    // invocation in total.
    let outcomes: Vec<Result<(i32, bool), String>> =
        vec![Ok((42, false)), Ok((0, false)), Ok((0, false)), Ok((0, false))];
    let (result, attempts) = retry_with_backoff(outcomes, &RetryConfig::default());
    assert_eq!(result.unwrap(), 42);
    assert_eq!(attempts, 1);
}

#[test]
fn test_retry_until_success() {
    // The first two attempts ask for a retry; the third completes.
    let outcomes: Vec<Result<(i32, bool), String>> =
        vec![Ok((0, true)), Ok((1, true)), Ok((2, false)), Ok((3, true))];
    let (result, attempts) = retry_with_backoff(outcomes, &RetryConfig::default());
    assert_eq!(result.unwrap(), 2);
    assert_eq!(attempts, 3);
}

#[test]
fn test_max_retries_exceeded() {
    // Every attempt asks for a retry: the budget of 1 initial + 3
    // retries is spent and the last attempt's value comes back without
    // error.
    let outcomes: Vec<Result<(i32, bool), String>> =
        vec![Ok((99, true)), Ok((99, true)), Ok((99, true)), Ok((99, true))];
    let (result, attempts) = retry_with_backoff(outcomes, &RetryConfig::default());
    assert_eq!(result.unwrap(), 99);
    assert_eq!(attempts, 4); // 1 initial + 3 retries
}

#[test]
fn test_immediate_error() {
    // A terminal error on the first attempt short-circuits: one
    // invocation, no backoff.
    let outcomes: Vec<Result<(i32, bool), String>> = vec![
        Err("operation failed".to_string()),
        Ok((0, false)),
        Ok((0, false)),
        Ok((0, false)),
    ];
    let (result, attempts) = retry_with_backoff(outcomes, &RetryConfig::default());
    assert!(result.is_err());
    assert_eq!(result.unwrap_err(), "operation failed");
    assert_eq!(attempts, 1); // No retries on error
}

#[test]
fn test_custom_retry_config() {
    let config = RetryConfig { max_retries: 2, initial_delay_ms: 10, backoff_multiplier: 2 };
    let outcomes: Vec<Result<(i32, bool), String>> =
        vec![Ok((0, true)), Ok((0, true)), Ok((0, true))];
    let (result, attempts) = retry_with_backoff(outcomes, &config);
    assert!(result.is_ok());
    assert_eq!(attempts, 3); // 1 initial + 2 retries
}

#[test]
fn test_retry_stops_on_success_flag() {
    // The second attempt clears the retry flag: the run stops early even
    // though budget remains.
    let outcomes: Vec<Result<(String, bool), String>> = vec![
        Ok(("retrying".to_string(), true)),
        Ok(("success".to_string(), false)),
        Ok(("retrying".to_string(), true)),
        Ok(("retrying".to_string(), true)),
    ];
    let (result, attempts) = retry_with_backoff(outcomes, &RetryConfig::default());
    assert_eq!(result.unwrap(), "success");
    assert_eq!(attempts, 2); // Stopped early
}

#[test]
fn test_decide_after_attempt() {
    let config = RetryConfig::default();
    // No retry wanted: finish at once.
    assert_eq!(config.decide_after_attempt(0, false), RetryDecision::Finish);
    // Retry wanted with budget left: back off by the attempt's delay.
    assert_eq!(config.decide_after_attempt(0, true), RetryDecision::SleepThenRetry(100));
    assert_eq!(config.decide_after_attempt(1, true), RetryDecision::SleepThenRetry(200));
    assert_eq!(config.decide_after_attempt(2, true), RetryDecision::SleepThenRetry(400));
    // Budget spent: finish even though a retry is wanted.
    assert_eq!(config.decide_after_attempt(3, true), RetryDecision::Finish);
}
