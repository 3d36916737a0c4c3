use clean_dynamodb_store::query::QueryResult;
use clean_dynamodb_store::scan::ScanResult;
use clean_dynamodb_store::validate::{validate_expression, validate_not_empty, validate_table_name};
use clean_dynamodb_store::Error;

#[test]
fn test_validate_table_name_accepts_text() {
    assert!(validate_table_name("users").is_ok());
    assert!(validate_table_name(" users ").is_ok());
}

#[test]
fn test_validate_table_name_rejects_blank() {
    assert!(validate_table_name("").is_err());
    assert!(validate_table_name("   ").is_err());
    assert_eq!(
        validate_table_name("\t\n").unwrap_err(),
        Error::Validation("Table name cannot be empty".to_string())
    );
}

#[test]
fn test_validate_not_empty() {
    assert!(validate_not_empty(3, "Item").is_ok());
    assert_eq!(
        validate_not_empty(0, "Item").unwrap_err(),
        Error::Validation("Item cannot be empty".to_string())
    );
    assert_eq!(
        validate_not_empty(0, "Key").unwrap_err(),
        Error::Validation("Key cannot be empty".to_string())
    );
}

#[test]
fn test_validate_expression() {
    assert!(validate_expression("SET #name = :name", "Update expression").is_ok());
    assert_eq!(
        validate_expression("  ", "Update expression").unwrap_err(),
        Error::Validation("Update expression cannot be empty".to_string())
    );
    assert_eq!(
        validate_expression("", "Key condition expression").unwrap_err(),
        Error::Validation("Key condition expression cannot be empty".to_string())
    );
}

#[test]
fn test_error_messages() {
    let store_err = Error::AwsSdk("timeout".to_string());
    assert_eq!(store_err.message(), "AWS SDK error: timeout");
    let validation_err = Error::Validation("Key cannot be empty".to_string());
    assert_eq!(validation_err.message(), "Validation error: Key cannot be empty");
}

#[test]
fn test_query_result_counts_items() {
    let items: Vec<u64> = vec![7, 8, 9];
    let result: QueryResult<u64, u64> = QueryResult::new(items, Some(9));
    assert_eq!(result.count, 3);
    assert_eq!(result.items, vec![7, 8, 9]);
    assert_eq!(result.last_evaluated_key, Some(9));
}

#[test]
fn test_scan_result_counts_items() {
    let items: Vec<u64> = vec![1, 2];
    let result: ScanResult<u64, u64> = ScanResult::new(items, 10, None);
    assert_eq!(result.count, 2);
    assert_eq!(result.scanned_count, 10);
    assert_eq!(result.last_evaluated_key, None);
}
