use clean_dynamodb_store::chunking::{chunk_for_get, chunk_for_write, chunk_items};

#[test]
fn test_chunk_empty() {
    let items: Vec<i32> = vec![];
    let chunks = chunk_items(&items, None);
    assert_eq!(chunks.len(), 0);
}

#[test]
fn test_chunk_with_default_size() {
    let items: Vec<i32> = (0..100).collect();
    let chunks = chunk_items(&items, None);
    assert_eq!(chunks.len(), 4); // 25 + 25 + 25 + 25
    assert_eq!(chunks[0].len(), 25);
}

#[test]
fn test_chunk_less_than_default_limit() {
    let items: Vec<i32> = (0..10).collect();
    let chunks = chunk_items(&items, None);
    assert_eq!(chunks.len(), 1);
    assert_eq!(chunks[0].len(), 10);
}

#[test]
fn test_chunk_exactly_default_limit() {
    let items: Vec<i32> = (0..25).collect();
    let chunks = chunk_items(&items, None);
    assert_eq!(chunks.len(), 1);
    assert_eq!(chunks[0].len(), 25);
}

#[test]
fn test_chunk_with_custom_size() {
    let items: Vec<i32> = (0..100).collect();
    let chunks = chunk_items(&items, Some(10));
    assert_eq!(chunks.len(), 10); // 10 chunks of 10
    assert_eq!(chunks[0].len(), 10);
    assert_eq!(chunks[9].len(), 10);
}

#[test]
fn test_chunk_custom_size_with_remainder() {
    let items: Vec<i32> = (0..23).collect();
    let chunks = chunk_items(&items, Some(10));
    assert_eq!(chunks.len(), 3); // 10 + 10 + 3
    assert_eq!(chunks[0].len(), 10);
    assert_eq!(chunks[1].len(), 10);
    assert_eq!(chunks[2].len(), 3);
}

#[test]
fn test_chunk_default_with_remainder() {
    let items: Vec<i32> = (0..53).collect();
    let chunks = chunk_items(&items, None);
    assert_eq!(chunks.len(), 3); // 25 + 25 + 3
    assert_eq!(chunks[0].len(), 25);
    assert_eq!(chunks[1].len(), 25);
    assert_eq!(chunks[2].len(), 3);
}

#[test]
fn test_chunk_single_item() {
    let items: Vec<i32> = vec![42];
    let chunks = chunk_items(&items, None);
    assert_eq!(chunks.len(), 1);
    assert_eq!(chunks[0].len(), 1);
    assert_eq!(chunks[0][0], 42);
}

#[test]
fn test_chunk_custom_size_one() {
    let items: Vec<i32> = (0..5).collect();
    let chunks = chunk_items(&items, Some(1));
    assert_eq!(chunks.len(), 5); // Each item in its own chunk
    assert_eq!(chunks[0][0], 0);
    assert_eq!(chunks[4][0], 4);
}

#[test]
fn test_chunk_partition_roundtrip() {
    // Concatenating the chunks reproduces the input in order, and no
    // chunk exceeds the limit.
    let items: Vec<i32> = (0..137).collect();
    let chunks = chunk_items(&items, Some(12));
    let mut rebuilt: Vec<i32> = Vec::new();
    for chunk in &chunks {
        assert!(!chunk.is_empty());
        assert!(chunk.len() <= 12);
        rebuilt.extend_from_slice(chunk);
    }
    assert_eq!(rebuilt, items);
    assert_eq!(chunks.len(), (137 + 11) / 12);
}

#[test]
fn test_chunk_idempotent() {
    // The same input under the same limit yields identical boundaries.
    let items: Vec<i32> = (0..61).collect();
    let first = chunk_items(&items, Some(7));
    let second = chunk_items(&items, Some(7));
    assert_eq!(first.len(), second.len());
    for i in 0..first.len() {
        assert_eq!(first[i], second[i]);
    }
}

#[test]
fn test_chunk_for_write_limit() {
    let items: Vec<u64> = (0..60).collect();
    let chunks = chunk_for_write(&items);
    assert_eq!(chunks.len(), 3); // 25 + 25 + 10
    assert_eq!(chunks[0].len(), 25);
    assert_eq!(chunks[2].len(), 10);
}

#[test]
fn test_chunk_for_get_limit() {
    let keys: Vec<u64> = (0..250).collect();
    let chunks = chunk_for_get(&keys);
    assert_eq!(chunks.len(), 3); // 100 + 100 + 50
    assert_eq!(chunks[0].len(), 100);
    assert_eq!(chunks[1].len(), 100);
    assert_eq!(chunks[2].len(), 50);
}
