use multivm::bytecode::{compress_bytecode, hash_bytecode, plan_compression};
use multivm::storage::StorageOracle;

#[test]
fn hash_of_empty_is_offset_basis() {
    let empty: Vec<u8> = Vec::new();
    assert_eq!(hash_bytecode(&empty), 0xcbf29ce484222325);
}

#[test]
fn hash_of_one_byte_exact() {
    let code = vec![b'a'];
    assert_eq!(hash_bytecode(&code), 0xaf63dc4c8601ec8c);
}

#[test]
fn hash_is_deterministic() {
    let code = vec![1u8, 2, 3, 4, 5];
    assert_eq!(hash_bytecode(&code), hash_bytecode(&code.clone()));
}

#[test]
fn compress_one_word_of_zeros() {
    // 32 bytes: one 32-byte word (odd count), four 8-byte chunks.
    let code = vec![0u8; 32];
    let payload = compress_bytecode(&code).expect("well-shaped bytecode must compress");
    // first chunk is a literal, the three repeats collapse to markers
    let mut expected = vec![1u8];
    expected.extend_from_slice(&[0u8; 8]);
    expected.extend_from_slice(&[0u8, 0, 0]);
    assert_eq!(payload, expected);
}

#[test]
fn compress_distinct_chunks_stays_literal() {
    let mut code = vec![0u8; 32];
    code[0] = 1;
    code[8] = 2;
    code[16] = 3;
    code[24] = 4;
    let payload = compress_bytecode(&code).expect("well-shaped bytecode must compress");
    // four distinct chunks: four literals, 9 bytes each
    assert_eq!(payload.len(), 36);
    assert_eq!(payload[0], 1);
    assert_eq!(payload[1], 1);
    assert_eq!(payload[9], 1);
    assert_eq!(payload[10], 2);
}

#[test]
fn compress_rejects_malformed_shapes() {
    // not a multiple of 32
    assert!(compress_bytecode(&vec![0u8; 3]).is_none());
    // even word count
    assert!(compress_bytecode(&vec![0u8; 64]).is_none());
    // empty
    assert!(compress_bytecode(&Vec::new()).is_none());
}

#[test]
fn plan_dedups_repeated_hashes() {
    // dependency list [a, a, b]: only the first occurrence per hash is kept
    let a = vec![0u8; 32];
    let b = vec![1u8; 32];
    let deps = vec![a.clone(), a.clone(), b.clone()];
    let storage = StorageOracle::new();
    let records = plan_compression(&deps, &storage);
    assert_eq!(records.len(), 2);
    assert_eq!(records[0].bytecode_hash, hash_bytecode(&a));
    assert_eq!(records[1].bytecode_hash, hash_bytecode(&b));
}

#[test]
fn plan_skips_already_known_hashes() {
    let a = vec![0u8; 32];
    let b = vec![1u8; 32];
    let deps = vec![a.clone(), b.clone()];
    let mut storage = StorageOracle::new();
    storage.mark_bytecode_known(hash_bytecode(&a));
    let records = plan_compression(&deps, &storage);
    assert_eq!(records.len(), 1);
    assert_eq!(records[0].bytecode_hash, hash_bytecode(&b));
}

#[test]
fn plan_keeps_record_for_uncompressible_dependency() {
    // a pending dependency whose compression fails still gets a record,
    // with no payload
    let bad = vec![9u8, 9, 9];
    let deps = vec![bad.clone()];
    let storage = StorageOracle::new();
    let records = plan_compression(&deps, &storage);
    assert_eq!(records.len(), 1);
    assert_eq!(records[0].bytecode_hash, hash_bytecode(&bad));
    assert!(records[0].compressed.is_none());
}

#[test]
fn plan_of_empty_list_is_empty() {
    let deps: Vec<Vec<u8>> = Vec::new();
    let storage = StorageOracle::new();
    assert_eq!(plan_compression(&deps, &storage).len(), 0);
}
