use trueno_db::error::ErrorKind;
use trueno_db::kv::compressed::{has_overlong_run, CompressedKvStore, Compression, LZ4_RUN_LIMIT};
use trueno_db::kv::memory::MemoryKvStore;
use trueno_db::kv::{batch_get, batch_set, hash_bytes, hash_key, hash_keys_batch, KvStore};

#[test]
fn test_compression_as_str() {
    assert_eq!(Compression::Lz4.as_str(), "lz4");
    assert_eq!(Compression::Zstd.as_str(), "zstd");
}

#[test]
fn test_compression_default() {
    assert_eq!(Compression::default(), Compression::Lz4);
}

#[test]
fn test_lz4_compress_decompress() {
    let data = b"hello world hello world hello world".to_vec();
    let compressed = Compression::Lz4.compress(&data).unwrap();
    let decompressed = Compression::Lz4.decompress(&compressed).unwrap();
    assert_eq!(decompressed, data);
}

#[test]
fn test_zstd_compress_decompress() {
    let data = b"hello world hello world hello world".to_vec();
    let compressed = Compression::Zstd.compress(&data).unwrap();
    let decompressed = Compression::Zstd.decompress(&compressed).unwrap();
    assert_eq!(decompressed, data);
}

#[test]
fn test_empty_data_compression() {
    let empty: Vec<u8> = vec![];

    let lz4_compressed = Compression::Lz4.compress(&empty).unwrap();
    assert!(lz4_compressed.is_empty());
    let lz4_decompressed = Compression::Lz4.decompress(&lz4_compressed).unwrap();
    assert!(lz4_decompressed.is_empty());

    let zstd_compressed = Compression::Zstd.compress(&empty).unwrap();
    assert!(zstd_compressed.is_empty());
    let zstd_decompressed = Compression::Zstd.decompress(&zstd_compressed).unwrap();
    assert!(zstd_decompressed.is_empty());
}

#[test]
fn test_lz4_compresses_repeated_data() {
    let data = vec![0u8; 10000];
    let compressed = Compression::Lz4.compress(&data).unwrap();
    assert!(compressed.len() < data.len() / 10);
}

#[test]
fn test_zstd_compresses_repeated_data() {
    let data = vec![0u8; 10000];
    let compressed = Compression::Zstd.compress(&data).unwrap();
    assert!(compressed.len() < data.len() / 10);
}

#[test]
fn test_decompress_rejects_garbage() {
    let garbage = vec![0xFFu8, 0x00, 0x00, 0x00, 0x7F, 0x13, 0x37];
    assert!(Compression::Lz4.decompress(&garbage).is_err());
    assert!(Compression::Zstd.decompress(&garbage).is_err());
}

#[test]
fn test_memory_kv_set_get() {
    let mut store = MemoryKvStore::new();
    store.set("key1", b"value1".to_vec()).unwrap();
    let value = store.get("key1").unwrap();
    assert_eq!(value, Some(b"value1".to_vec()));
}

#[test]
fn test_memory_kv_get_nonexistent() {
    let store = MemoryKvStore::new();
    let value = store.get("nonexistent").unwrap();
    assert_eq!(value, None);
}

#[test]
fn test_memory_kv_overwrite() {
    let mut store = MemoryKvStore::new();
    store.set("key", b"value1".to_vec()).unwrap();
    store.set("key", b"value2".to_vec()).unwrap();
    let value = store.get("key").unwrap();
    assert_eq!(value, Some(b"value2".to_vec()));
}

#[test]
fn test_memory_kv_delete() {
    let mut store = MemoryKvStore::new();
    store.set("key", b"value".to_vec()).unwrap();
    store.delete("key").unwrap();
    let value = store.get("key").unwrap();
    assert_eq!(value, None);
}

#[test]
fn test_memory_kv_delete_nonexistent() {
    let mut store = MemoryKvStore::new();
    store.delete("nonexistent").unwrap();
}

#[test]
fn test_memory_kv_exists() {
    let mut store = MemoryKvStore::new();
    assert!(!store.contains("key").unwrap());
    store.set("key", b"value".to_vec()).unwrap();
    assert!(store.contains("key").unwrap());
    store.delete("key").unwrap();
    assert!(!store.contains("key").unwrap());
}

#[test]
fn test_memory_kv_batch_get() {
    let mut store = MemoryKvStore::new();
    store.set("a", b"1".to_vec()).unwrap();
    store.set("b", b"2".to_vec()).unwrap();

    let keys = vec!["a".to_string(), "b".to_string(), "c".to_string()];
    let results = batch_get(&store, &keys).unwrap();

    assert_eq!(results.len(), 3);
    assert_eq!(results[0], Some(b"1".to_vec()));
    assert_eq!(results[1], Some(b"2".to_vec()));
    assert_eq!(results[2], None);
}

#[test]
fn test_memory_kv_batch_set() {
    let mut store = MemoryKvStore::new();
    batch_set(
        &mut store,
        vec![
            ("a".to_string(), b"1".to_vec()),
            ("b".to_string(), b"2".to_vec()),
            ("c".to_string(), b"3".to_vec()),
        ],
    )
    .unwrap();

    assert_eq!(store.get("a").unwrap(), Some(b"1".to_vec()));
    assert_eq!(store.get("b").unwrap(), Some(b"2".to_vec()));
    assert_eq!(store.get("c").unwrap(), Some(b"3".to_vec()));
}

#[test]
fn test_memory_kv_batch_set_later_pair_wins() {
    let mut store = MemoryKvStore::new();
    batch_set(
        &mut store,
        vec![("a".to_string(), b"1".to_vec()), ("a".to_string(), b"2".to_vec())],
    )
    .unwrap();
    assert_eq!(store.get("a").unwrap(), Some(b"2".to_vec()));
    assert_eq!(store.len(), 1);
}

#[test]
fn test_memory_kv_empty_key() {
    let mut store = MemoryKvStore::new();
    store.set("", b"empty_key_value".to_vec()).unwrap();
    assert_eq!(store.get("").unwrap(), Some(b"empty_key_value".to_vec()));
}

#[test]
fn test_memory_kv_empty_value() {
    let mut store = MemoryKvStore::new();
    store.set("key", vec![]).unwrap();
    assert_eq!(store.get("key").unwrap(), Some(vec![]));
}

#[test]
fn test_memory_kv_large_value() {
    let mut store = MemoryKvStore::new();
    let large_value = vec![0u8; 1024 * 1024];
    store.set("large", large_value.clone()).unwrap();
    assert_eq!(store.get("large").unwrap(), Some(large_value));
}

#[test]
fn test_memory_kv_with_capacity() {
    let mut store = MemoryKvStore::with_capacity(100);
    store.set("key", b"value".to_vec()).unwrap();
    assert_eq!(store.get("key").unwrap(), Some(b"value".to_vec()));
}

#[test]
fn test_memory_kv_len_and_is_empty() {
    let mut store = MemoryKvStore::new();
    assert!(store.is_empty());
    assert_eq!(store.len(), 0);

    store.set("key1", b"value1".to_vec()).unwrap();
    assert!(!store.is_empty());
    assert_eq!(store.len(), 1);

    store.set("key2", b"value2".to_vec()).unwrap();
    assert_eq!(store.len(), 2);
}

#[test]
fn test_memory_kv_clear() {
    let mut store = MemoryKvStore::new();
    store.set("key1", b"value1".to_vec()).unwrap();
    store.set("key2", b"value2".to_vec()).unwrap();
    assert_eq!(store.len(), 2);

    store.clear();
    assert!(store.is_empty());
    assert_eq!(store.len(), 0);
    assert_eq!(store.get("key1").unwrap(), None);
}

#[test]
fn test_memory_kv_default() {
    let store: MemoryKvStore = MemoryKvStore::default();
    assert!(store.is_empty());
}

#[test]
fn test_compressed_store_round_trip() {
    let mut store = CompressedKvStore::new(MemoryKvStore::new(), Compression::Lz4);
    let value = vec![7u8; 4096];
    store.set("k", value.clone()).unwrap();
    assert_eq!(store.compression(), Compression::Lz4);
    // The store inside holds the compressed form, not the value.
    let held = store.inner().get("k").unwrap().unwrap();
    assert!(held.len() < value.len());
    assert_eq!(store.get("k").unwrap(), Some(value));
    assert!(store.contains("k").unwrap());
    store.delete("k").unwrap();
    assert_eq!(store.get("k").unwrap(), None);
}

#[test]
fn test_compressed_store_zstd_round_trip() {
    let mut store = CompressedKvStore::new(MemoryKvStore::new(), Compression::Zstd);
    let value = b"abcabcabcabcabcabcabcabcabcabcabcabc".to_vec();
    store.set("k", value.clone()).unwrap();
    assert_eq!(store.get("k").unwrap(), Some(value));
}

#[test]
fn test_compressed_store_reports_undecodable_entry() {
    let mut inner = MemoryKvStore::new();
    inner.set("k", vec![1u8, 2, 3]).unwrap();
    let store = CompressedKvStore::new(inner, Compression::Lz4);
    assert!(store.get("k").is_err());
}

#[test]
fn test_key_hashes() {
    assert_eq!(hash_key("key"), hash_bytes(b"key"));
    assert_ne!(hash_key("key1"), hash_key("key2"));
    assert_eq!(hash_bytes(b""), 0);
    let batch = hash_keys_batch(&["a", "b", "a"]);
    assert_eq!(batch, vec![hash_key("a"), hash_key("b"), hash_key("a")]);
}

#[test]
fn test_lz4_refuses_an_overlong_length_run() {
    // Four size bytes, a token that announces a long literal, and more
    // length bytes than a 32-bit length can add up.
    let mut data = vec![16u8, 0, 0, 0, 0xF0];
    data.resize(5 + LZ4_RUN_LIMIT + 2, 0xFF);
    assert!(has_overlong_run(&data));
    let error = Compression::Lz4.decompress(&data).unwrap_err();
    assert_eq!(error.kind(), ErrorKind::StorageError);
    assert!(error.message().contains("LZ4 decompression failed"));
    // A run at the limit is handed to the decoder, which finds no block.
    let mut data = vec![16u8, 0, 0, 0, 0xF0];
    data.resize(5 + LZ4_RUN_LIMIT, 0xFF);
    assert!(!has_overlong_run(&data));
    assert_eq!(Compression::Lz4.decompress(&data).unwrap_err().kind(), ErrorKind::StorageError);
    assert!(!has_overlong_run(&[]));
    assert!(!has_overlong_run(&[0xFF, 0xFF, 0, 0xFF]));
}
