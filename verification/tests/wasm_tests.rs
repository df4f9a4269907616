use trueno_db::batch::ColumnBatch;
use trueno_db::column::{Column, ColumnData};
use trueno_db::error::ErrorKind;
use trueno_db::query::executor::Step;
use trueno_db::schema::{DataType, Field, Schema};
use trueno_db::storage::StorageEngine;
use trueno_db::wasm::database::{
    array_value_to_json, batch_from_json, infer_type, member, record_batch_to_json, wrap_to_i32,
    Database, JsonCell, JsonNumber, JsonRecord, JsonValue,
};
use trueno_db::wasm::http_range::{
    check_status, parse_content_length, AfterFailure, ByteRange, RangeClient,
};
use trueno_db::wasm::late_materialization::{
    LateMaterializationExecutor, MemoryBudget, MemoryStats,
};
use trueno_db::wasm::streaming_parquet::{
    chunk_range, ColumnChunkMetadata, ParquetMetadata, ParquetSchema, RowGroupMetadata,
    StreamingParquetReader, FOOTER_METADATA_SIZE, MAX_FOOTER_SIZE, PARQUET_MAGIC,
};
use trueno_db::wasm::{compute_tier, DatabaseConfig};

#[test]
fn test_database_config_builder() {
    let config = DatabaseConfig::new().backend("simd128").cache_size_mb(512);
    assert_eq!(config.backend_name(), "simd128");
    assert_eq!(config.cache_size(), 512);
    let default = DatabaseConfig::default();
    assert_eq!(default.backend_name(), "auto");
    assert_eq!(default.cache_size(), 256);
}

#[test]
fn test_compute_tier() {
    assert_eq!(compute_tier(true, true), "webgpu");
    assert_eq!(compute_tier(true, false), "webgpu");
    assert_eq!(compute_tier(false, true), "simd128");
    assert_eq!(compute_tier(false, false), "scalar");
}

#[test]
fn test_byte_range_new() {
    let range = ByteRange::new(0, 1023);
    assert_eq!(range.start, 0);
    assert_eq!(range.end, 1023);
    assert_eq!(range.size(), 1024);
}

#[test]
fn test_byte_range_display() {
    let range = ByteRange::new(100, 199);
    assert_eq!(range.header_value(), "bytes=100-199");
    assert_eq!(ByteRange::new(0, u64::MAX).header_value(), "bytes=0-18446744073709551615");
}

#[test]
fn test_byte_range_size() {
    assert_eq!(ByteRange::new(0, 0).size(), 1);
    assert_eq!(ByteRange::new(0, 1023).size(), 1024);
    assert_eq!(ByteRange::new(1, u64::MAX).size(), u64::MAX);
    assert_eq!(ByteRange::last_n_bytes(8), ByteRange { start: u64::MAX - 7, end: u64::MAX });
    assert_eq!(ByteRange::last_n_bytes(1).size(), 1);
}

#[test]
fn test_retry_policy() {
    let client = RangeClient::new("https://example.com/data.parquet");
    assert_eq!(client.base_url(), "https://example.com/data.parquet");
    assert_eq!(client.retry_attempts(), 3);
    assert_eq!(client.after_failure(0), AfterFailure::Retry { delay_ms: 100 });
    assert_eq!(client.after_failure(1), AfterFailure::Retry { delay_ms: 200 });
    assert_eq!(client.after_failure(2), AfterFailure::GiveUp);
    assert_eq!(client.after_failure(3), AfterFailure::GiveUp);
    assert_eq!(client.after_failure(u32::MAX), AfterFailure::GiveUp);
}

#[test]
fn test_status_and_content_length() {
    assert!(check_status(200).is_ok());
    assert!(check_status(206).is_ok());
    for status in [0u16, 199, 201, 204, 301, 404, 416, 500] {
        let error = check_status(status).unwrap_err();
        assert_eq!(error.kind(), ErrorKind::Io);
        assert_eq!(error.message(), format!("IO error: HTTP error: {status}"));
    }
    assert_eq!(parse_content_length(Some("1024")).unwrap(), 1024);
    assert_eq!(parse_content_length(Some("0")).unwrap(), 0);
    assert_eq!(parse_content_length(Some("18446744073709551615")).unwrap(), u64::MAX);
    assert!(parse_content_length(Some("18446744073709551616")).is_err());
    assert!(parse_content_length(Some("12 ")).is_err());
    assert!(parse_content_length(Some("-1")).is_err());
    assert!(parse_content_length(Some("")).is_err());
    let missing = parse_content_length(None).unwrap_err();
    assert!(missing.message().contains("No content-length header"));
}

#[test]
fn test_memory_budget_new() {
    let budget = MemoryBudget::new();
    assert_eq!(budget.limit(), 1_500_000_000);
    assert_eq!(budget.current_usage(), 0);
    assert_eq!(budget.available(), 1_500_000_000);
}

#[test]
fn test_memory_budget_with_limit() {
    let budget = MemoryBudget::with_limit(1_000_000);
    assert_eq!(budget.limit(), 1_000_000);
}

#[test]
fn test_memory_allocation_success() {
    let mut budget = MemoryBudget::with_limit(1_000_000);
    let alloc = budget.try_allocate(500_000);
    assert!(alloc.is_ok());
    assert_eq!(budget.current_usage(), 500_000);
    assert_eq!(budget.available(), 500_000);
    assert_eq!(alloc.unwrap().size(), 500_000);
}

#[test]
fn test_memory_allocation_exceeds_budget() {
    let mut budget = MemoryBudget::with_limit(1_000_000);
    let result = budget.try_allocate(1_500_000);
    assert!(result.is_err());
    assert_eq!(result.unwrap_err().kind(), ErrorKind::Other);
    assert_eq!(budget.current_usage(), 0);
    assert!(budget.try_allocate(usize::MAX).is_err());
    assert!(budget.try_allocate(1_000_000).is_ok());
    assert!(budget.try_allocate(1).is_err());
    assert_eq!(budget.current_usage(), 1_000_000);
    assert_eq!(budget.available(), 0);
}

#[test]
fn test_memory_allocation_raii() {
    let mut budget = MemoryBudget::with_limit(1_000_000);
    let alloc = budget.try_allocate(500_000).unwrap();
    assert_eq!(budget.current_usage(), 500_000);
    budget.release(alloc);
    assert_eq!(budget.current_usage(), 0);
}

#[test]
fn test_filter_indices_basic() {
    let mut executor = LateMaterializationExecutor::default();
    let data = vec![10, 20, 30, 40, 50];
    let indices = executor.filter_indices(&data, |v: &i32| *v > 25).unwrap();
    assert_eq!(indices, vec![2, 3, 4]);
    // The index buffer was given back.
    assert_eq!(executor.memory_stats().used_bytes, 0);
}

#[test]
fn test_filter_indices_selectivity() {
    let mut executor = LateMaterializationExecutor::default();
    let data: Vec<i32> = (0..1000).collect();
    let indices = executor.filter_indices(&data, |v: &i32| *v > 900).unwrap();
    assert_eq!(indices.len(), 99);
}

#[test]
fn test_filter_indices_under_a_tight_budget() {
    let mut executor = LateMaterializationExecutor::new(MemoryBudget::with_limit(39));
    let data = vec!["a", "bb", "ccc", "dd", "e"];
    // Five indices of eight bytes do not fit into 39 bytes.
    let result = executor.filter_indices(&data, |s: &&str| s.len() == 2);
    assert_eq!(result.unwrap_err().kind(), ErrorKind::Other);
    let mut executor = LateMaterializationExecutor::new(MemoryBudget::with_limit(40));
    assert_eq!(executor.filter_indices(&data, |s: &&str| s.len() == 2).unwrap(), vec![1, 3]);
    assert_eq!(executor.filter_indices(&data[0..0], |_: &&str| true).unwrap(), Vec::<usize>::new());
}

#[test]
fn test_memory_stats() {
    let mut budget = MemoryBudget::with_limit(2_000_000_000);
    let _alloc = budget.try_allocate(500_000_000).unwrap();
    let executor = LateMaterializationExecutor::new(budget);
    let stats = executor.memory_stats();
    assert_eq!(
        stats,
        MemoryStats {
            used_bytes: 500_000_000,
            limit_bytes: 2_000_000_000,
            available_bytes: 1_500_000_000
        }
    );
    let percent = stats.used_bytes as f64 / stats.limit_bytes as f64 * 100.0;
    assert!((percent - 25.0).abs() < 0.1);
}

#[test]
fn test_parquet_magic_constant() {
    assert_eq!(&PARQUET_MAGIC, b"PAR1");
    assert_eq!(PARQUET_MAGIC.len(), 4);
}

#[test]
fn test_footer_metadata_size() {
    assert_eq!(FOOTER_METADATA_SIZE, 8);
}

#[test]
fn test_max_footer_size_reasonable() {
    assert_eq!(MAX_FOOTER_SIZE, 10 * 1024 * 1024);
}

#[test]
fn test_footer_ranges() {
    let reader = StreamingParquetReader::new(1000);
    assert_eq!(reader.file_size(), 1000);
    assert!(reader.metadata().is_none());
    assert_eq!(reader.tail_range().unwrap(), ByteRange { start: 992, end: 999 });
    assert!(StreamingParquetReader::new(7).tail_range().is_err());
    assert_eq!(StreamingParquetReader::new(8).tail_range().unwrap(), ByteRange { start: 0, end: 7 });

    let tail = |len: u32| {
        let mut t = len.to_le_bytes().to_vec();
        t.extend_from_slice(b"PAR1");
        t
    };
    assert_eq!(reader.footer_range(&tail(100)).unwrap(), ByteRange { start: 892, end: 991 });
    assert_eq!(reader.footer_range(&tail(992)).unwrap(), ByteRange { start: 0, end: 991 });
    assert_eq!(reader.footer_range(&tail(1)).unwrap(), ByteRange { start: 991, end: 991 });
    for bad in [tail(0), tail(993), tail(u32::MAX), b"\x64\0\0\0PAR2".to_vec(), b"PAR1".to_vec(), vec![]] {
        assert_eq!(reader.footer_range(&bad).unwrap_err().kind(), ErrorKind::Io);
    }
    let big = StreamingParquetReader::new(u64::MAX);
    assert!(big.footer_range(&tail(10 * 1024 * 1024)).is_ok());
    let error = big.footer_range(&tail(10 * 1024 * 1024 + 1)).unwrap_err();
    assert!(error.message().contains("Footer too large"));
    assert!(reader.footer_range(&b"\x64\0\0\0PAR2".to_vec()).unwrap_err().message().contains("missing magic number"));
}

#[test]
fn test_row_group_and_column_ranges() {
    let mut reader = StreamingParquetReader::new(10_000);
    assert_eq!(reader.row_group_range(0).unwrap_err().kind(), ErrorKind::InvalidInput);
    assert!(reader.column_ranges(0, &[0]).is_err());
    let stub = reader.parse_footer(&[1, 2, 3]);
    assert_eq!(stub.num_rows, 0);
    assert!(stub.row_groups.is_empty());
    assert!(stub.schema.columns.is_empty());
    let chunk = |offset: u64, size: u64| ColumnChunkMetadata {
        name: "c".to_string(),
        file_offset: offset,
        total_compressed_size: size,
        statistics: None,
    };
    reader.set_metadata(ParquetMetadata {
        num_rows: 10,
        row_groups: vec![
            RowGroupMetadata {
                num_rows: 10,
                file_offset: 4,
                total_byte_size: 500,
                columns: vec![chunk(4, 100), chunk(104, 400), chunk(504, 0)],
            },
            RowGroupMetadata { num_rows: 0, file_offset: 504, total_byte_size: 0, columns: vec![] },
        ],
        schema: ParquetSchema::default(),
    });
    assert!(reader.metadata().is_some());
    assert_eq!(reader.row_group_range(0).unwrap(), ByteRange { start: 4, end: 503 });
    assert!(reader.row_group_range(1).is_err());
    assert!(reader.row_group_range(2).is_err());
    assert_eq!(
        reader.column_ranges(0, &[1, 0]).unwrap(),
        vec![ByteRange { start: 104, end: 503 }, ByteRange { start: 4, end: 103 }]
    );
    assert_eq!(reader.column_ranges(0, &[]).unwrap(), vec![]);
    assert!(reader.column_ranges(0, &[0, 3]).is_err());
    assert!(reader.column_ranges(0, &[2]).is_err());
    assert!(reader.column_ranges(5, &[0]).is_err());
    assert_eq!(chunk_range(u64::MAX, 1), Some(ByteRange { start: u64::MAX, end: u64::MAX }));
    assert_eq!(chunk_range(u64::MAX, 2), None);
    assert_eq!(chunk_range(5, 0), None);
}

fn whole(v: i64) -> JsonValue {
    JsonValue::Number(JsonNumber { integer: Some(v), float_bits: Some((v as f64).to_bits()), is_float: false })
}

fn fraction(v: f64) -> JsonValue {
    JsonValue::Number(JsonNumber { integer: None, float_bits: Some(v.to_bits()), is_float: true })
}

fn text(s: &str) -> JsonValue {
    JsonValue::Text(s.to_string())
}

fn record(members: Vec<(&str, JsonValue)>) -> JsonRecord {
    Some(members.into_iter().map(|(k, v)| (k.to_string(), v)).collect())
}

#[test]
fn test_json_inference_and_members() {
    assert_eq!(infer_type(&whole(1)), DataType::Int32);
    assert_eq!(infer_type(&fraction(1.0)), DataType::Float64);
    assert_eq!(infer_type(&text("x")), DataType::Utf8);
    assert_eq!(infer_type(&JsonValue::Bool(true)), DataType::Boolean);
    assert_eq!(infer_type(&JsonValue::Null), DataType::Utf8);
    assert_eq!(infer_type(&JsonValue::Other("[1]".to_string())), DataType::Utf8);
    let r = record(vec![("a", whole(1)), ("b", text("x")), ("a", whole(2))]);
    assert!(matches!(member(&r, &"b".to_string()), Some(JsonValue::Text(_))));
    match member(&r, &"a".to_string()) {
        Some(JsonValue::Number(n)) => assert_eq!(n.integer, Some(1)),
        _ => panic!("the first member of that key"),
    }
    assert!(member(&r, &"c".to_string()).is_none());
    assert!(member(&None, &"a".to_string()).is_none());
    assert_eq!(wrap_to_i32(5), 5);
    assert_eq!(wrap_to_i32(-5), -5);
    assert_eq!(wrap_to_i32(i32::MAX as i64 + 1), i32::MIN);
    assert_eq!(wrap_to_i32(i64::MIN), 0);
    assert_eq!(wrap_to_i32(i64::MAX), -1);
    for v in [0i64, 1, -1, 1 << 31, -(1 << 31) - 1, 0x1_2345_6789, i64::MAX, i64::MIN] {
        assert_eq!(wrap_to_i32(v), v as i32);
    }
}

#[test]
fn test_batch_from_json() {
    let records = vec![
        record(vec![("id", whole(1)), ("name", text("a")), ("score", fraction(1.5))]),
        record(vec![("id", whole(1 << 32)), ("score", whole(2)), ("name", JsonValue::Null)]),
        None,
        record(vec![("id", fraction(3.5)), ("name", text("d")), ("score", text("x")), ("extra", whole(1))]),
    ];
    let batch = batch_from_json(&records).unwrap();
    assert_eq!(batch.num_rows(), 4);
    assert_eq!(batch.num_columns(), 3);
    let fields = &batch.schema().fields;
    assert_eq!(fields[0].name, "id");
    assert_eq!(fields[0].data_type, DataType::Int32);
    assert!(fields[0].nullable);
    assert_eq!(fields[1].data_type, DataType::Utf8);
    assert_eq!(fields[2].data_type, DataType::Float64);
    assert_eq!(batch.column(0).validity, vec![true, true, false, false]);
    match &batch.column(0).data {
        ColumnData::Int32(v) => assert_eq!(&v[0..2], &[1, 0]),
        _ => panic!("expected integers"),
    }
    assert_eq!(batch.column(1).validity, vec![true, false, false, true]);
    match &batch.column(1).data {
        ColumnData::Utf8(v) => assert_eq!((v[0].as_str(), v[3].as_str()), ("a", "d")),
        _ => panic!("expected text"),
    }
    assert_eq!(batch.column(2).validity, vec![true, true, false, false]);
    match &batch.column(2).data {
        ColumnData::Float64(v) => {
            assert_eq!(f64::from_bits(v[0]), 1.5);
            assert_eq!(f64::from_bits(v[1]), 2.0);
        }
        _ => panic!("expected floating point"),
    }

    assert_eq!(batch_from_json(&vec![]).unwrap_err().kind(), ErrorKind::InvalidInput);
    assert!(batch_from_json(&vec![]).unwrap_err().message().contains("Empty JSON array"));
    assert!(batch_from_json(&vec![None]).unwrap_err().message().contains("Expected array of objects"));
    assert!(batch_from_json(&vec![record(vec![])]).is_err());
    let flagged = vec![record(vec![("id", whole(1)), ("ok", JsonValue::Bool(true))])];
    assert!(batch_from_json(&flagged).unwrap_err().message().contains("Failed to create batch"));
}

#[test]
fn test_results_as_json_rows() {
    let batch = ColumnBatch::try_new(
        Schema::new(vec![
            Field::new("a", DataType::Int32, true),
            Field::new("b", DataType::Int64, false),
            Field::new("c", DataType::Float32, false),
            Field::new("d", DataType::Float64, false),
            Field::new("e", DataType::Utf8, false),
            Field::new("f", DataType::Boolean, false),
        ]),
        vec![
            Column::with_validity(ColumnData::Int32(vec![1, 2]), vec![true, false]).unwrap(),
            Column::new(ColumnData::Int64(vec![-10, i64::MAX])),
            Column::new(ColumnData::Float32(vec![1.5f32.to_bits(), 0])),
            Column::new(ColumnData::Float64(vec![2.5f64.to_bits(), 0])),
            Column::new(ColumnData::Utf8(vec!["x".to_string(), "y".to_string()])),
            Column::new(ColumnData::Boolean(vec![true, false])),
        ],
    )
    .unwrap();
    let rows = record_batch_to_json(&batch);
    assert_eq!(rows.len(), 2);
    assert_eq!(rows[0].len(), 6);
    let names: Vec<&str> = rows[1].iter().map(|(n, _)| n.as_str()).collect();
    assert_eq!(names, vec!["a", "b", "c", "d", "e", "f"]);
    assert!(matches!(rows[0][0].1, JsonCell::Int(1)));
    assert!(matches!(rows[1][0].1, JsonCell::Null));
    assert!(matches!(rows[1][1].1, JsonCell::Int(i64::MAX)));
    match (&rows[0][2].1, &rows[0][3].1, &rows[1][4].1, &rows[0][5].1) {
        (JsonCell::Float32(c), JsonCell::Float64(d), JsonCell::Text(e), JsonCell::Unsupported) => {
            assert_eq!(f32::from_bits(*c), 1.5);
            assert_eq!(f64::from_bits(*d), 2.5);
            assert_eq!(e, "y");
        }
        other => panic!("unexpected cells {other:?}"),
    }
    assert!(matches!(array_value_to_json(batch.column(1), 0), JsonCell::Int(-10)));
}

#[test]
fn test_database_tables_and_queries() {
    let mut db = Database::new(None);
    assert_eq!(db.config().backend_name(), "auto");
    let records = vec![
        record(vec![("id", whole(1)), ("name", text("a"))]),
        record(vec![("id", whole(2)), ("name", text("b"))]),
        record(vec![("id", whole(3)), ("name", text("c"))]),
    ];
    db.load_json("t", &records).unwrap();
    let none = vec![];
    match db.query("SELECT id FROM t WHERE id >= 2 ORDER BY id DESC", &none).unwrap() {
        Step::Done(batch) => match &batch.column(0).data {
            ColumnData::Int32(v) => assert_eq!(v, &vec![3, 2]),
            _ => panic!("expected integers"),
        },
        Step::Pending(_) => panic!("no floating-point work is involved"),
    }
    assert_eq!(db.query("SELECT * FROM missing", &none).unwrap_err().kind(), ErrorKind::InvalidInput);
    assert!(db.query("SELECT * FROM missing", &none).unwrap_err().message().contains("Table not found: missing"));
    assert_eq!(db.query("SELECT * FROM t JOIN u ON 1 = 1", &none).unwrap_err().kind(), ErrorKind::ParseError);
    assert_eq!(db.explain("SELECT SUM(id) FROM t").unwrap().aggregations.len(), 1);
    assert!(db.explain("DELETE FROM t").is_err());
    // Loading under the same name replaces the table.
    db.load_json("t", &vec![record(vec![("id", whole(9))])]).unwrap();
    match db.query("SELECT SUM(id) FROM t", &none).unwrap() {
        Step::Done(batch) => match &batch.column(0).data {
            ColumnData::Int64(v) => assert_eq!(v, &vec![9]),
            _ => panic!("expected a 64-bit sum"),
        },
        Step::Pending(_) => panic!("no floating-point work is involved"),
    }
    assert!(db.load_json("u", &vec![]).is_err());
    assert!(db.query("SELECT * FROM u", &none).is_err());
    let store = StorageEngine::new(vec![ColumnBatch::try_new(
        Schema::new(vec![Field::new("v", DataType::Int64, false)]),
        vec![Column::new(ColumnData::Int64(vec![5, 6]))],
    )
    .unwrap()]);
    let mut configured = Database::new(Some(DatabaseConfig::new().backend("webgpu")));
    assert_eq!(configured.config().backend_name(), "webgpu");
    configured.add_table("v", store);
    assert!(matches!(configured.query("SELECT MAX(v) FROM v", &none).unwrap(), Step::Done(_)));
}
