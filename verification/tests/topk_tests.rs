use trueno_db::batch::ColumnBatch;
use trueno_db::column::{Column, ColumnData};
use trueno_db::error::ErrorKind;
use trueno_db::heap::{Entry, EntryHeap};
use trueno_db::schema::{DataType, Field, Schema};
use trueno_db::text::{chars_of, contains_text};
use trueno_db::topk::{
    rank_at, select_top_k_indices, text_less, text_ranks, SortOrder, TopKSelection,
};

fn create_test_batch(values: Vec<f64>) -> ColumnBatch {
    let schema = Schema::new(vec![
        Field::new("id", DataType::Int32, false),
        Field::new("score", DataType::Float64, false),
    ]);
    let ids: Vec<i32> = (0..values.len() as i32).collect();
    ColumnBatch::try_new(
        schema,
        vec![
            Column::new(ColumnData::Int32(ids)),
            Column::new(ColumnData::Float64(values.iter().map(|v| v.to_bits()).collect())),
        ],
    )
    .unwrap()
}

fn single(data: ColumnData, data_type: DataType) -> ColumnBatch {
    ColumnBatch::try_new(
        Schema::new(vec![Field::new("value", data_type, false)]),
        vec![Column::new(data)],
    )
    .unwrap()
}

fn scores(batch: &ColumnBatch, column: usize) -> Vec<f64> {
    match &batch.column(column).data {
        ColumnData::Float64(bits) => bits.iter().map(|b| f64::from_bits(*b)).collect(),
        _ => panic!("expected a Float64 column"),
    }
}

fn floats32(batch: &ColumnBatch, column: usize) -> Vec<f32> {
    match &batch.column(column).data {
        ColumnData::Float32(bits) => bits.iter().map(|b| f32::from_bits(*b)).collect(),
        _ => panic!("expected a Float32 column"),
    }
}

fn ints32(batch: &ColumnBatch, column: usize) -> Vec<i32> {
    match &batch.column(column).data {
        ColumnData::Int32(v) => v.clone(),
        _ => panic!("expected an Int32 column"),
    }
}

fn ints64(batch: &ColumnBatch, column: usize) -> Vec<i64> {
    match &batch.column(column).data {
        ColumnData::Int64(v) => v.clone(),
        _ => panic!("expected an Int64 column"),
    }
}

#[test]
fn test_top_k_descending_basic() {
    let batch = create_test_batch(vec![1.0, 5.0, 3.0, 9.0, 2.0]);
    let result = batch.top_k(1, 3, SortOrder::Descending).unwrap();
    assert_eq!(result.num_rows(), 3);
    let s = scores(&result, 1);
    assert_eq!(s[0], 9.0);
    assert_eq!(s[1], 5.0);
    assert_eq!(s[2], 3.0);
}

#[test]
fn test_top_k_ascending_basic() {
    let batch = create_test_batch(vec![1.0, 5.0, 3.0, 9.0, 2.0]);
    let result = batch.top_k(1, 3, SortOrder::Ascending).unwrap();
    assert_eq!(result.num_rows(), 3);
    let s = scores(&result, 1);
    assert_eq!(s[0], 1.0);
    assert_eq!(s[1], 2.0);
    assert_eq!(s[2], 3.0);
}

#[test]
fn test_top_k_k_equals_length() {
    let batch = create_test_batch(vec![3.0, 1.0, 2.0]);
    let result = batch.top_k(1, 3, SortOrder::Descending).unwrap();
    assert_eq!(result.num_rows(), 3);
    assert_eq!(scores(&result, 1), vec![3.0, 2.0, 1.0]);
}

#[test]
fn test_top_k_k_greater_than_length() {
    let batch = create_test_batch(vec![3.0, 1.0, 2.0]);
    let result = batch.top_k(1, 10, SortOrder::Descending).unwrap();
    assert_eq!(result.num_rows(), 3);
    assert_eq!(scores(&result, 1), vec![3.0, 2.0, 1.0]);
}

#[test]
fn test_top_k_k_zero_fails() {
    let batch = create_test_batch(vec![1.0, 2.0, 3.0]);
    let result = batch.top_k(1, 0, SortOrder::Descending);
    assert!(result.is_err());
    let error = result.unwrap_err();
    assert_eq!(error.kind(), ErrorKind::InvalidInput);
    assert!(error.message().contains("must be greater than 0"));
}

#[test]
fn test_top_k_invalid_column_index() {
    let batch = create_test_batch(vec![1.0, 2.0, 3.0]);
    let result = batch.top_k(99, 2, SortOrder::Descending);
    assert!(result.is_err());
    let error = result.unwrap_err();
    assert_eq!(error.kind(), ErrorKind::InvalidInput);
    assert!(error.message().contains("out of bounds"));
    assert_eq!(
        error.message(),
        "Invalid input: Column index 99 out of bounds (batch has 2 columns)"
    );
}

#[test]
fn test_top_k_preserves_row_integrity() {
    let batch = create_test_batch(vec![1.0, 5.0, 3.0]);
    let result = batch.top_k(1, 2, SortOrder::Descending).unwrap();
    let ids = ints32(&result, 0);
    let s = scores(&result, 1);
    assert_eq!(s[0], 5.0);
    assert_eq!(ids[0], 1);
    assert_eq!(s[1], 3.0);
    assert_eq!(ids[1], 2);
    assert_eq!(result.schema().fields[0].name, "id");
    assert_eq!(result.schema().fields[1].name, "score");
}

#[test]
fn test_top_k_large_dataset() {
    let values: Vec<f64> = (0..1_000_000).map(|i| f64::from(i)).collect();
    let batch = create_test_batch(values);
    let start = std::time::Instant::now();
    let result = batch.top_k(1, 10, SortOrder::Descending).unwrap();
    let duration = start.elapsed();
    assert_eq!(result.num_rows(), 10);
    let s = scores(&result, 1);
    for i in 0..10 {
        assert_eq!(s[i], 999_999.0 - i as f64);
    }
    assert!(
        duration.as_millis() < 500,
        "Top-K took {}ms (expected <500ms)",
        duration.as_millis()
    );
}

fn pseudo_random(seed: u64, n: usize, modulus: u64) -> Vec<f64> {
    let mut state = seed;
    (0..n)
        .map(|_| {
            state = state.wrapping_mul(6364136223846793005).wrapping_add(1442695040888963407);
            ((state >> 33) % modulus) as f64 / 7.0
        })
        .collect()
}

#[test]
fn prop_top_k_returns_k_rows() {
    for (seed, n, k) in [(1u64, 10usize, 1usize), (2, 10, 99), (3, 555, 42), (4, 999, 99), (5, 64, 64)] {
        let values = pseudo_random(seed, n, 7000);
        let batch = create_test_batch(values.clone());
        let result = batch.top_k(1, k, SortOrder::Descending).unwrap();
        assert_eq!(result.num_rows(), k.min(values.len()));
    }
}

#[test]
fn prop_top_k_descending_is_sorted() {
    for (seed, n, k) in [(11u64, 10usize, 5usize), (12, 300, 99), (13, 999, 1), (14, 50, 70)] {
        let batch = create_test_batch(pseudo_random(seed, n, 50));
        let result = batch.top_k(1, k, SortOrder::Descending).unwrap();
        let s = scores(&result, 1);
        for i in 0..s.len().saturating_sub(1) {
            assert!(s[i] >= s[i + 1], "Not in descending order: {} < {}", s[i], s[i + 1]);
        }
    }
}

#[test]
fn prop_top_k_ascending_is_sorted() {
    for (seed, n, k) in [(21u64, 10usize, 5usize), (22, 300, 99), (23, 999, 1), (24, 50, 70)] {
        let batch = create_test_batch(pseudo_random(seed, n, 50));
        let result = batch.top_k(1, k, SortOrder::Ascending).unwrap();
        let s = scores(&result, 1);
        for i in 0..s.len().saturating_sub(1) {
            assert!(s[i] <= s[i + 1], "Not in ascending order: {} > {}", s[i], s[i + 1]);
        }
    }
}

#[test]
fn test_top_k_int32() {
    let batch = single(ColumnData::Int32(vec![5, 2, 8, 1, 9, 3]), DataType::Int32);
    let result = batch.top_k(0, 3, SortOrder::Descending).unwrap();
    assert_eq!(result.num_rows(), 3);
    assert_eq!(ints32(&result, 0), vec![9, 8, 5]);
}

#[test]
fn test_top_k_int32_ascending() {
    let batch = single(ColumnData::Int32(vec![5, 2, 8, 1, 9, 3]), DataType::Int32);
    let result = batch.top_k(0, 3, SortOrder::Ascending).unwrap();
    assert_eq!(result.num_rows(), 3);
    assert_eq!(ints32(&result, 0), vec![1, 2, 3]);
}

#[test]
fn test_top_k_int64() {
    let batch = single(ColumnData::Int64(vec![100i64, 200, 50, 300, 150]), DataType::Int64);
    let result = batch.top_k(0, 2, SortOrder::Ascending).unwrap();
    assert_eq!(result.num_rows(), 2);
    assert_eq!(ints64(&result, 0), vec![50, 100]);
}

#[test]
fn test_top_k_int64_descending() {
    let batch = single(ColumnData::Int64(vec![100i64, 200, 50, 300, 150]), DataType::Int64);
    let result = batch.top_k(0, 2, SortOrder::Descending).unwrap();
    assert_eq!(result.num_rows(), 2);
    assert_eq!(ints64(&result, 0), vec![300, 200]);
}

fn f32_batch(values: Vec<f32>) -> ColumnBatch {
    single(ColumnData::Float32(values.iter().map(|v| v.to_bits()).collect()), DataType::Float32)
}

#[test]
fn test_top_k_float32() {
    let batch = f32_batch(vec![1.5f32, 2.7, 0.3, 4.2, 3.1]);
    let result = batch.top_k(0, 3, SortOrder::Descending).unwrap();
    assert_eq!(result.num_rows(), 3);
    let col = floats32(&result, 0);
    assert!((col[0] - 4.2).abs() < 0.001);
    assert!((col[1] - 3.1).abs() < 0.001);
    assert!((col[2] - 2.7).abs() < 0.001);
}

#[test]
fn test_top_k_float32_ascending() {
    let batch = f32_batch(vec![1.5f32, 2.7, 0.3, 4.2, 3.1]);
    let result = batch.top_k(0, 3, SortOrder::Ascending).unwrap();
    assert_eq!(result.num_rows(), 3);
    let col = floats32(&result, 0);
    assert!((col[0] - 0.3).abs() < 0.001);
    assert!((col[1] - 1.5).abs() < 0.001);
    assert!((col[2] - 2.7).abs() < 0.001);
}

#[test]
fn test_top_k_unsupported_type() {
    let batch = single(
        ColumnData::Utf8(vec!["a".to_string(), "b".to_string(), "c".to_string()]),
        DataType::Utf8,
    );
    let result = batch.top_k(0, 2, SortOrder::Descending);
    assert!(result.is_err());
    let error = result.unwrap_err();
    assert_eq!(error.kind(), ErrorKind::InvalidInput);
    assert!(error.message().contains("Top-K not supported for data type"));
    let flags = single(ColumnData::Boolean(vec![true, false]), DataType::Boolean);
    assert!(flags.top_k(0, 1, SortOrder::Ascending).is_err());
}

#[test]
fn test_top_k_negative_floats_and_zeros() {
    let batch = create_test_batch(vec![-1.5, 0.0, 2.0, -0.0, -7.25, f64::INFINITY, f64::NEG_INFINITY]);
    let result = batch.top_k(1, 7, SortOrder::Ascending).unwrap();
    let s = scores(&result, 1);
    assert_eq!(s[0], f64::NEG_INFINITY);
    assert_eq!(s[1], -7.25);
    assert_eq!(s[2], -1.5);
    assert_eq!(s[3], 0.0);
    assert_eq!(s[4], 0.0);
    assert_eq!(s[5], 2.0);
    assert_eq!(s[6], f64::INFINITY);
    let down = batch.top_k(1, 2, SortOrder::Descending).unwrap();
    assert_eq!(scores(&down, 1), vec![f64::INFINITY, 2.0]);
}

#[test]
fn test_top_k_nan_is_placed_at_an_end_every_time() {
    let batch = create_test_batch(vec![1.0, f64::NAN, 3.0, 2.0]);
    let first = batch.top_k(1, 4, SortOrder::Ascending).unwrap();
    let again = batch.top_k(1, 4, SortOrder::Ascending).unwrap();
    assert_eq!(ints32(&first, 0), ints32(&again, 0));
    let s = scores(&first, 1);
    assert_eq!(&s[0..3], &[1.0, 2.0, 3.0]);
    assert!(s[3].is_nan());
}

#[test]
fn test_top_k_ties_keep_batch_order() {
    let batch = ColumnBatch::try_new(
        Schema::new(vec![
            Field::new("id", DataType::Int32, false),
            Field::new("v", DataType::Int64, false),
        ]),
        vec![
            Column::new(ColumnData::Int32(vec![0, 1, 2, 3, 4, 5])),
            Column::new(ColumnData::Int64(vec![7, 3, 7, 3, 7, 1])),
        ],
    )
    .unwrap();
    let down = batch.top_k(1, 2, SortOrder::Descending).unwrap();
    assert_eq!(ints32(&down, 0), vec![0, 2]);
    let up = batch.top_k(1, 3, SortOrder::Ascending).unwrap();
    assert_eq!(ints32(&up, 0), vec![5, 1, 3]);
    let all = batch.top_k(1, 6, SortOrder::Descending).unwrap();
    assert_eq!(ints32(&all, 0), vec![0, 2, 4, 1, 3, 5]);
}

#[test]
fn test_top_k_nulls_come_last() {
    let batch = ColumnBatch::try_new(
        Schema::new(vec![Field::new("v", DataType::Int32, true)]),
        vec![Column::with_validity(
            ColumnData::Int32(vec![5, 100, 1, -100, 3]),
            vec![true, false, true, false, true],
        )
        .unwrap()],
    )
    .unwrap();
    let down = batch.top_k(0, 5, SortOrder::Descending).unwrap();
    assert_eq!(down.column(0).validity, vec![true, true, true, false, false]);
    assert_eq!(&ints32(&down, 0)[0..3], &[5, 3, 1]);
    let up = batch.top_k(0, 4, SortOrder::Ascending).unwrap();
    assert_eq!(up.column(0).validity, vec![true, true, true, false]);
    assert_eq!(&ints32(&up, 0)[0..3], &[1, 3, 5]);
}

#[test]
fn test_top_k_idempotence() {
    let values = pseudo_random(99, 200, 40);
    let batch = create_test_batch(values);
    for order in [SortOrder::Ascending, SortOrder::Descending] {
        let first = batch.top_k(1, 50, order).unwrap();
        for k2 in [1usize, 7, 50] {
            let again = first.top_k(1, k2, order).unwrap();
            assert_eq!(again.num_rows(), k2);
            assert_eq!(ints32(&again, 0), ints32(&first, 0)[0..k2].to_vec());
            assert_eq!(scores(&again, 1), scores(&first, 1)[0..k2].to_vec());
        }
    }
}

#[test]
fn test_top_k_selects_what_a_full_sort_selects() {
    let values = pseudo_random(7, 300, 1000);
    let batch = create_test_batch(values.clone());
    let mut sorted = values.clone();
    sorted.sort_by(|a, b| b.partial_cmp(a).unwrap());
    for k in [1usize, 2, 10, 299, 300] {
        let result = batch.top_k(1, k, SortOrder::Descending).unwrap();
        assert_eq!(scores(&result, 1), sorted[0..k].to_vec());
        // Every value left out is no greater than every value selected.
        let least = *scores(&result, 1).last().unwrap();
        let picked = ints32(&result, 0);
        for (i, v) in values.iter().enumerate() {
            if !picked.contains(&(i as i32)) {
                assert!(*v <= least);
            }
        }
    }
}

#[test]
fn test_select_top_k_indices_and_ranks() {
    let column = Column::new(ColumnData::Int32(vec![5, 2, 8, 1, 9, 3]));
    assert_eq!(select_top_k_indices(&column, 3, SortOrder::Descending).unwrap(), vec![4, 2, 0]);
    assert_eq!(select_top_k_indices(&column, 2, SortOrder::Ascending).unwrap(), vec![3, 1]);
    assert!(select_top_k_indices(&column, 0, SortOrder::Ascending).is_err());
    assert_eq!(rank_at(&column, 2, SortOrder::Ascending), 8);
    assert_eq!(rank_at(&column, 2, SortOrder::Descending), -8);
    let floats = Column::with_validity(
        ColumnData::Float64(vec![1.0f64.to_bits(), (-1.0f64).to_bits(), 0]),
        vec![true, true, false],
    )
    .unwrap();
    assert_eq!(rank_at(&floats, 0, SortOrder::Ascending), 0x3FF0_0000_0000_0000);
    assert_eq!(rank_at(&floats, 1, SortOrder::Ascending), -0x3FF0_0000_0000_0000 - 1);
    assert_eq!(rank_at(&floats, 2, SortOrder::Ascending), 1 << 64);
    assert_eq!(rank_at(&floats, 2, SortOrder::Descending), 1 << 64);
    let edge = Column::new(ColumnData::Int64(vec![i64::MIN, i64::MAX]));
    assert_eq!(rank_at(&edge, 0, SortOrder::Descending), 1 << 63);
    assert_eq!(select_top_k_indices(&edge, 1, SortOrder::Descending).unwrap(), vec![1]);
}

#[test]
fn test_entry_heap_gives_up_the_last_first() {
    // The heap keeps the entry to give up first at the root: the one that
    // comes last, by rank and then by index.
    let mut heap = EntryHeap::with_capacity(4);
    heap.push(Entry { rank: 10, index: 0 });
    heap.push(Entry { rank: 30, index: 2 });
    heap.push(Entry { rank: 20, index: 1 });
    assert_eq!(heap.len(), 3);
    assert_eq!(heap.peek(), Entry { rank: 30, index: 2 });
    assert_eq!(heap.pop(), Entry { rank: 30, index: 2 });
    assert_eq!(heap.pop(), Entry { rank: 20, index: 1 });
    assert_eq!(heap.pop(), Entry { rank: 10, index: 0 });
    assert_eq!(heap.len(), 0);
}

#[test]
fn test_entry_heap_breaks_ties_by_index() {
    let mut heap = EntryHeap::with_capacity(2);
    heap.push(Entry { rank: 5, index: 1 });
    heap.push(Entry { rank: 5, index: 0 });
    // At equal rank the higher index comes last.
    assert_eq!(heap.peek(), Entry { rank: 5, index: 1 });
    assert_eq!(heap.replace_top(Entry { rank: 4, index: 9 }), Entry { rank: 5, index: 1 });
    assert_eq!(heap.pop(), Entry { rank: 5, index: 0 });
    assert_eq!(heap.pop(), Entry { rank: 4, index: 9 });
}

#[test]
fn test_heap_drains_in_order() {
    let mut heap = EntryHeap::with_capacity(0);
    let ranks = [9i128, -3, 7, 7, 0, 12, -3, 5, 1, 1, 8];
    for (i, r) in ranks.iter().enumerate() {
        heap.push(Entry { rank: *r, index: i });
    }
    let mut out = Vec::new();
    while heap.len() > 0 {
        out.push(heap.pop());
    }
    let mut expected: Vec<Entry> =
        ranks.iter().enumerate().map(|(i, r)| Entry { rank: *r, index: i }).collect();
    expected.sort_by(|a, b| (b.rank, b.index).cmp(&(a.rank, a.index)));
    assert_eq!(out, expected);
}

fn texts(batch: &ColumnBatch, column: usize) -> Vec<Option<String>> {
    match &batch.column(column).data {
        ColumnData::Utf8(v) => v
            .iter()
            .enumerate()
            .map(|(i, s)| if batch.column(column).validity[i] { Some(s.clone()) } else { None })
            .collect(),
        _ => panic!("expected a Utf8 column"),
    }
}

#[test]
fn test_top_k_orders_a_text_column_as_a_whole() {
    let words = ["pear", "apple", "", "fig", "apple", "Zebra", "\u{e9}clair", "figs"];
    let batch = ColumnBatch::try_new(
        Schema::new(vec![
            Field::new("word", DataType::Utf8, true),
            Field::new("id", DataType::Int32, false),
        ]),
        vec![
            Column::with_validity(
                ColumnData::Utf8(words.iter().map(|w| w.to_string()).collect()),
                vec![true, true, true, false, true, true, true, true],
            )
            .unwrap(),
            Column::new(ColumnData::Int32((0..8).collect())),
        ],
    )
    .unwrap();
    let some = |w: &str| Some(w.to_string());
    let up = batch.top_k(0, 8, SortOrder::Ascending).unwrap();
    assert_eq!(
        texts(&up, 0),
        vec![some(""), some("Zebra"), some("apple"), some("apple"), some("figs"), some("pear"), some("\u{e9}clair"), None]
    );
    // Rows stay whole, and equal texts keep their order.
    match &up.column(1).data {
        ColumnData::Int32(ids) => assert_eq!(ids, &vec![2, 5, 1, 4, 7, 0, 6, 3]),
        _ => panic!("expected the ids"),
    }
    let down = batch.top_k(0, 100, SortOrder::Descending).unwrap();
    assert_eq!(
        texts(&down, 0),
        vec![some("\u{e9}clair"), some("pear"), some("figs"), some("apple"), some("apple"), some("Zebra"), some(""), None]
    );
    // Fewer rows than the batch holds are not offered for text.
    let error = batch.top_k(0, 7, SortOrder::Ascending).unwrap_err();
    assert_eq!(error.kind(), ErrorKind::InvalidInput);
    assert!(error.message().contains("Top-K not supported for data type"));
}

#[test]
fn test_top_k_failures_say_why() {
    let batch = single(ColumnData::Int32(vec![3, 1, 2]), DataType::Int32);
    let error = batch.top_k(0, 0, SortOrder::Ascending).unwrap_err();
    assert!(error.message().contains("k must be greater than 0"));
    let error = batch.top_k(7, 2, SortOrder::Ascending).unwrap_err();
    assert!(error.message().contains("Column index 7 out of bounds (batch has 1 columns)"));
    // A zero `k` is reported before a column that does not exist.
    let error = batch.top_k(7, 0, SortOrder::Ascending).unwrap_err();
    assert!(error.message().contains("k must be greater than 0"));
}

#[test]
fn test_heap_with_an_entry_held_twice() {
    let mut heap = EntryHeap::with_capacity(4);
    let e = Entry { rank: 7, index: 3 };
    heap.push(e);
    heap.push(Entry { rank: 1, index: 0 });
    heap.push(e);
    assert_eq!(heap.len(), 3);
    assert_eq!(heap.pop(), e);
    assert_eq!(heap.pop(), e);
    assert_eq!(heap.replace_top(e), Entry { rank: 1, index: 0 });
    assert_eq!(heap.pop(), e);
    assert_eq!(heap.len(), 0);
}

#[test]
fn test_text_order_and_ranks() {
    let less = |a: &str, b: &str| text_less(&chars_of(a), &chars_of(b));
    assert!(less("", "a"));
    assert!(!less("", ""));
    assert!(!less("a", ""));
    assert!(less("a", "b"));
    assert!(less("ab", "b"));
    assert!(less("a", "ab"));
    assert!(!less("ab", "ab"));
    assert!(less("Z", "a"));
    assert!(less("z", "\u{e9}"));
    for (a, b) in [("fig", "figs"), ("pear", "peach"), ("", "x"), ("b", "a"), ("same", "same")] {
        assert_eq!(less(a, b), a < b, "{a} < {b}");
        assert_eq!(less(b, a), b < a, "{b} < {a}");
    }
    assert_eq!(chars_of("a\u{e9}z"), vec!['a', '\u{e9}', 'z']);
    let column = Column::with_validity(
        ColumnData::Utf8(["b", "a", "c", "b", "zz"].iter().map(|w| w.to_string()).collect()),
        vec![true, true, true, true, false],
    )
    .unwrap();
    let null_rank = 1i128 << 64;
    assert_eq!(text_ranks(&column, SortOrder::Ascending), vec![1, 0, 3, 1, null_rank]);
    assert_eq!(text_ranks(&column, SortOrder::Descending), vec![1, 3, 0, 1, null_rank]);
}

#[test]
fn test_top_k_orders_a_boolean_column_as_a_whole() {
    let batch = ColumnBatch::try_new(
        Schema::new(vec![Field::new("flag", DataType::Boolean, true)]),
        vec![Column::with_validity(
            ColumnData::Boolean(vec![true, false, true, false, true]),
            vec![true, true, false, true, true],
        )
        .unwrap()],
    )
    .unwrap();
    let flags = |b: &ColumnBatch| match &b.column(0).data {
        ColumnData::Boolean(v) => {
            v.iter().zip(&b.column(0).validity).map(|(f, ok)| ok.then_some(*f)).collect::<Vec<_>>()
        }
        _ => panic!("expected a Boolean column"),
    };
    let up = batch.top_k(0, 5, SortOrder::Ascending).unwrap();
    assert_eq!(flags(&up), vec![Some(false), Some(false), Some(true), Some(true), None]);
    let down = batch.top_k(0, 9, SortOrder::Descending).unwrap();
    assert_eq!(flags(&down), vec![Some(true), Some(true), Some(false), Some(false), None]);
    assert!(batch.top_k(0, 4, SortOrder::Ascending).is_err());
}

#[test]
fn test_contains_text() {
    let holds = |text: &str, needle: &str| contains_text(&chars_of(text), &chars_of(needle));
    assert!(holds("a (SELECT 1)", "(SELECT"));
    assert!(holds("(SELECT", "(SELECT"));
    assert!(!holds("(SELEC", "(SELECT"));
    assert!(!holds("( SELECT 1)", "(SELECT"));
    assert!(holds("abc", ""));
    assert!(holds("", ""));
    assert!(!holds("", "a"));
    assert!(holds("xxab", "ab"));
    assert!(!holds("xxab", "ba"));
}
