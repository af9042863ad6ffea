use std::sync::Arc;

use arrow::array::{Array, ArrayRef, Int32Array, RecordBatch, RecordBatchOptions, StructArray};
use arrow::datatypes::{DataType, Field, Fields, Schema};
use memory_source::batch::Batch;
use memory_source::error::SourceError;
use memory_source::fixtures::{build_table_i32, build_table_i32_two_cols, make_partition};
use memory_source::stream::MockMemoryStream;

fn copy(batch: &Batch) -> Batch {
    Batch { inner: batch.inner.clone() }
}

fn int_schema(names: &[&str]) -> Arc<Schema> {
    Arc::new(Schema::new(
        names.iter().map(|n| Field::new(*n, DataType::Int32, false)).collect::<Vec<_>>(),
    ))
}

fn column_values(batch: &Batch, column: usize) -> Vec<i32> {
    let array = batch.inner.column(column);
    let ints = array.as_any().downcast_ref::<Int32Array>().unwrap();
    ints.values().to_vec()
}

fn column_names(batch: &Batch) -> Vec<String> {
    batch.inner.schema().fields().iter().map(|f| f.name().clone()).collect()
}

fn drain(stream: &mut MockMemoryStream) -> Vec<Batch> {
    let mut out = Vec::new();
    while let Some(item) = stream.next() {
        out.push(item.unwrap());
    }
    out
}

#[test]
fn without_budget_every_batch_goes_out_unchanged() {
    let data = vec![make_partition(3), make_partition(0), make_partition(5)];
    let schema = data[0].inner.schema();
    let mut stream = MockMemoryStream::try_new(data, schema, None).unwrap();
    let out = drain(&mut stream);
    assert_eq!(out.len(), 3);
    assert_eq!(column_values(&out[0], 0), vec![0, 1, 2]);
    assert_eq!(column_values(&out[1], 0), Vec::<i32>::new());
    assert_eq!(column_values(&out[2], 0), vec![0, 1, 2, 3, 4]);
}

#[test]
fn budget_of_fifty_over_three_batches_of_forty() {
    let data = vec![make_partition(40), make_partition(40), make_partition(40)];
    let schema = data[0].inner.schema();
    let mut stream = MockMemoryStream::try_new(data, schema, None).unwrap().with_fetch(Some(50));
    let first = stream.next().unwrap().unwrap();
    assert_eq!(first.inner.num_rows(), 40);
    assert_eq!(column_values(&first, 0), (0..40).collect::<Vec<i32>>());
    let second = stream.next().unwrap().unwrap();
    assert_eq!(second.inner.num_rows(), 10);
    assert_eq!(column_values(&second, 0), (0..10).collect::<Vec<i32>>());
    assert!(stream.next().is_none());
    assert!(stream.next().is_none());
}

#[test]
fn budget_of_zero_gives_nothing() {
    let data = vec![make_partition(7)];
    let schema = data[0].inner.schema();
    let mut stream = MockMemoryStream::try_new(data, schema, None).unwrap().with_fetch(Some(0));
    assert!(stream.next().is_none());
    assert!(stream.next().is_none());
}

#[test]
fn budget_equal_to_the_rows_is_not_a_cut() {
    let data = vec![make_partition(4), make_partition(4)];
    let schema = data[0].inner.schema();
    let mut stream = MockMemoryStream::try_new(data, schema, None).unwrap().with_fetch(Some(4));
    let first = stream.next().unwrap().unwrap();
    assert_eq!(column_values(&first, 0), vec![0, 1, 2, 3]);
    assert!(stream.next().is_none());
}

#[test]
fn budget_above_the_rows_gives_all_of_them() {
    let data = vec![make_partition(4), make_partition(3)];
    let schema = data[0].inner.schema();
    let mut stream =
        MockMemoryStream::try_new(data, schema, None).unwrap().with_fetch(Some(1000));
    let out = drain(&mut stream);
    let rows: usize = out.iter().map(|b| b.inner.num_rows()).sum();
    assert_eq!(rows, 7);
}

#[test]
fn the_end_is_stable() {
    let data = vec![make_partition(2)];
    let schema = data[0].inner.schema();
    let mut stream = MockMemoryStream::try_new(data, schema, None).unwrap();
    assert!(stream.next().is_some());
    for _ in 0..5 {
        assert!(stream.next().is_none());
    }
}

#[test]
fn projection_picks_columns_in_its_own_order() {
    let a = vec![1, 2, 3];
    let b = vec![10, 20, 30];
    let c = vec![100, 200, 300];
    let batch = build_table_i32(("a", &a), ("b", &b), ("c", &c));
    let schema = int_schema(&["c", "a"]);
    let mut stream = MockMemoryStream::try_new(vec![batch], schema, Some(vec![2, 0])).unwrap();
    let out = stream.next().unwrap().unwrap();
    assert_eq!(column_names(&out), vec!["c".to_string(), "a".to_string()]);
    assert_eq!(column_values(&out, 0), c);
    assert_eq!(column_values(&out, 1), a);
    assert_eq!(out.inner.schema(), stream.schema());
    assert!(stream.next().is_none());
}

#[test]
fn projection_and_budget_together() {
    let a = vec![1, 2, 3, 4];
    let b = vec![10, 20, 30, 40];
    let batch = build_table_i32_two_cols(("a", &a), ("b", &b));
    let schema = int_schema(&["b"]);
    let mut stream = MockMemoryStream::try_new(vec![copy(&batch), batch], schema, Some(vec![1]))
        .unwrap()
        .with_fetch(Some(6));
    let first = stream.next().unwrap().unwrap();
    assert_eq!(column_values(&first, 0), vec![10, 20, 30, 40]);
    let second = stream.next().unwrap().unwrap();
    assert_eq!(column_values(&second, 0), vec![10, 20]);
    assert_eq!(second.inner.num_columns(), 1);
    assert!(stream.next().is_none());
}

#[test]
fn projection_out_of_range_fails_with_the_first_bad_index() {
    let a = vec![1];
    let b = vec![2];
    let batch = build_table_i32_two_cols(("a", &a), ("b", &b));
    let schema = batch.inner.schema();
    let mut stream =
        MockMemoryStream::try_new(vec![copy(&batch), batch], schema, Some(vec![1, 7, 9]))
            .unwrap();
    let failed = stream.next().unwrap();
    assert_eq!(failed.err(), Some(SourceError::Index { index: 7, len: 2 }));
    let again = stream.next().unwrap();
    assert_eq!(again.err(), Some(SourceError::Index { index: 7, len: 2 }));
    assert!(stream.next().is_none());
}

#[test]
fn projection_fails_before_the_budget_is_looked_at() {
    let a = vec![1];
    let b = vec![2];
    let batch = build_table_i32_two_cols(("a", &a), ("b", &b));
    let schema = batch.inner.schema();
    let mut stream = MockMemoryStream::try_new(vec![batch], schema, Some(vec![2]))
        .unwrap()
        .with_fetch(Some(0));
    assert_eq!(stream.next().unwrap().err(), Some(SourceError::Index { index: 2, len: 2 }));
    assert!(stream.next().is_none());
}

#[test]
fn size_hint_counts_batches_behind_the_cursor() {
    let data = vec![make_partition(1), make_partition(1), make_partition(1)];
    let schema = data[0].inner.schema();
    let mut stream = MockMemoryStream::try_new(data, schema, None).unwrap();
    assert_eq!(stream.size_hint(), (3, Some(3)));
    stream.next();
    assert_eq!(stream.size_hint(), (2, Some(2)));
    stream.next();
    stream.next();
    assert_eq!(stream.size_hint(), (0, Some(0)));
    stream.next();
    assert_eq!(stream.size_hint(), (0, Some(0)));
}

#[test]
fn empty_partition_ends_at_once() {
    let schema = int_schema(&["i"]);
    let mut stream = MockMemoryStream::try_new(Vec::new(), schema, None).unwrap();
    assert!(stream.next().is_none());
    assert_eq!(stream.size_hint(), (0, Some(0)));
}

#[test]
fn nonconforming_batch_fails_projection_as_such() {
    let inner_named_x = Fields::from(vec![Field::new("x", DataType::Int32, true)]);
    let inner_named_y = Fields::from(vec![Field::new("y", DataType::Int32, true)]);
    let values: ArrayRef = Arc::new(Int32Array::from(vec![1, 2]));
    let column: ArrayRef = Arc::new(StructArray::new(inner_named_x, vec![values], None));
    let schema = Arc::new(Schema::new(vec![Field::new(
        "s",
        DataType::Struct(inner_named_y),
        true,
    )]));
    let options = RecordBatchOptions::new().with_match_field_names(false);
    let loose = RecordBatch::try_new_with_options(schema.clone(), vec![column], &options).unwrap();
    let mut stream =
        MockMemoryStream::try_new(vec![Batch { inner: loose }], schema, Some(vec![0])).unwrap();
    assert_eq!(stream.next().unwrap().err(), Some(SourceError::Batch));
}
