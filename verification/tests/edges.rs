use std::sync::Arc;

use arrow::array::{ArrayRef, Int32Array, RecordBatch, StringArray};
use arrow::datatypes::{DataType, Field, Schema};
use datafusion_execution::TaskContext;
use memory_source::batch::Batch;
use memory_source::error::SourceError;
use memory_source::fixtures::{build_table_i32, make_partition};
use memory_source::sort::{Column, SortExpr, SortOptions, SortOrdering};
use memory_source::source::{DisplayFormatType, MockMemorySourceConfig};
use memory_source::statistics::Precision;
use memory_source::stream::MockMemoryStream;

fn mixed() -> Batch {
    let schema = Arc::new(Schema::new(vec![
        Field::new("n", DataType::Int32, true),
        Field::new("s", DataType::Utf8, true),
    ]));
    let n: ArrayRef = Arc::new(Int32Array::from(vec![Some(1), None, Some(3), None, Some(5)]));
    let s: ArrayRef =
        Arc::new(StringArray::from(vec![Some("a"), Some("b"), None, Some("d"), Some("e")]));
    Batch { inner: RecordBatch::try_new(schema, vec![n, s]).unwrap() }
}

fn copy(batch: &Batch) -> Batch {
    Batch { inner: batch.inner.clone() }
}

#[test]
fn a_cut_batch_is_the_head_of_the_batch_it_came_from() {
    let batch = mixed();
    let schema = batch.inner.schema();
    for budget in 1..5 {
        let mut stream = MockMemoryStream::try_new(vec![copy(&batch)], schema.clone(), None)
            .unwrap()
            .with_fetch(Some(budget));
        let out = stream.next().unwrap().unwrap();
        assert_eq!(out.inner, batch.inner.slice(0, budget));
        assert_eq!(out.inner.num_rows(), budget);
        assert!(stream.next().is_none());
    }
}

#[test]
fn the_rows_handed_out_are_the_budget_or_all_rows() {
    let sizes = [3, 0, 4, 5];
    let total: usize = 12;
    for budget in 0..16 {
        let data: Vec<Batch> = sizes.iter().map(|n| make_partition(*n)).collect();
        let schema = data[0].inner.schema();
        let mut stream =
            MockMemoryStream::try_new(data, schema, None).unwrap().with_fetch(Some(budget));
        let mut rows = Vec::new();
        while let Some(item) = stream.next() {
            rows.push(item.unwrap().inner.num_rows());
        }
        assert_eq!(rows.iter().sum::<usize>(), budget.min(total));
        let mut before = 0;
        for (position, handed) in rows.iter().enumerate() {
            let whole = sizes[position] as usize;
            if position + 1 < rows.len() {
                assert_eq!(*handed, whole);
            } else if *handed != whole {
                assert_eq!(*handed, budget - before);
                assert!(*handed >= 1);
                assert!(*handed < whole);
            }
            before += whole;
        }
    }
}

#[test]
fn a_column_may_be_handed_out_twice() {
    let batch = mixed();
    let schema = Arc::new(batch.inner.schema().project(&[1, 1, 0]).unwrap());
    let mut stream =
        MockMemoryStream::try_new(vec![copy(&batch)], schema.clone(), Some(vec![1, 1, 0])).unwrap();
    let out = stream.next().unwrap().unwrap();
    assert_eq!(out.inner.schema(), schema);
    assert_eq!(out.inner.column(0), batch.inner.column(1));
    assert_eq!(out.inner.column(1), batch.inner.column(1));
    assert_eq!(out.inner.column(2), batch.inner.column(0));
}

#[test]
fn an_empty_projection_hands_out_rows_without_columns() {
    let batch = mixed();
    let schema = Arc::new(Schema::empty());
    let mut stream = MockMemoryStream::try_new(
        vec![copy(&batch), copy(&batch)],
        schema,
        Some(vec![]),
    )
    .unwrap()
    .with_fetch(Some(7));
    let first = stream.next().unwrap().unwrap();
    assert_eq!(first.inner.num_columns(), 0);
    assert_eq!(first.inner.num_rows(), 5);
    let second = stream.next().unwrap().unwrap();
    assert_eq!(second.inner.num_columns(), 0);
    assert_eq!(second.inner.num_rows(), 2);
    assert!(stream.next().is_none());
}

#[test]
fn a_source_with_an_empty_projection() {
    let batch = build_table_i32(("a", &vec![1, 2]), ("b", &vec![3, 4]), ("c", &vec![5, 6]));
    let schema = batch.inner.schema();
    let source = MockMemorySourceConfig::try_new(&[vec![batch]], schema, Some(vec![]))
        .unwrap()
        .try_with_sort_information(vec![SortOrdering::new(vec![SortExpr::new(
            Column::new("b", 1),
            SortOptions { descending: false, nulls_first: false },
        )])])
        .unwrap();
    assert!(source.sort_information().is_empty());
    assert_eq!(
        source.fmt_as(DisplayFormatType::Default),
        "DataSourceExec: partitions=1, partition_sizes=[1]"
    );
    let statistics = source.statistics().unwrap();
    assert_eq!(statistics.num_rows, Precision::Exact(2));
    assert_eq!(statistics.total_byte_size, Precision::Exact(0));
    assert!(statistics.column_statistics.is_empty());
    let mut stream = source.execute(0, Arc::new(TaskContext::default())).unwrap();
    let out = stream.next().unwrap().unwrap();
    assert_eq!(out.inner.num_columns(), 0);
    assert_eq!(out.inner.num_rows(), 2);
}

#[test]
fn a_batch_narrower_than_the_schema_fails_where_it_is_reached() {
    let wide = build_table_i32(("a", &vec![1]), ("b", &vec![2]), ("c", &vec![3]));
    let narrow = make_partition(2);
    let schema = wide.inner.schema();
    let source =
        MockMemorySourceConfig::try_new(&[vec![copy(&wide), narrow, wide]], schema, Some(vec![0, 2]))
            .unwrap()
            .with_limit(Some(1));
    let mut stream = source.execute(0, Arc::new(TaskContext::default())).unwrap();
    assert_eq!(stream.next().unwrap().unwrap().inner.num_rows(), 1);
    assert_eq!(stream.next().unwrap().err(), Some(SourceError::Index { index: 2, len: 1 }));
    assert!(stream.next().is_none());
    assert!(stream.next().is_none());
}

#[test]
fn after_a_budget_stop_the_end_stays_whatever_comes_behind() {
    let wide = build_table_i32(("a", &vec![1]), ("b", &vec![2]), ("c", &vec![3]));
    let narrow = make_partition(2);
    let schema = wide.inner.schema();
    let mut stream =
        MockMemoryStream::try_new(vec![copy(&wide), wide, narrow], schema, Some(vec![0, 2]))
            .unwrap()
            .with_fetch(Some(1));
    assert_eq!(stream.next().unwrap().unwrap().inner.num_rows(), 1);
    assert_eq!(stream.size_hint(), (2, Some(2)));
    assert!(stream.next().is_none());
    assert_eq!(stream.size_hint(), (0, Some(0)));
    for _ in 0..4 {
        assert!(stream.next().is_none());
    }
}
