use std::sync::Arc;

use arrow::array::{Array, ArrayRef, Int32Array, RecordBatch, StringArray};
use arrow::datatypes::{DataType, Field, Schema};
use memory_source::batch::Batch;
use memory_source::error::SourceError;
use memory_source::fixtures::{build_table_i32, make_partition, scan_partitioned};
use memory_source::source::MockMemorySourceConfig;
use memory_source::statistics::{
    checked_sum, checked_total, compute_record_batch_statistics, measure, summarize,
    BatchMeasure, ColumnStatistics, Part, Precision, Statistics,
};

fn copy(batch: &Batch) -> Batch {
    Batch { inner: batch.inner.clone() }
}

fn with_nulls() -> Batch {
    let schema = Arc::new(Schema::new(vec![
        Field::new("n", DataType::Int32, true),
        Field::new("s", DataType::Utf8, true),
        Field::new("full", DataType::Int32, false),
    ]));
    let n: ArrayRef = Arc::new(Int32Array::from(vec![Some(1), None, None, Some(4)]));
    let s: ArrayRef = Arc::new(StringArray::from(vec![Some("a"), Some("b"), None, Some("d")]));
    let full: ArrayRef = Arc::new(Int32Array::from(vec![1, 2, 3, 4]));
    Batch { inner: RecordBatch::try_new(schema, vec![n, s, full]).unwrap() }
}

fn bytes_of(batches: &[&Batch], columns: &[usize]) -> usize {
    batches
        .iter()
        .map(|b| columns.iter().map(|c| b.inner.column(*c).get_array_memory_size()).sum::<usize>())
        .sum()
}

fn exact(n: usize) -> ColumnStatistics {
    ColumnStatistics { null_count: Precision::Exact(n) }
}

#[test]
fn statistics_of_a_partitioned_scan() {
    let source = scan_partitioned(2);
    let one = make_partition(100);
    let expected = Statistics {
        num_rows: Precision::Exact(200),
        total_byte_size: Precision::Exact(bytes_of(&[&one, &one], &[0])),
        column_statistics: vec![exact(0)],
    };
    assert_eq!(source.statistics(), Ok(expected));
}

#[test]
fn statistics_count_nulls_by_column() {
    let batch = with_nulls();
    let schema = batch.inner.schema();
    let partitions = vec![vec![copy(&batch)], vec![], vec![copy(&batch), copy(&batch)]];
    let source = MockMemorySourceConfig::try_new(&partitions, schema, None).unwrap();
    let expected = Statistics {
        num_rows: Precision::Exact(12),
        total_byte_size: Precision::Exact(bytes_of(&[&batch, &batch, &batch], &[0, 1, 2])),
        column_statistics: vec![exact(6), exact(3), exact(0)],
    };
    assert_eq!(source.statistics(), Ok(expected));
}

#[test]
fn statistics_follow_the_projection() {
    let batch = with_nulls();
    let schema = batch.inner.schema();
    let partitions = vec![vec![copy(&batch), copy(&batch)]];
    let source = MockMemorySourceConfig::try_new(&partitions, schema, Some(vec![1, 0, 1])).unwrap();
    let expected = Statistics {
        num_rows: Precision::Exact(8),
        total_byte_size: Precision::Exact(bytes_of(&[&batch, &batch], &[1, 0, 1])),
        column_statistics: vec![exact(2), exact(4), exact(2)],
    };
    assert_eq!(source.statistics(), Ok(expected));
}

#[test]
fn statistics_do_not_depend_on_the_limit() {
    let source = MockMemorySourceConfig::new(scan_partitioned(3));
    let plain = source.statistics();
    let limited = source.with_limit(Some(1)).statistics();
    assert_eq!(plain, limited);
    assert_eq!(plain.unwrap().num_rows, Precision::Exact(300));
}

#[test]
fn statistics_of_no_partitions() {
    let schema = Arc::new(Schema::new(vec![
        Field::new("a", DataType::Int32, true),
        Field::new("b", DataType::Int32, true),
    ]));
    let r = compute_record_batch_statistics(&[], &schema, None);
    let expected = Statistics {
        num_rows: Precision::Exact(0),
        total_byte_size: Precision::Exact(0),
        column_statistics: vec![exact(0), exact(0)],
    };
    assert_eq!(r, Ok(expected));
    let r = compute_record_batch_statistics(&[], &schema, Some(vec![]));
    assert_eq!(r.unwrap().column_statistics, vec![]);
}

#[test]
fn statistics_fail_at_the_first_batch_that_lacks_a_column() {
    let wide = build_table_i32(("a", &vec![1]), ("b", &vec![2]), ("c", &vec![3]));
    let narrow = make_partition(4);
    let partitions = vec![vec![copy(&wide)], vec![copy(&wide), narrow, copy(&wide)]];
    let r = compute_record_batch_statistics(&partitions, &wide.inner.schema(), None);
    assert_eq!(r, Err(SourceError::Index { index: 1, len: 1 }));
    let r = compute_record_batch_statistics(&partitions, &wide.inner.schema(), Some(vec![0, 2]));
    assert_eq!(r, Err(SourceError::Index { index: 2, len: 1 }));
    let r = compute_record_batch_statistics(&partitions, &wide.inner.schema(), Some(vec![0]));
    assert_eq!(r.unwrap().num_rows, Precision::Exact(7));
}

#[test]
fn measures_hold_rows_and_nulls() {
    let batch = with_nulls();
    let partitions = vec![vec![copy(&batch)], vec![make_partition(2)]];
    let measures = measure(&partitions, &vec![0]).unwrap();
    assert_eq!(measures.len(), 2);
    assert_eq!(measures[0].rows, 4);
    assert_eq!(measures[0].nulls, vec![2]);
    assert_eq!(measures[0].bytes, vec![batch.inner.column(0).get_array_memory_size()]);
    assert_eq!(measures[1].rows, 2);
    assert_eq!(measures[1].nulls, vec![0]);
    assert_eq!(
        measure(&partitions, &vec![0, 1]),
        Err(SourceError::Index { index: 1, len: 1 })
    );
}

#[test]
fn summary_adds_up() {
    let measures = vec![
        BatchMeasure { rows: 10, nulls: vec![1, 0], bytes: vec![100, 200] },
        BatchMeasure { rows: 5, nulls: vec![2, 5], bytes: vec![7, 8] },
    ];
    let expected = Statistics {
        num_rows: Precision::Exact(15),
        total_byte_size: Precision::Exact(315),
        column_statistics: vec![exact(3), exact(5)],
    };
    assert_eq!(summarize(&measures, 2), Ok(expected));
    assert_eq!(checked_total(&measures, Part::Rows), Some(15));
    assert_eq!(checked_total(&measures, Part::Bytes), Some(315));
    assert_eq!(checked_total(&measures, Part::Nulls(1)), Some(5));
}

#[test]
fn summary_fails_where_a_total_does_not_fit() {
    let rows = vec![
        BatchMeasure { rows: usize::MAX, nulls: vec![0], bytes: vec![0] },
        BatchMeasure { rows: 1, nulls: vec![0], bytes: vec![0] },
    ];
    assert_eq!(summarize(&rows, 1), Err(SourceError::Overflow));
    let bytes = vec![BatchMeasure { rows: 1, nulls: vec![0, 0], bytes: vec![usize::MAX, 1] }];
    assert_eq!(summarize(&bytes, 2), Err(SourceError::Overflow));
    let nulls = vec![
        BatchMeasure { rows: 1, nulls: vec![0, usize::MAX], bytes: vec![0, 0] },
        BatchMeasure { rows: 1, nulls: vec![0, 1], bytes: vec![0, 0] },
    ];
    assert_eq!(summarize(&nulls, 2), Err(SourceError::Overflow));
    let fits = vec![
        BatchMeasure { rows: usize::MAX - 1, nulls: vec![usize::MAX], bytes: vec![usize::MAX] },
        BatchMeasure { rows: 1, nulls: vec![0], bytes: vec![0] },
    ];
    assert_eq!(
        summarize(&fits, 1),
        Ok(Statistics {
            num_rows: Precision::Exact(usize::MAX),
            total_byte_size: Precision::Exact(usize::MAX),
            column_statistics: vec![exact(usize::MAX)],
        })
    );
}

#[test]
fn checked_sum_of_numbers() {
    assert_eq!(checked_sum(&vec![]), Some(0));
    assert_eq!(checked_sum(&vec![1, 2, 3]), Some(6));
    assert_eq!(checked_sum(&vec![usize::MAX, 0]), Some(usize::MAX));
    assert_eq!(checked_sum(&vec![usize::MAX, 1]), None);
    assert_eq!(checked_sum(&vec![1, usize::MAX, 0]), None);
}
