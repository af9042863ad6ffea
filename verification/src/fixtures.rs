//! Ready-made schemas, batches and sources.

use crate::batch::{
    batch_conforms, batch_schema, int_cells, new_int_batch, Batch, BatchModel, ColumnData,
};
use crate::schema::{
    fields_of, make_schema, plain_field, ColumnType, FieldModel, FieldSpec,
};
use crate::source::{MockMemorySourceConfig, SourceModel};
use arrow::datatypes::Schema;
use std::sync::Arc;
use vstd::prelude::*;

verus! {

/// The fields of the schema of the aggregate test files: `c1` to `c13`, none
/// nullable, `c1` carrying one metadata entry.
pub open spec fn aggr_test_fields() -> Seq<FieldModel> {
    seq![
        FieldModel {
            metadata: Map::empty().insert("testing"@, "test"@),
            ..plain_field("c1"@, ColumnType::Utf8, false)
        },
        plain_field("c2"@, ColumnType::UInt32, false),
        plain_field("c3"@, ColumnType::Int8, false),
        plain_field("c4"@, ColumnType::Int16, false),
        plain_field("c5"@, ColumnType::Int32, false),
        plain_field("c6"@, ColumnType::Int64, false),
        plain_field("c7"@, ColumnType::UInt8, false),
        plain_field("c8"@, ColumnType::UInt16, false),
        plain_field("c9"@, ColumnType::UInt32, false),
        plain_field("c10"@, ColumnType::UInt64, false),
        plain_field("c11"@, ColumnType::Float32, false),
        plain_field("c12"@, ColumnType::Float64, false),
        plain_field("c13"@, ColumnType::Utf8, false),
    ]
}

/// The schema of the aggregate test files.
pub fn aggr_test_schema() -> (r: Arc<Schema>)
    ensures
        fields_of(&r) == aggr_test_fields(),
{
    let f1 = FieldSpec::new("c1", ColumnType::Utf8, false).with_metadata("testing", "test");
    let mut fields: Vec<FieldSpec> = Vec::new();
    fields.push(f1);
    fields.push(FieldSpec::new("c2", ColumnType::UInt32, false));
    fields.push(FieldSpec::new("c3", ColumnType::Int8, false));
    fields.push(FieldSpec::new("c4", ColumnType::Int16, false));
    fields.push(FieldSpec::new("c5", ColumnType::Int32, false));
    fields.push(FieldSpec::new("c6", ColumnType::Int64, false));
    fields.push(FieldSpec::new("c7", ColumnType::UInt8, false));
    fields.push(FieldSpec::new("c8", ColumnType::UInt16, false));
    fields.push(FieldSpec::new("c9", ColumnType::UInt32, false));
    fields.push(FieldSpec::new("c10", ColumnType::UInt64, false));
    fields.push(FieldSpec::new("c11", ColumnType::Float32, false));
    fields.push(FieldSpec::new("c12", ColumnType::Float64, false));
    fields.push(FieldSpec::new("c13", ColumnType::Utf8, false));
    let schema = make_schema(&fields);
    assert(fields_of(&schema) =~= aggr_test_fields());
    schema
}

/// A column of plain integers under a name, not nullable.
pub open spec fn int_column(name: Seq<char>, values: Seq<i32>) -> ColumnData {
    ColumnData { field: plain_field(name, ColumnType::Int32, false), cells: int_cells(values) }
}

/// A batch of three integer columns of one length.
pub open spec fn table_i32(
    a: (Seq<char>, Seq<i32>),
    b: (Seq<char>, Seq<i32>),
    c: (Seq<char>, Seq<i32>),
) -> BatchModel {
    BatchModel {
        columns: seq![int_column(a.0, a.1), int_column(b.0, b.1), int_column(c.0, c.1)],
        rows: a.1.len(),
    }
}

/// A batch of three columns of integers in memory, none nullable. The
/// columns must be of one length.
pub fn build_table_i32(a: (&str, &Vec<i32>), b: (&str, &Vec<i32>), c: (&str, &Vec<i32>)) -> (r:
    Batch)
    requires
        a.1.len() == b.1.len(),
        a.1.len() == c.1.len(),
    ensures
        r@ == table_i32((a.0@, a.1@), (b.0@, b.1@), (c.0@, c.1@)),
        batch_conforms(r),
{
    let mut fields: Vec<FieldSpec> = Vec::new();
    fields.push(FieldSpec::new(a.0, ColumnType::Int32, false));
    fields.push(FieldSpec::new(b.0, ColumnType::Int32, false));
    fields.push(FieldSpec::new(c.0, ColumnType::Int32, false));
    let schema = make_schema(&fields);
    let mut values: Vec<Vec<i32>> = Vec::new();
    values.push(a.1.clone());
    values.push(b.1.clone());
    values.push(c.1.clone());
    match new_int_batch(schema, &values) {
        Ok(batch) => {
            assert(batch@.columns =~= table_i32((a.0@, a.1@), (b.0@, b.1@), (c.0@, c.1@)).columns);
            batch
        },
        Err(_) => unreached(),
    }
}

/// A batch of two integer columns of one length.
pub open spec fn table_i32_two_cols(a: (Seq<char>, Seq<i32>), b: (Seq<char>, Seq<i32>)) -> BatchModel {
    BatchModel { columns: seq![int_column(a.0, a.1), int_column(b.0, b.1)], rows: a.1.len() }
}

/// A batch of two columns of integers in memory, none nullable. The columns
/// must be of one length.
pub fn build_table_i32_two_cols(a: (&str, &Vec<i32>), b: (&str, &Vec<i32>)) -> (r: Batch)
    requires
        a.1.len() == b.1.len(),
    ensures
        r@ == table_i32_two_cols((a.0@, a.1@), (b.0@, b.1@)),
        batch_conforms(r),
{
    let mut fields: Vec<FieldSpec> = Vec::new();
    fields.push(FieldSpec::new(a.0, ColumnType::Int32, false));
    fields.push(FieldSpec::new(b.0, ColumnType::Int32, false));
    let schema = make_schema(&fields);
    let mut values: Vec<Vec<i32>> = Vec::new();
    values.push(a.1.clone());
    values.push(b.1.clone());
    match new_int_batch(schema, &values) {
        Ok(batch) => {
            assert(batch@.columns =~= table_i32_two_cols((a.0@, a.1@), (b.0@, b.1@)).columns);
            batch
        },
        Err(_) => unreached(),
    }
}

/// A source of one partition that holds one batch of three integer columns.
pub fn build_table_scan_i32(a: (&str, &Vec<i32>), b: (&str, &Vec<i32>), c: (&str, &Vec<i32>)) -> (r:
    Arc<MockMemorySourceConfig>)
    requires
        a.1.len() == b.1.len(),
        a.1.len() == c.1.len(),
    ensures
        r.wf(),
        r@.partitions.len() == 1,
        r@.partitions[0].len() == 1,
        r@.partitions[0][0]@ == table_i32((a.0@, a.1@), (b.0@, b.1@), (c.0@, c.1@)),
        batch_conforms(r@.partitions[0][0]),
        r@ == SourceModel::initial(
            r@.partitions,
            table_i32((a.0@, a.1@), (b.0@, b.1@), (c.0@, c.1@)).fields(),
            None,
        ),
{
    let batch = build_table_i32(a, b, c);
    let schema = batch_schema(&batch);
    assert(fields_of(&schema) =~= batch@.fields());
    let mut partition: Vec<Batch> = Vec::new();
    partition.push(batch);
    let mut partitions: Vec<Vec<Batch>> = Vec::new();
    partitions.push(partition);
    match MockMemorySourceConfig::try_new_exec(partitions.as_slice(), schema, None) {
        Ok(source) => source,
        Err(_) => unreached(),
    }
}

/// The numbers from zero up to, and without, `end`.
pub open spec fn counting(end: int) -> Seq<i32> {
    Seq::new(
        if end > 0 {
            end as nat
        } else {
            0
        },
        |v: int| v as i32,
    )
}

/// A batch of one nullable integer column `i` that counts from zero up to,
/// and without, `sz`.
pub open spec fn partition_model(sz: int) -> BatchModel {
    BatchModel {
        columns: seq![
            ColumnData {
                field: plain_field("i"@, ColumnType::Int32, true),
                cells: int_cells(counting(sz)),
            },
        ],
        rows: counting(sz).len(),
    }
}

/// A batch with a single integer column named `i` that holds the numbers from
/// zero up to, and without, `sz`.
pub fn make_partition(sz: i32) -> (r: Batch)
    ensures
        r@ == partition_model(sz as int),
        batch_conforms(r),
{
    let seq_start: i32 = 0;
    let seq_end: i32 = sz;
    let mut values: Vec<i32> = Vec::new();
    let mut v: i32 = seq_start;
    while v < seq_end
        invariant
            seq_end == sz,
            0 <= v,
            seq_end <= 0 ==> v == 0,
            seq_end > 0 ==> v <= seq_end,
            values.len() == v,
            forall|k: int| 0 <= k < v ==> values[k] == k,
        decreases seq_end - v,
    {
        values.push(v);
        v += 1;
    }
    assert(values@ =~= counting(sz as int));
    let mut fields: Vec<FieldSpec> = Vec::new();
    fields.push(FieldSpec::new("i", ColumnType::Int32, true));
    let schema = make_schema(&fields);
    let mut columns: Vec<Vec<i32>> = Vec::new();
    columns.push(values);
    match new_int_batch(schema, &columns) {
        Ok(batch) => {
            assert(batch@.columns =~= partition_model(sz as int).columns);
            batch
        },
        Err(_) => unreached(),
    }
}

/// A source of `partitions` partitions, each of one batch of a hundred rows
/// that count from zero. There must be at least one partition.
pub fn scan_partitioned(partitions: usize) -> (r: Arc<MockMemorySourceConfig>)
    requires
        partitions > 0,
    ensures
        r.wf(),
        r@.partitions.len() == partitions,
        forall|p: int|
            0 <= p < partitions ==> {
                &&& (#[trigger] r@.partitions[p]).len() == 1
                &&& r@.partitions[p][0]@ == partition_model(100)
                &&& batch_conforms(r@.partitions[p][0])
            },
        r@ == SourceModel::initial(r@.partitions, partition_model(100).fields(), None),
{
    let mut data: Vec<Vec<Batch>> = Vec::new();
    let mut p: usize = 0;
    while p < partitions
        invariant
            p <= partitions,
            data.len() == p,
            forall|a: int|
                0 <= a < p ==> {
                    &&& (#[trigger] data[a]).len() == 1
                    &&& data[a][0]@ == partition_model(100)
                    &&& batch_conforms(data[a][0])
                },
        decreases partitions - p,
    {
        let mut partition: Vec<Batch> = Vec::new();
        partition.push(make_partition(100));
        data.push(partition);
        p += 1;
    }
    let schema = batch_schema(&data[0][0]);
    assert(fields_of(&schema) =~= partition_model(100).fields());
    let projection = None;
    match MockMemorySourceConfig::try_new_exec(data.as_slice(), schema, projection) {
        Ok(source) => source,
        Err(_) => unreached(),
    }
}

} // verus!
