//! Arrow record batches as the source sees them: named columns of equally
//! many cells.

use crate::projection::{admits, select};
use crate::schema::{schema_fields, FieldModel};
use crate::text::signed_decimal;
use arrow::array::{ArrayRef, Int32Array, RecordBatch};
use arrow::datatypes::Schema;
use arrow::error::ArrowError;
use std::sync::Arc;
use vstd::prelude::*;

verus! {

/// One of arrow's record batches. Verus sees nothing inside it: what it holds
/// goes by the names `batch_columns`, `batch_rows` and `batch_conforms`.
#[verifier::external_body]
#[derive(Debug, PartialEq)]
pub struct Batch {
    pub inner: RecordBatch,
}

/// arrow's error type.
#[verifier::external_type_specification]
#[verifier::external_body]
pub struct ExArrowError(ArrowError);

/// A cell of a column: `None` where the value is null, else the value
/// written out as text, the way arrow's display formatter writes it.
pub type Cell = Option<Seq<char>>;

/// What a column of a batch holds.
pub struct ColumnData {
    /// The field of the batch's schema that describes the column.
    pub field: FieldModel,
    /// The column's cells, from the first row to the last.
    pub cells: Seq<Cell>,
}

/// The columns of a batch, in order.
pub uninterp spec fn batch_columns(batch: Batch) -> Seq<ColumnData>;

/// The number of rows of a batch. Every column holds that many cells.
pub uninterp spec fn batch_rows(batch: Batch) -> nat;

/// Whether a batch conforms to its own schema as `RecordBatch::try_new`
/// asks: every column has exactly the data type that its field declares, and
/// holds nulls only where its field is nullable.
pub uninterp spec fn batch_conforms(batch: Batch) -> bool;

/// What a batch holds.
pub struct BatchModel {
    pub columns: Seq<ColumnData>,
    pub rows: nat,
}

impl View for Batch {
    type V = BatchModel;

    open spec fn view(&self) -> BatchModel {
        BatchModel { columns: batch_columns(*self), rows: batch_rows(*self) }
    }
}

/// The cells of a column from row `offset` on, `rows` of them.
pub open spec fn column_part(column: ColumnData, offset: nat, rows: nat) -> ColumnData {
    ColumnData {
        field: column.field,
        cells: column.cells.subrange(offset as int, (offset + rows) as int),
    }
}

impl BatchModel {
    /// The fields of the columns, in order.
    pub open spec fn fields(self) -> Seq<FieldModel> {
        Seq::new(self.columns.len(), |c: int| self.columns[c].field)
    }

    /// The batch of the columns that `indices` picks, in that order.
    pub open spec fn select(self, indices: Seq<usize>) -> BatchModel {
        BatchModel { columns: select(self.columns, indices), rows: self.rows }
    }

    /// The batch under an optional projection.
    pub open spec fn select_opt(self, projection: Option<Seq<usize>>) -> BatchModel {
        match projection {
            Some(indices) => self.select(indices),
            None => self,
        }
    }

    /// The batch of `rows` rows from row `offset` on.
    pub open spec fn part(self, offset: nat, rows: nat) -> BatchModel {
        BatchModel {
            columns: Seq::new(
                self.columns.len(),
                |c: int| column_part(self.columns[c], offset, rows),
            ),
            rows,
        }
    }

    /// The batch of the first `rows` rows.
    pub open spec fn head(self, rows: nat) -> BatchModel {
        self.part(0, rows)
    }
}

/// The cells of a column of plain integers.
pub open spec fn int_cells(values: Seq<i32>) -> Seq<Cell> {
    Seq::new(values.len(), |r: int| Some(signed_decimal(values[r] as int)))
}

/// The columns of a batch made of a schema's fields and columns of plain
/// integers.
pub open spec fn int_columns(fields: Seq<FieldModel>, values: Seq<Vec<i32>>) -> Seq<ColumnData> {
    Seq::new(
        values.len(),
        |c: int| ColumnData { field: fields[c], cells: int_cells(values[c]@) },
    )
}

/// Whether arrow accepts columns of plain integers under fields: one column
/// for each field and at least one, all of one length, every field of type
/// `Int32`.
pub open spec fn int_batch_fits(fields: Seq<FieldModel>, values: Seq<Vec<i32>>) -> bool {
    &&& values.len() > 0
    &&& fields.len() == values.len()
    &&& forall|c: int| 0 <= c < values.len() ==> (#[trigger] values[c]).len() == values[0].len()
    &&& forall|c: int| 0 <= c < fields.len() ==> (#[trigger] fields[c]).data_type == "Int32"@
}

/// Calls `RecordBatch::clone`, which shares the columns and the schema: the
/// copy is the same batch.
#[verifier::external_body]
pub(crate) fn copy_batch(batch: &Batch) -> (r: Batch)
    ensures
        r == *batch,
{
    Batch { inner: batch.inner.clone() }
}

/// Calls `RecordBatch::num_rows`: the number of rows, which is the number of
/// cells of every column.
#[verifier::external_body]
pub(crate) fn row_count(batch: &Batch) -> (r: usize)
    ensures
        r == batch_rows(*batch),
        forall|c: int|
            0 <= c < batch_columns(*batch).len() ==> (#[trigger] batch_columns(
                *batch,
            )[c]).cells.len() == r,
{
    batch.inner.num_rows()
}

/// Calls `RecordBatch::num_columns`: the number of columns.
#[verifier::external_body]
pub(crate) fn column_count(batch: &Batch) -> (r: usize)
    ensures
        r == batch_columns(*batch).len(),
{
    batch.inner.num_columns()
}

/// Calls `RecordBatch::schema`: the schema holds the fields of the batch's
/// columns, in order.
#[verifier::external_body]
pub(crate) fn batch_schema(batch: &Batch) -> (r: Arc<Schema>)
    ensures
        schema_fields(*r).len() == batch_columns(*batch).len(),
        forall|c: int|
            0 <= c < batch_columns(*batch).len() ==> (#[trigger] schema_fields(*r)[c])
                == batch_columns(*batch)[c].field,
{
    batch.inner.schema()
}

/// Calls `RecordBatch::project`. It fails where an index is out of range,
/// and succeeds where all are in range and the batch conforms to its schema.
/// The result holds the picked columns in the order of the indices, has as
/// many rows, and conforms.
#[verifier::external_body]
pub(crate) fn project_batch(batch: &Batch, indices: &Vec<usize>) -> (r: Result<Batch, ArrowError>)
    ensures
        r is Ok ==> admits(batch_columns(*batch).len(), indices@),
        admits(batch_columns(*batch).len(), indices@) && batch_conforms(*batch) ==> r is Ok,
        r matches Ok(picked) ==> {
            &&& batch_columns(picked) == select(batch_columns(*batch), indices@)
            &&& batch_rows(picked) == batch_rows(*batch)
            &&& batch_conforms(picked)
        },
{
    batch.inner.project(indices).map(|inner| Batch { inner })
}

/// Calls `RecordBatch::slice`: the rows from `offset` on, `length` of them,
/// of every column. A slice of a batch that conforms does so too. arrow
/// panics where the range does not lie within the batch.
#[verifier::external_body]
pub(crate) fn slice_batch(batch: &Batch, offset: usize, length: usize) -> (r: Batch)
    requires
        offset + length <= batch_rows(*batch),
    ensures
        batch_rows(r) == length,
        batch_columns(r).len() == batch_columns(*batch).len(),
        forall|c: int|
            0 <= c < batch_columns(*batch).len() ==> (#[trigger] batch_columns(r)[c])
                == column_part(batch_columns(*batch)[c], offset as nat, length as nat),
        batch_conforms(*batch) ==> batch_conforms(r),
{
    Batch { inner: batch.inner.slice(offset, length) }
}

/// Calls `RecordBatch::try_new` on columns made by `Int32Array::from`. It
/// succeeds exactly where there is one column for each field and at least
/// one, all columns have one length and every field is of type `Int32`. The
/// batch then holds the values under the schema's fields, without nulls, and
/// conforms.
#[verifier::external_body]
pub(crate) fn new_int_batch(schema: Arc<Schema>, values: &Vec<Vec<i32>>) -> (r: Result<
    Batch,
    ArrowError,
>)
    ensures
        r is Ok <==> int_batch_fits(schema_fields(*schema), values@),
        r matches Ok(batch) ==> {
            &&& batch_columns(batch) == int_columns(schema_fields(*schema), values@)
            &&& batch_rows(batch) == values[0].len()
            &&& batch_conforms(batch)
        },
{
    let columns = values.iter().map(|v| Arc::new(Int32Array::from(v.clone())) as ArrayRef);
    RecordBatch::try_new(schema, columns.collect()).map(|inner| Batch { inner })
}

/// The number of null cells among `cells`.
pub open spec fn nulls_in(cells: Seq<Cell>) -> nat
    decreases cells.len(),
{
    if cells.len() == 0 {
        0
    } else {
        nulls_in(cells.drop_last()) + if cells.last() is None {
            1nat
        } else {
            0nat
        }
    }
}

/// Calls `RecordBatch::column`, `Array::logical_nulls` and
/// `NullBuffer::null_count`: the number of null cells of the column. Where
/// arrow keeps no null buffer for the column there is no count, and no cell
/// is null. arrow panics where there is no such column.
#[verifier::external_body]
pub(crate) fn column_nulls(batch: &Batch, column: usize) -> (r: Option<usize>)
    requires
        column < batch_columns(*batch).len(),
    ensures
        r matches Some(nulls) ==> nulls == nulls_in(batch_columns(*batch)[column as int].cells),
        r is None ==> nulls_in(batch_columns(*batch)[column as int].cells) == 0,
{
    batch.inner.column(column).logical_nulls().map(|nulls| nulls.null_count())
}

/// Calls `RecordBatch::column` and `Array::get_array_memory_size`: the bytes
/// of memory that the column takes up, which depend on how it was allocated
/// and on what it shares with others. arrow panics where there is no such
/// column.
#[verifier::external_body]
pub(crate) fn column_bytes(batch: &Batch, column: usize) -> (r: usize)
    requires
        column < batch_columns(*batch).len(),
{
    batch.inner.column(column).get_array_memory_size()
}

/// The partitions of a list, each as a sequence of batches.
pub open spec fn partitions_view(partitions: Seq<Vec<Batch>>) -> Seq<Seq<Batch>> {
    Seq::new(partitions.len(), |p: int| partitions[p]@)
}

/// Copies a list of batches: the copies are the same batches.
pub fn clone_batches(batches: &Vec<Batch>) -> (r: Vec<Batch>)
    ensures
        r@ == batches@,
{
    let mut r: Vec<Batch> = Vec::new();
    let mut b: usize = 0;
    while b < batches.len()
        invariant
            b <= batches.len(),
            r.len() == b,
            forall|a: int| 0 <= a < b ==> r[a] == batches[a],
        decreases batches.len() - b,
    {
        r.push(copy_batch(&batches[b]));
        b += 1;
    }
    assert(r@ =~= batches@);
    r
}

/// Copies a list of partitions.
pub fn clone_partitions(partitions: &[Vec<Batch>]) -> (r: Vec<Vec<Batch>>)
    ensures
        r.len() == partitions.len(),
        forall|p: int| 0 <= p < partitions.len() ==> (#[trigger] r[p])@ == partitions[p]@,
{
    let mut r: Vec<Vec<Batch>> = Vec::new();
    let mut p: usize = 0;
    while p < partitions.len()
        invariant
            p <= partitions.len(),
            r.len() == p,
            forall|a: int| 0 <= a < p ==> (#[trigger] r[a])@ == partitions[a]@,
        decreases partitions.len() - p,
    {
        r.push(clone_batches(&partitions[p]));
        p += 1;
    }
    r
}

} // verus!
