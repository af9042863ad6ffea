//! Row counts, byte sizes and null counts of a source, for a cost model.

use crate::batch::{
    batch_columns, batch_rows, column_bytes, column_count, column_nulls, nulls_in,
    partitions_view, row_count, Batch,
};
use crate::error::SourceError;
use crate::projection::{admits, find_misfit, first_misfit, indices_of};
use crate::schema::{field_count, fields_of};
use arrow::datatypes::Schema;
use std::sync::Arc;
use vstd::prelude::*;

verus! {

/// A value with how far it can be relied on.
#[derive(Clone, Copy, Debug, PartialEq, Eq)]
pub enum Precision {
    /// The value is exact.
    Exact(usize),
    /// The value is an estimate.
    Inexact(usize),
    /// Nothing is known.
    Absent,
}

/// What is known of one column.
#[derive(Clone, Copy, Debug, PartialEq, Eq)]
pub struct ColumnStatistics {
    /// The number of nulls in the column.
    pub null_count: Precision,
}

/// What is known of the rows of a source.
#[derive(Debug, PartialEq, Eq)]
pub struct Statistics {
    /// The number of rows.
    pub num_rows: Precision,
    /// The bytes that the rows take up.
    pub total_byte_size: Precision,
    /// What is known of each column handed out, in order.
    pub column_statistics: Vec<ColumnStatistics>,
}

/// What was measured of one batch: its rows and, for each column looked at,
/// the nulls it holds and the bytes it takes up.
#[derive(Debug, PartialEq, Eq)]
pub struct BatchMeasure {
    pub rows: usize,
    pub nulls: Vec<usize>,
    pub bytes: Vec<usize>,
}

/// What a measure says.
pub struct MeasureModel {
    pub rows: nat,
    pub nulls: Seq<usize>,
    pub bytes: Seq<usize>,
}

impl View for BatchMeasure {
    type V = MeasureModel;

    open spec fn view(&self) -> MeasureModel {
        MeasureModel { rows: self.rows as nat, nulls: self.nulls@, bytes: self.bytes@ }
    }
}

/// What a list of measures says.
pub open spec fn measures_view(measures: Seq<BatchMeasure>) -> Seq<MeasureModel> {
    Seq::new(measures.len(), |i: int| measures[i]@)
}

/// The sum of the numbers of `items`.
pub open spec fn sum_of(items: Seq<usize>) -> nat
    decreases items.len(),
{
    if items.len() == 0 {
        0
    } else {
        sum_of(items.drop_last()) + items.last() as nat
    }
}

/// The part of a measure that a total is taken of: its rows, all its bytes,
/// or the nulls of one column.
#[derive(Clone, Copy, Debug, PartialEq, Eq)]
pub enum Part {
    Rows,
    Bytes,
    Nulls(usize),
}

/// What one measure holds of a part.
pub open spec fn part_of(measure: MeasureModel, part: Part) -> nat {
    match part {
        Part::Rows => measure.rows,
        Part::Bytes => sum_of(measure.bytes),
        Part::Nulls(column) => measure.nulls[column as int] as nat,
    }
}

/// The total of one part over all measures.
pub open spec fn total(measures: Seq<MeasureModel>, part: Part) -> nat
    decreases measures.len(),
{
    if measures.len() == 0 {
        0
    } else {
        total(measures.drop_last(), part) + part_of(measures.last(), part)
    }
}

/// The sum of the first numbers is no more than the sum of all.
proof fn lemma_sum_grows(items: Seq<usize>, n: int)
    requires
        0 <= n <= items.len(),
    ensures
        sum_of(items.take(n)) <= sum_of(items),
    decreases items.len() - n,
{
    if n < items.len() {
        lemma_sum_grows(items, n + 1);
        assert(items.take(n + 1).drop_last() =~= items.take(n));
    } else {
        assert(items.take(n) =~= items);
    }
}

/// The total over the first measures is no more than the total over all.
proof fn lemma_total_grows(measures: Seq<MeasureModel>, part: Part, n: int)
    requires
        0 <= n <= measures.len(),
    ensures
        total(measures.take(n), part) <= total(measures, part),
    decreases measures.len() - n,
{
    if n < measures.len() {
        lemma_total_grows(measures, part, n + 1);
        assert(measures.take(n + 1).drop_last() =~= measures.take(n));
    } else {
        assert(measures.take(n) =~= measures);
    }
}

/// Adds up the numbers of `items`, unless the sum does not fit.
pub fn checked_sum(items: &Vec<usize>) -> (r: Option<usize>)
    ensures
        r is Some <==> sum_of(items@) <= usize::MAX,
        r matches Some(sum) ==> sum == sum_of(items@),
{
    let mut sum: usize = 0;
    let mut i: usize = 0;
    while i < items.len()
        invariant
            i <= items.len(),
            sum == sum_of(items@.take(i as int)),
        decreases items.len() - i,
    {
        proof {
            assert(items@.take(i + 1).drop_last() =~= items@.take(i as int));
            lemma_sum_grows(items@, i + 1);
        }
        match sum.checked_add(items[i]) {
            Some(more) => {
                sum = more;
            },
            None => {
                return None;
            },
        }
        i += 1;
    }
    assert(items@.take(items.len() as int) =~= items@);
    Some(sum)
}

/// Whether every measure holds nulls and bytes of `width` columns.
pub open spec fn all_of_width(measures: Seq<MeasureModel>, width: nat) -> bool {
    forall|i: int|
        0 <= i < measures.len() ==> (#[trigger] measures[i]).nulls.len() == width
            && measures[i].bytes.len() == width
}

/// Whether the totals of the measures fit the machine's word: the rows, the
/// bytes, and the nulls of each of `width` columns.
pub open spec fn totals_fit(measures: Seq<MeasureModel>, width: nat) -> bool {
    &&& total(measures, Part::Rows) <= usize::MAX
    &&& total(measures, Part::Bytes) <= usize::MAX
    &&& forall|column: int|
        0 <= column < width ==> #[trigger] total(measures, Part::Nulls(column as usize)) <= usize::MAX
}

/// Whether `statistics` give the totals of the measures as exact values.
pub open spec fn sums_up(measures: Seq<MeasureModel>, width: nat, statistics: Statistics) -> bool {
    &&& statistics.num_rows == Precision::Exact(total(measures, Part::Rows) as usize)
    &&& statistics.total_byte_size == Precision::Exact(total(measures, Part::Bytes) as usize)
    &&& statistics.column_statistics.len() == width
    &&& forall|column: int|
        0 <= column < width ==> (#[trigger] statistics.column_statistics[column]).null_count
            == Precision::Exact(total(measures, Part::Nulls(column as usize)) as usize)
}

/// Whether every measure holds what `part` asks for.
pub open spec fn holds_part(measures: Seq<MeasureModel>, part: Part) -> bool {
    part matches Part::Nulls(column) ==> forall|i: int|
        0 <= i < measures.len() ==> column < (#[trigger] measures[i]).nulls.len()
}

/// Adds up one part of the measures, unless the total does not fit.
pub fn checked_total(measures: &Vec<BatchMeasure>, part: Part) -> (r: Option<usize>)
    requires
        holds_part(measures_view(measures@), part),
    ensures
        r is Some <==> total(measures_view(measures@), part) <= usize::MAX,
        r matches Some(sum) ==> sum == total(measures_view(measures@), part),
{
    let ghost view = measures_view(measures@);
    let mut sum: usize = 0;
    let mut i: usize = 0;
    while i < measures.len()
        invariant
            i <= measures.len(),
            view == measures_view(measures@),
            holds_part(view, part),
            sum == total(view.take(i as int), part),
        decreases measures.len() - i,
    {
        proof {
            assert(view.take(i + 1).drop_last() =~= view.take(i as int));
            assert(view.take(i + 1).last() == measures[i as int]@);
            assert(view[i as int] == measures[i as int]@);
            lemma_total_grows(view, part, i + 1);
        }
        let one = match part {
            Part::Rows => Some(measures[i].rows),
            Part::Bytes => checked_sum(&measures[i].bytes),
            Part::Nulls(column) => Some(measures[i].nulls[column]),
        };
        let more = match one {
            Some(one) => sum.checked_add(one),
            None => None,
        };
        match more {
            Some(more) => {
                sum = more;
            },
            None => {
                return None;
            },
        }
        i += 1;
    }
    assert(view.take(measures.len() as int) =~= view);
    Some(sum)
}

/// Sums measures up to statistics: the rows, the bytes and, for each of
/// `width` columns, the nulls, all as exact values. It fails where a total
/// does not fit the machine's word.
pub fn summarize(measures: &Vec<BatchMeasure>, width: usize) -> (r: Result<Statistics, SourceError>)
    requires
        all_of_width(measures_view(measures@), width as nat),
    ensures
        r is Ok <==> totals_fit(measures_view(measures@), width as nat),
        r matches Ok(statistics) ==> sums_up(measures_view(measures@), width as nat, statistics),
        r matches Err(error) ==> error == SourceError::Overflow,
{
    let ghost view = measures_view(measures@);
    let num_rows = match checked_total(measures, Part::Rows) {
        Some(rows) => rows,
        None => {
            return Err(SourceError::Overflow);
        },
    };
    let total_byte_size = match checked_total(measures, Part::Bytes) {
        Some(bytes) => bytes,
        None => {
            return Err(SourceError::Overflow);
        },
    };
    let mut column_statistics: Vec<ColumnStatistics> = Vec::new();
    let mut column: usize = 0;
    while column < width
        invariant
            column <= width,
            view == measures_view(measures@),
            all_of_width(view, width as nat),
            column_statistics.len() == column,
            forall|c: int|
                0 <= c < column ==> {
                    &&& #[trigger] total(view, Part::Nulls(c as usize)) <= usize::MAX
                    &&& column_statistics[c].null_count == Precision::Exact(
                        total(view, Part::Nulls(c as usize)) as usize,
                    )
                },
        decreases width - column,
    {
        assert forall|i: int| 0 <= i < measures.len() implies column < (
        #[trigger] measures[i]).nulls.len() by {
            assert(view[i].nulls.len() == width);
        }
        match checked_total(measures, Part::Nulls(column)) {
            Some(nulls) => {
                column_statistics.push(ColumnStatistics { null_count: Precision::Exact(nulls) });
            },
            None => {
                assert(total(view, Part::Nulls((column as int) as usize)) > usize::MAX);
                return Err(SourceError::Overflow);
            },
        }
        column += 1;
    }
    Ok(
        Statistics {
            num_rows: Precision::Exact(num_rows),
            total_byte_size: Precision::Exact(total_byte_size),
            column_statistics,
        },
    )
}

/// The batches of all partitions, one partition after the other.
pub open spec fn reading(partitions: Seq<Seq<Batch>>) -> Seq<Batch>
    decreases partitions.len(),
{
    if partitions.len() == 0 {
        Seq::empty()
    } else {
        reading(partitions.drop_last()) + partitions.last()
    }
}

/// Whether `measure` is what `batch` holds in the columns looked at: its
/// rows and the nulls of each column. The bytes are as arrow reported them.
pub open spec fn measures_batch(batch: Batch, columns: Seq<usize>, measure: MeasureModel) -> bool {
    &&& measure.rows == batch_rows(batch)
    &&& measure.nulls.len() == columns.len()
    &&& measure.bytes.len() == columns.len()
    &&& forall|j: int|
        0 <= j < columns.len() ==> (#[trigger] measure.nulls[j]) == nulls_in(
            batch_columns(batch)[columns[j] as int].cells,
        )
}

/// Whether the measures are those of the batches, one for one.
pub open spec fn measured(batches: Seq<Batch>, columns: Seq<usize>, measures: Seq<MeasureModel>) -> bool {
    &&& measures.len() == batches.len()
    &&& forall|i: int|
        0 <= i < batches.len() ==> measures_batch(batches[i], columns, #[trigger] measures[i])
}

/// Whether every batch holds all the columns.
pub open spec fn all_wide(batches: Seq<Batch>, columns: Seq<usize>) -> bool {
    forall|i: int|
        0 <= i < batches.len() ==> admits(batch_columns(#[trigger] batches[i]).len(), columns)
}

/// Whether every batch of every partition holds all the columns.
pub open spec fn each_wide(partitions: Seq<Seq<Batch>>, columns: Seq<usize>) -> bool {
    forall|p: int, b: int|
        #![trigger partitions[p][b]]
        0 <= p < partitions.len() && 0 <= b < partitions[p].len() ==> admits(
            batch_columns(partitions[p][b]).len(),
            columns,
        )
}

/// The batches in reading order all hold the columns exactly where every
/// batch of every partition does.
pub proof fn lemma_wide_by_partition(partitions: Seq<Seq<Batch>>, columns: Seq<usize>)
    ensures
        all_wide(reading(partitions), columns) <==> each_wide(partitions, columns),
    decreases partitions.len(),
{
    if partitions.len() > 0 {
        let shorter = partitions.drop_last();
        let last = partitions.last();
        let head = reading(shorter);
        let all = reading(partitions);
        lemma_wide_by_partition(shorter, columns);
        assert(all =~= head + last);
        if all_wide(all, columns) {
            assert forall|i: int| 0 <= i < head.len() implies admits(
                batch_columns(#[trigger] head[i]).len(),
                columns,
            ) by {
                assert(all[i] == head[i]);
            }
            assert forall|p: int, b: int|
                #![trigger partitions[p][b]]
                0 <= p < partitions.len() && 0 <= b < partitions[p].len() implies admits(
                batch_columns(partitions[p][b]).len(),
                columns,
            ) by {
                if p < shorter.len() {
                    assert(shorter[p][b] == partitions[p][b]);
                } else {
                    assert(all[head.len() + b] == last[b]);
                }
            }
        }
        if each_wide(partitions, columns) {
            assert forall|p: int, b: int|
                #![trigger shorter[p][b]]
                0 <= p < shorter.len() && 0 <= b < shorter[p].len() implies admits(
                batch_columns(shorter[p][b]).len(),
                columns,
            ) by {
                assert(shorter[p][b] == partitions[p][b]);
            }
            assert forall|i: int| 0 <= i < all.len() implies admits(
                batch_columns(#[trigger] all[i]).len(),
                columns,
            ) by {
                if i < head.len() {
                    assert(all[i] == head[i]);
                } else {
                    assert(all[i] == partitions[partitions.len() - 1][i - head.len()]);
                }
            }
        }
    }
}

/// Whether batch `at` is the first that lacks one of the columns.
pub open spec fn first_narrow(batches: Seq<Batch>, columns: Seq<usize>, at: int) -> bool {
    &&& 0 <= at < batches.len()
    &&& !admits(batch_columns(batches[at]).len(), columns)
    &&& forall|i: int| 0 <= i < at ==> admits(batch_columns(#[trigger] batches[i]).len(), columns)
}

/// Whether `error` names the first index of `columns` that is out of range
/// for the first batch that lacks a column.
pub open spec fn names_narrow(batches: Seq<Batch>, columns: Seq<usize>, error: SourceError) -> bool {
    exists|at: int, j: int|
        {
            &&& first_narrow(batches, columns, at)
            &&& first_misfit(batch_columns(batches[at]).len(), columns, j)
            &&& error == (SourceError::Index {
                index: #[trigger] columns[j],
                len: batch_columns(#[trigger] batches[at]).len() as usize,
            })
        }
}

/// Measures one batch in the given columns.
fn measure_batch(batch: &Batch, columns: &Vec<usize>) -> (r: BatchMeasure)
    requires
        admits(batch_columns(*batch).len(), columns@),
    ensures
        measures_batch(*batch, columns@, r@),
{
    let mut nulls: Vec<usize> = Vec::new();
    let mut bytes: Vec<usize> = Vec::new();
    let mut j: usize = 0;
    while j < columns.len()
        invariant
            j <= columns.len(),
            admits(batch_columns(*batch).len(), columns@),
            nulls.len() == j,
            bytes.len() == j,
            forall|a: int|
                0 <= a < j ==> (#[trigger] nulls[a]) == nulls_in(
                    batch_columns(*batch)[columns[a] as int].cells,
                ),
        decreases columns.len() - j,
    {
        bytes.push(column_bytes(batch, columns[j]));
        nulls.push(column_nulls(batch, columns[j]).unwrap_or(0));
        j += 1;
    }
    BatchMeasure { rows: row_count(batch), nulls, bytes }
}

/// Measures every batch of every partition in the given columns. It fails
/// exactly where a batch lacks one of the columns, at the first such batch.
pub fn measure(partitions: &[Vec<Batch>], columns: &Vec<usize>) -> (r: Result<
    Vec<BatchMeasure>,
    SourceError,
>)
    ensures
        r is Ok <==> all_wide(reading(partitions_view(partitions@)), columns@),
        match r {
            Ok(measures) => measured(
                reading(partitions_view(partitions@)),
                columns@,
                measures_view(measures@),
            ),
            Err(error) => names_narrow(reading(partitions_view(partitions@)), columns@, error),
        },
{
    let ghost parts = partitions_view(partitions@);
    let mut measures: Vec<BatchMeasure> = Vec::new();
    let mut p: usize = 0;
    while p < partitions.len()
        invariant
            p <= partitions.len(),
            parts == partitions_view(partitions@),
            measured(reading(parts.take(p as int)), columns@, measures_view(measures@)),
            forall|i: int|
                0 <= i < reading(parts.take(p as int)).len() ==> admits(
                    batch_columns(#[trigger] reading(parts.take(p as int))[i]).len(),
                    columns@,
                ),
        decreases partitions.len() - p,
    {
        let partition = &partitions[p];
        let ghost before = reading(parts.take(p as int));
        let mut b: usize = 0;
        while b < partition.len()
            invariant
                p < partitions.len(),
                b <= partition.len(),
                partition == &partitions[p as int],
                parts == partitions_view(partitions@),
                before == reading(parts.take(p as int)),
                measured(before + partition@.take(b as int), columns@, measures_view(measures@)),
                forall|i: int|
                    0 <= i < (before + partition@.take(b as int)).len() ==> admits(
                        batch_columns(#[trigger] (before + partition@.take(b as int))[i]).len(),
                        columns@,
                    ),
            decreases partition.len() - b,
        {
            let ghost done = before + partition@.take(b as int);
            let ghost next = before + partition@.take(b + 1);
            let ghost rest = reading(parts);
            proof {
                assert(next =~= done.push(partition[b as int]));
                lemma_reading_holds(parts, p as int, b as int);
            }
            let width = column_count(&partition[b]);
            match find_misfit(columns, width) {
                Some(j) => {
                    proof {
                        let at = done.len() as int;
                        assert(rest[at] == partition[b as int]);
                        assert forall|i: int| 0 <= i < at implies admits(
                            batch_columns(#[trigger] rest[i]).len(),
                            columns@,
                        ) by {
                            assert(rest[i] == done[i]);
                        }
                        assert(first_narrow(rest, columns@, at));
                    }
                    return Err(SourceError::Index { index: columns[j], len: width });
                },
                None => {},
            }
            let one = measure_batch(&partition[b], columns);
            let ghost earlier = measures_view(measures@);
            measures.push(one);
            proof {
                let view = measures_view(measures@);
                assert forall|i: int| 0 <= i < next.len() implies measures_batch(
                    next[i],
                    columns@,
                    #[trigger] view[i],
                ) by {
                    if i < done.len() {
                        assert(next[i] == done[i]);
                        assert(view[i] == earlier[i]);
                    }
                }
                assert forall|i: int| 0 <= i < next.len() implies admits(
                    batch_columns(#[trigger] next[i]).len(),
                    columns@,
                ) by {
                    if i < done.len() {
                        assert(next[i] == done[i]);
                    }
                }
            }
            b += 1;
        }
        proof {
            assert(partition@.take(partition.len() as int) =~= partition@);
            assert(parts.take(p + 1).drop_last() =~= parts.take(p as int));
            assert(parts.take(p + 1).last() == partition@);
        }
        p += 1;
    }
    assert(parts.take(partitions.len() as int) =~= parts);
    Ok(measures)
}

/// Batch `b` of partition `p` comes, in reading order, behind all batches of
/// the partitions before and the batches before it in its own partition.
pub proof fn lemma_reading_holds(partitions: Seq<Seq<Batch>>, p: int, b: int)
    requires
        0 <= p < partitions.len(),
        0 <= b < partitions[p].len(),
    ensures
        reading(partitions.take(p)).len() + b < reading(partitions).len(),
        reading(partitions)[reading(partitions.take(p)).len() + b] == partitions[p][b],
        forall|i: int|
            0 <= i < reading(partitions.take(p)).len() ==> reading(partitions)[i] == reading(
                partitions.take(p),
            )[i],
        forall|i: int|
            0 <= i < b ==> reading(partitions)[reading(partitions.take(p)).len() + i]
                == partitions[p][i],
    decreases partitions.len(),
{
    let shorter = partitions.drop_last();
    if p == partitions.len() - 1 {
        assert(partitions.take(p) =~= shorter);
    } else {
        lemma_reading_holds(shorter, p, b);
        assert(shorter.take(p) =~= partitions.take(p));
    }
}

/// The rows of `batches`, in all.
pub open spec fn rows_in(batches: Seq<Batch>) -> nat
    decreases batches.len(),
{
    if batches.len() == 0 {
        0
    } else {
        rows_in(batches.drop_last()) + batch_rows(batches.last())
    }
}

/// The nulls that `batches` hold in one column, in all.
pub open spec fn nulls_held(batches: Seq<Batch>, column: int) -> nat
    decreases batches.len(),
{
    if batches.len() == 0 {
        0
    } else {
        nulls_held(batches.drop_last(), column) + nulls_in(
            batch_columns(batches.last())[column].cells,
        )
    }
}

/// Measures of batches add up to what the batches hold: their rows, and the
/// nulls of each column looked at.
proof fn lemma_measures_add_up(batches: Seq<Batch>, columns: Seq<usize>, measures: Seq<MeasureModel>)
    requires
        measured(batches, columns, measures),
        columns.len() <= usize::MAX,
    ensures
        total(measures, Part::Rows) == rows_in(batches),
        forall|j: int|
            0 <= j < columns.len() ==> #[trigger] total(measures, Part::Nulls(j as usize))
                == nulls_held(batches, columns[j] as int),
    decreases batches.len(),
{
    if batches.len() > 0 {
        lemma_measures_add_up(batches.drop_last(), columns, measures.drop_last());
        assert(measures_batch(batches.last(), columns, measures.last()));
        assert forall|j: int| 0 <= j < columns.len() implies #[trigger] total(
            measures,
            Part::Nulls(j as usize),
        ) == nulls_held(batches, columns[j] as int) by {
            assert(total(measures.drop_last(), Part::Nulls(j as usize)) == nulls_held(
                batches.drop_last(),
                columns[j] as int,
            ));
            assert(measures.last().nulls[j] == nulls_in(
                batch_columns(batches.last())[columns[j] as int].cells,
            ));
        }
    }
}

/// What taking the statistics of `batches` in `columns` comes to. Exactly
/// where a batch lacks one of the columns, the first such batch and its first
/// missing column are named. Else there is a measure of every batch, with
/// arrow's word for the bytes, and either a total of them does not fit the
/// machine's word, or the statistics give the totals as exact values: the
/// rows of all batches, the bytes, and for each column the nulls that the
/// batches hold in it.
pub open spec fn takes_stock(
    batches: Seq<Batch>,
    columns: Seq<usize>,
    outcome: Result<Statistics, SourceError>,
) -> bool {
    match outcome {
        Ok(statistics) => {
            &&& all_wide(batches, columns)
            &&& statistics.num_rows == Precision::Exact(rows_in(batches) as usize)
            &&& rows_in(batches) <= usize::MAX
            &&& statistics.total_byte_size is Exact
            &&& statistics.column_statistics.len() == columns.len()
            &&& forall|j: int|
                0 <= j < columns.len() ==> (#[trigger] statistics.column_statistics[j]).null_count
                    == Precision::Exact(nulls_held(batches, columns[j] as int) as usize)
            &&& exists|measures: Seq<MeasureModel>|
                {
                    &&& #[trigger] measured(batches, columns, measures)
                    &&& totals_fit(measures, columns.len())
                    &&& sums_up(measures, columns.len(), statistics)
                }
        },
        Err(SourceError::Overflow) => {
            &&& all_wide(batches, columns)
            &&& exists|measures: Seq<MeasureModel>|
                #[trigger] measured(batches, columns, measures) && !totals_fit(
                    measures,
                    columns.len(),
                )
        },
        Err(error) => !all_wide(batches, columns) && names_narrow(batches, columns, error),
    }
}

/// The columns that statistics are taken of: those of the projection, or
/// every field of the schema where there is none.
pub open spec fn looked_at(fields: nat, projection: Option<Seq<usize>>) -> Seq<usize> {
    match projection {
        Some(columns) => columns,
        None => Seq::new(fields, |j: int| j as usize),
    }
}

/// Takes the statistics of the batches of all partitions in the columns of
/// the projection, or in every column of the schema where there is none: the
/// rows, the nulls of each column and the bytes that the columns take up as
/// arrow reports them, summed up as exact values. It fails at the first batch
/// that lacks one of the columns, and where a total does not fit the
/// machine's word.
pub fn compute_record_batch_statistics(
    batches: &[Vec<Batch>],
    schema: &Arc<Schema>,
    projection: Option<Vec<usize>>,
) -> (r: Result<Statistics, SourceError>)
    ensures
        takes_stock(
            reading(partitions_view(batches@)),
            looked_at(fields_of(schema).len(), indices_of(projection)),
            r,
        ),
        r matches Err(SourceError::Index { .. }) <==> !each_wide(
            partitions_view(batches@),
            looked_at(fields_of(schema).len(), indices_of(projection)),
        ),
{
    proof {
        lemma_wide_by_partition(
            partitions_view(batches@),
            looked_at(fields_of(schema).len(), indices_of(projection)),
        );
    }
    let ghost wanted = looked_at(fields_of(schema).len(), indices_of(projection));
    let columns = match projection {
        Some(columns) => columns,
        None => {
            let fields = field_count(schema);
            let mut all: Vec<usize> = Vec::new();
            let mut j: usize = 0;
            while j < fields
                invariant
                    j <= fields,
                    all.len() == j,
                    forall|a: int| 0 <= a < j ==> all[a] == a,
                decreases fields - j,
            {
                all.push(j);
                j += 1;
            }
            assert(all@ =~= looked_at(fields as nat, None));
            all
        },
    };
    assert(columns@ == wanted);
    let measures = match measure(batches, &columns) {
        Ok(measures) => measures,
        Err(error) => {
            return Err(error);
        },
    };
    let ghost view = measures_view(measures@);
    assert(all_of_width(view, columns.len() as nat)) by {
        assert forall|i: int| 0 <= i < view.len() implies (#[trigger] view[i]).nulls.len()
            == columns.len() && view[i].bytes.len() == columns.len() by {
            assert(measures_batch(reading(partitions_view(batches@))[i], columns@, view[i]));
        }
    }
    let r = summarize(&measures, columns.len());
    proof {
        let all = reading(partitions_view(batches@));
        assert(measured(all, columns@, view));
        lemma_measures_add_up(all, columns@, view);
        if r is Ok {
            let statistics = r->Ok_0;
            assert forall|j: int| 0 <= j < columns.len() implies (
            #[trigger] statistics.column_statistics[j]).null_count == Precision::Exact(
                nulls_held(all, columns[j] as int) as usize,
            ) by {
                assert(total(view, Part::Nulls(j as usize)) == nulls_held(all, columns[j] as int));
            }
        }
    }
    r
}

} // verus!
