//! The lazy producer over one partition: projection and the row budget.

use crate::batch::{
    batch_conforms, column_count, copy_batch, project_batch, row_count, slice_batch, Batch,
    BatchModel,
};
use crate::error::SourceError;
use crate::projection::{admits_opt, find_misfit, first_misfit, indices_of, select_opt};
use crate::schema::{fields_of, share_schema, FieldModel};
use arrow::datatypes::Schema;
use datafusion_execution::memory_pool::MemoryReservation;
use std::sync::Arc;
use vstd::prelude::*;

verus! {

/// datafusion's `MemoryReservation`. Verus sees nothing inside it.
#[verifier::external_type_specification]
#[verifier::external_body]
pub struct ExMemoryReservation(MemoryReservation);

/// A producer over the batches of one partition. It hands the batches out
/// one by one, projected, until they or the row budget run out.
pub struct MockMemoryStream {
    /// The partition's batches.
    data: Vec<Batch>,
    /// A reservation of memory for the data, given back when the stream is
    /// dropped.
    _reservation: Option<MemoryReservation>,
    /// The schema of the batches handed out.
    schema: Arc<Schema>,
    /// The columns to hand out, all of them where there is none.
    projection: Option<Vec<usize>>,
    /// The position of the next batch.
    index: usize,
    /// The rows still to hand out, without a bound where there is none.
    fetch: Option<usize>,
}

/// What a stream holds.
pub struct StreamModel {
    pub data: Seq<Batch>,
    /// Whether a reservation of memory is attached.
    pub reserved: bool,
    pub fields: Seq<FieldModel>,
    pub projection: Option<Seq<usize>>,
    pub index: nat,
    pub fetch: Option<usize>,
}

impl StreamModel {
    /// Whether the cursor lies within the batches or right behind them.
    pub open spec fn wf(self) -> bool {
        self.index <= self.data.len()
    }

    /// Whether the cursor has passed the last batch.
    pub open spec fn exhausted(self) -> bool {
        self.index >= self.data.len()
    }

    /// The batch at the cursor.
    pub open spec fn current(self) -> BatchModel {
        self.data[self.index as int]@
    }

    /// Whether the projection fits the batch at the cursor.
    pub open spec fn fits(self) -> bool {
        admits_opt(self.current().columns.len(), self.projection)
    }

    /// The batch at the cursor, projected.
    pub open spec fn shaped(self) -> BatchModel {
        self.current().select_opt(self.projection)
    }

    /// The stream with the cursor moved on by one batch.
    pub open spec fn advanced(self) -> StreamModel {
        StreamModel { index: self.index + 1, ..self }
    }

    /// Whether a call can report the end: the batches have run out, or the
    /// budget has while the batch at the cursor could still be projected.
    pub open spec fn ends(self) -> bool {
        self.exhausted() || (self.fits() && self.fetch == Some(0usize))
    }

    /// What a call hands out where the batch at the cursor can be projected:
    /// nothing at the end, else the projected batch, cut to the budget.
    pub open spec fn yields(self) -> Option<BatchModel> {
        if self.exhausted() {
            None
        } else {
            match self.fetch {
                None => Some(self.shaped()),
                Some(budget) => if budget == 0 {
                    None
                } else if self.shaped().rows > budget {
                    Some(self.shaped().head(budget as nat))
                } else {
                    Some(self.shaped())
                },
            }
        }
    }

    /// The stream after a call where the batch at the cursor can be
    /// projected. Where the batches had run out nothing changes. Where the
    /// budget had, the stream is put at its end for good: the cursor goes
    /// behind the last batch. Else the cursor has moved on by one batch and
    /// the budget is less by the rows handed out.
    pub open spec fn follows(self) -> StreamModel {
        if self.exhausted() {
            self
        } else {
            match self.fetch {
                None => self.advanced(),
                Some(budget) => if budget == 0 {
                    StreamModel { index: self.data.len(), ..self }
                } else if self.shaped().rows > budget {
                    StreamModel { fetch: Some(0usize), ..self.advanced() }
                } else {
                    StreamModel {
                        fetch: Some((budget - self.shaped().rows) as usize),
                        ..self.advanced()
                    }
                },
            }
        }
    }

    /// Whether no call can fail from here on: the projection fits every
    /// batch from the cursor on and, where there is one, each of these
    /// batches conforms to its own schema.
    pub open spec fn clean_onward(self) -> bool {
        forall|i: int|
            self.index <= i < self.data.len() ==> {
                &&& admits_opt((#[trigger] self.data[i])@.columns.len(), self.projection)
                &&& self.projection is Some ==> batch_conforms(self.data[i])
            }
    }

    /// The stream after `calls` calls, none of which has failed.
    pub open spec fn after(self, calls: nat) -> StreamModel
        decreases calls,
    {
        if calls == 0 {
            self
        } else {
            self.follows().after((calls - 1) as nat)
        }
    }

    /// The batches that a consumer gets who calls until the end is reported,
    /// where no call fails.
    pub open spec fn emitted(self) -> Seq<BatchModel>
        decreases self.data.len() - self.index,
    {
        if self.exhausted() {
            Seq::empty()
        } else {
            match self.yields() {
                None => Seq::empty(),
                Some(batch) => seq![batch] + self.follows().emitted(),
            }
        }
    }

    /// The batch at position `i` behind the cursor, projected.
    pub open spec fn source(self, i: int) -> BatchModel {
        self.data[self.index + i]@.select_opt(self.projection)
    }

    /// Whether a call fails with `error`: the projection holds an index out
    /// of range for the batch at the cursor, the first such is named; or all
    /// are in range and arrow refused a batch that does not conform.
    pub open spec fn fails_with(self, error: SourceError) -> bool {
        &&& !self.exhausted()
        &&& self.projection matches Some(indices)
        &&& match error {
            SourceError::Index { index, len } => {
                &&& len == self.current().columns.len()
                &&& exists|at: int|
                    first_misfit(len as nat, indices, at) && #[trigger] indices[at] == index
            },
            SourceError::Batch => self.fits() && !batch_conforms(self.data[self.index as int]),
            _ => false,
        }
    }
}

impl MockMemoryStream {
    /// What the stream holds.
    pub closed spec fn view(&self) -> StreamModel {
        StreamModel {
            data: self.data@,
            reserved: self._reservation is Some,
            fields: fields_of(&self.schema),
            projection: indices_of(self.projection),
            index: self.index as nat,
            fetch: self.fetch,
        }
    }

    /// Whether the stream is in order. Every stream is.
    #[verifier::type_invariant]
    pub open spec fn wf(&self) -> bool {
        self@.wf()
    }

    /// A stream over `data` that hands out the columns of `projection`, with
    /// `schema` as the schema of what it hands out, from the first batch on,
    /// without a row budget and without a reservation of memory.
    pub fn try_new(data: Vec<Batch>, schema: Arc<Schema>, projection: Option<Vec<usize>>) -> (r:
        Result<Self, SourceError>)
        ensures
            r matches Ok(stream) && stream.wf() && stream@ == (StreamModel {
                data: data@,
                reserved: false,
                fields: fields_of(&schema),
                projection: indices_of(projection),
                index: 0,
                fetch: None,
            }),
    {
        Ok(Self { data, _reservation: None, schema, projection, index: 0, fetch: None })
    }

    /// Sets the number of rows to hand out.
    pub fn with_fetch(self, fetch: Option<usize>) -> (r: Self)
        ensures
            r@ == (StreamModel { fetch, ..self@ }),
    {
        proof {
            use_type_invariant(&self);
        }
        let mut stream = self;
        stream.fetch = fetch;
        stream
    }

    /// The number of batches behind the cursor, as a lower and an upper
    /// bound of what is still to come. It counts batches, not rows.
    pub fn size_hint(&self) -> (r: (usize, Option<usize>))
        ensures
            self.wf(),
            r.0 == self@.data.len() - self@.index,
            r.1 == Some(r.0),
    {
        proof {
            use_type_invariant(self);
        }
        let left = self.data.len() - self.index;
        (left, Some(left))
    }

    /// The schema of the batches handed out.
    pub fn schema(&self) -> (r: Arc<Schema>)
        ensures
            fields_of(&r) == self@.fields,
    {
        share_schema(&self.schema)
    }

    /// Produces the next item. At the end it gives `None`. Else it takes the
    /// batch at the cursor, moves the cursor on and projects the batch, which
    /// fails where the projection does not fit. Without a budget the batch
    /// goes out as it is. With a budget of zero the call reports the end and
    /// puts the stream there for good; with less budget than the batch has
    /// rows, the first rows go out and the budget is spent; else the whole
    /// batch goes out and the budget is less by its rows. Once the end is
    /// reported, every later call reports it. A failure ends nothing: the
    /// next call goes on with the next batch.
    pub fn next(&mut self) -> (r: Option<Result<Batch, SourceError>>)
        ensures
            old(self).wf(),
            final(self).wf(),
            match r {
                None => {
                    &&& old(self)@.ends()
                    &&& final(self)@ == old(self)@.follows()
                    &&& final(self)@.exhausted()
                },
                Some(Ok(batch)) => {
                    &&& !old(self)@.exhausted()
                    &&& old(self)@.fits()
                    &&& old(self)@.yields() == Some(batch@)
                    &&& final(self)@ == old(self)@.follows()
                },
                Some(Err(error)) => old(self)@.fails_with(error) && final(self)@ == old(
                    self,
                )@.advanced(),
            },
            !old(self)@.exhausted() && !old(self)@.fits() ==> r matches Some(
                Err(SourceError::Index { .. }),
            ),
            old(self)@.projection is None || (!old(self)@.exhausted() && old(self)@.fits()
                && batch_conforms(old(self)@.data[old(self)@.index as int])) ==> !(r matches Some(
                Err(_),
            )),
            old(self)@.clean_onward() ==> final(self)@.clean_onward() && !(r matches Some(Err(_))),
            old(self)@.exhausted() ==> r is None && final(self)@ == old(self)@,
    {
        proof {
            use_type_invariant(&*self);
        }
        if self.index >= self.data.len() {
            return None;
        }
        self.index += 1;
        let taken = &self.data[self.index - 1];
        let batch = match &self.projection {
            Some(columns) => match project_batch(taken, columns) {
                Ok(batch) => batch,
                Err(_) => {
                    let width = column_count(taken);
                    return match find_misfit(columns, width) {
                        Some(at) => Some(Err(SourceError::Index { index: columns[at], len: width })),
                        None => Some(Err(SourceError::Batch)),
                    };
                },
            },
            None => copy_batch(taken),
        };
        let fetch = match self.fetch {
            Some(fetch) => fetch,
            None => {
                return Some(Ok(batch));
            },
        };
        if fetch == 0 {
            self.index = self.data.len();
            return None;
        }
        let rows = row_count(&batch);
        let batch = if rows > fetch {
            let cut = slice_batch(&batch, 0, fetch);
            assert(cut@.columns =~= batch@.head(fetch as nat).columns);
            cut
        } else {
            batch
        };
        let emitted = row_count(&batch);
        self.fetch = Some(fetch - emitted);
        Some(Ok(batch))
    }
}

/// The rows of the batches of `data` from position `from` on, in all.
pub open spec fn rows_from(data: Seq<Batch>, from: nat) -> nat
    decreases data.len() - from,
{
    if from >= data.len() {
        0
    } else {
        data[from as int]@.rows + rows_from(data, from + 1)
    }
}

/// The rows of `batches`, in all.
pub open spec fn rows_of(batches: Seq<BatchModel>) -> nat
    decreases batches.len(),
{
    if batches.len() == 0 {
        0
    } else {
        batches[0].rows + rows_of(batches.drop_first())
    }
}

/// The smaller of two numbers.
pub open spec fn least(a: nat, b: nat) -> nat {
    if a <= b {
        a
    } else {
        b
    }
}

/// The end is stable. A call that reports the end leaves the stream behind
/// its last batch, whether the batches or the budget ran out. From there no
/// call hands out a batch, none fails, and none changes the stream, however
/// many follow and whatever the batches and the projection are.
pub proof fn lemma_end_is_stable(stream: StreamModel, calls: nat)
    requires
        stream.wf(),
        stream.ends(),
    ensures
        stream.follows().exhausted(),
        stream.follows().after(calls) == stream.follows(),
        stream.follows().after(calls).yields() is None,
        forall|error: SourceError| !stream.follows().after(calls).fails_with(error),
    decreases calls,
{
    if calls > 0 {
        lemma_end_is_stable(stream.follows(), (calls - 1) as nat);
    }
}

/// A stream without a row budget hands out every row behind the cursor; one
/// with a budget hands out the budget or every row, whichever is less. This
/// holds where no call can fail.
pub proof fn lemma_budget_caps_rows(stream: StreamModel)
    requires
        stream.wf(),
        stream.clean_onward(),
    ensures
        rows_of(stream.emitted()) == match stream.fetch {
            None => rows_from(stream.data, stream.index),
            Some(budget) => least(budget as nat, rows_from(stream.data, stream.index)),
        },
    decreases stream.data.len() - stream.index,
{
    if !stream.exhausted() {
        let next = stream.follows();
        match stream.yields() {
            None => {},
            Some(batch) => {
                let rest = next.emitted();
                assert((seq![batch] + rest).drop_first() =~= rest);
                lemma_budget_caps_rows(next);
                if next.fetch == Some(0usize) && !next.exhausted() {
                    assert(next.yields() is None);
                }
            },
        }
    }
}

/// The rows of the batches of `data` from position `from` up to, and
/// without, position `to`, in all.
pub open spec fn rows_between(data: Seq<Batch>, from: nat, to: nat) -> nat
    decreases to - from,
{
    if from >= to {
        0
    } else {
        data[from as int]@.rows + rows_between(data, from + 1, to)
    }
}

/// Every batch handed out is the projected batch at its position, whole or
/// cut; and only the last one handed out can be cut. A cut batch holds the
/// first rows of the batch it came from, as many as the budget less the rows
/// of the batches before it, which is at least one row and fewer than the
/// batch has. This holds where no call can fail.
pub proof fn lemma_only_last_is_cut(stream: StreamModel, i: int)
    requires
        stream.wf(),
        stream.clean_onward(),
        0 <= i < stream.emitted().len(),
    ensures
        stream.index + i < stream.data.len(),
        i + 1 < stream.emitted().len() ==> stream.emitted()[i] == stream.source(i),
        stream.emitted()[i] != stream.source(i) ==> {
            &&& stream.fetch matches Some(budget)
            &&& i + 1 == stream.emitted().len()
            &&& 1 <= budget - rows_between(stream.data, stream.index, (stream.index + i) as nat)
                < stream.source(i).rows
            &&& stream.emitted()[i] == stream.source(i).head(
                (budget - rows_between(stream.data, stream.index, (stream.index + i) as nat)) as nat,
            )
        },
    decreases stream.data.len() - stream.index,
{
    let next = stream.follows();
    let batch = stream.yields()->Some_0;
    let rest = next.emitted();
    assert(stream.emitted() =~= seq![batch] + rest);
    if i == 0 {
        if batch != stream.shaped() {
            assert(rest.len() == 0);
        }
    } else {
        lemma_only_last_is_cut(next, i - 1);
        assert(next.source(i - 1) == stream.source(i));
        assert(stream.emitted()[i] == rest[i - 1]);
        assert(rows_between(stream.data, stream.index, (stream.index + i) as nat)
            == stream.shaped().rows + rows_between(
            next.data,
            next.index,
            (next.index + (i - 1)) as nat,
        ));
    }
}

/// What a call hands out has the fields that the projection picks from the
/// fields of the batch at the cursor, in the order of the projection. So
/// where that batch has the fields of a base schema and the stream's schema
/// is that schema projected, every batch handed out has exactly the fields of
/// the stream's schema.
pub proof fn lemma_handed_out_fields(stream: StreamModel, base: Seq<FieldModel>)
    requires
        !stream.exhausted(),
        stream.yields() is Some,
        stream.current().fields() == base,
        admits_opt(base.len(), stream.projection),
        stream.fields == select_opt(base, stream.projection),
    ensures
        stream.fits(),
        stream.yields()->Some_0.fields() == stream.fields,
{
    let batch = stream.yields()->Some_0;
    assert(stream.current().columns.len() == base.len());
    assert(batch.fields() =~= stream.fields) by {
        assert(stream.shaped().fields() =~= stream.fields);
    }
}

} // verus!
