//! A partition that replays its batches as they are, each time from the
//! start.

use crate::batch::{batch_schema, clone_batches, Batch};
use crate::schema::{fields_of, share_schema};
use crate::stream::{MockMemoryStream, StreamModel};
use arrow::datatypes::Schema;
use datafusion_execution::TaskContext;
use std::sync::Arc;
use vstd::prelude::*;

verus! {

/// A fixed list of batches under the schema of the first of them.
pub struct TestPartitionStream {
    pub schema: Arc<Schema>,
    pub batches: Vec<Batch>,
}

impl TestPartitionStream {
    /// A partition of the given batches. Its schema is that of the first
    /// batch, so there must be one.
    pub fn new_with_batches(batches: Vec<Batch>) -> (r: Self)
        requires
            batches.len() > 0,
        ensures
            r.batches == batches,
            fields_of(&r.schema) == batches[0]@.fields(),
    {
        let schema = batch_schema(&batches[0]);
        assert(fields_of(&schema) =~= batches[0]@.fields());
        Self { schema, batches }
    }

    /// The schema of the batches.
    pub fn schema(&self) -> (r: &Arc<Schema>)
        ensures
            r == &self.schema,
    {
        &self.schema
    }

    /// A new producer over all the batches, from the first on, without a
    /// projection or a row budget. Every call gives one of its own, whatever
    /// became of those given before. The context plays no part.
    pub fn execute(&self, _ctx: Arc<TaskContext>) -> (r: MockMemoryStream)
        ensures
            r.wf(),
            r@ == (StreamModel {
                data: self.batches@,
                reserved: false,
                fields: fields_of(&self.schema),
                projection: None,
                index: 0,
                fetch: None,
            }),
    {
        let data = clone_batches(&self.batches);
        match MockMemoryStream::try_new(data, share_schema(&self.schema), None) {
            Ok(stream) => stream,
            Err(_) => unreached(),
        }
    }
}

} // verus!
