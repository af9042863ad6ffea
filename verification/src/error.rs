//! What can go wrong in the source and its streams.

use crate::sort::Column;
use vstd::prelude::*;

verus! {

/// The failures of the source and its streams.
#[derive(Debug, PartialEq, Eq)]
pub enum SourceError {
    /// A projection given at construction holds `index`, which is out of
    /// range for a schema of `fields` fields.
    Schema { index: usize, fields: usize },
    /// A declared ordering refers to `column`, which the base schema does not
    /// hold at that position under that name.
    Validation { column: Column },
    /// `index` is out of range for `len` partitions, or for the `len` columns
    /// of a batch.
    Index { index: usize, len: usize },
    /// arrow would not put the picked columns of a batch together again,
    /// because the batch does not conform to its own schema.
    Batch,
    /// A total of the statistics does not fit the machine's word.
    Overflow,
}

} // verus!
