//! A deterministic, in-memory, partitioned source of columnar record batches.
//!
//! The source supports column projection, a per-stream row limit and the
//! declaration of known sort orderings. Batches and schemas are arrow's; the
//! equivalence algebra that re-expresses orderings under a projection is
//! datafusion's. Everything else is verified here.

pub mod batch;
pub mod error;
pub mod fixtures;
pub mod partition_stream;
pub mod projection;
pub mod properties;
pub mod schema;
pub mod sort;
pub mod source;
pub mod statistics;
pub mod stream;
pub mod text;

pub use batch::Batch;
pub use error::SourceError;
pub use fixtures::{
    aggr_test_schema, build_table_i32, build_table_i32_two_cols, build_table_scan_i32,
    make_partition, scan_partitioned,
};
pub use partition_stream::TestPartitionStream;
pub use source::{DisplayFormatType, MockMemorySourceConfig};
pub use stream::MockMemoryStream;
