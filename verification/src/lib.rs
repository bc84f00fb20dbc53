//! Handle-based bridge between a managed host runtime and a column-oriented
//! on-disk storage format.
//!
//! The crate holds the decisions of the bridge: the error taxonomy and its
//! host-visible signals, the handle registry, the schema builder, the row
//! assembly of the write path, the buffer flattener of the read path and the
//! column stream state machine. Each of them works on plain values.

pub mod error;
pub mod handle;
pub mod kind;
pub mod value;
pub mod schema;
pub mod writer;
pub mod flatten;
pub mod column;
