//! An in-memory, strongly-typed tabular data container.
//!
//! A row type describes its own schema through the [`TableRow`] trait:
//! field names, field type labels, and a per-instance string projection of
//! every field. The [`Table`] trait builds a generic container on top of
//! that capability, with insertion, positional access, column projection,
//! removal, and a fixed-width ASCII rendering. [`IdTable`] adds lookup by a
//! caller-supplied identifier field.

pub mod error;
pub mod render;
pub mod row;
pub mod table;

pub use row::TableRow;
pub use table::get_size;
pub use table::IdTable;
pub use table::Table;
pub use table::VecTable;
