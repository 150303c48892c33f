//! Binding of SQL parameters from the fields of reflected structs, and
//! projection of query rows back into typed values, on top of rusqlite.
//!
//! - [`params`] decides which value each parameter of a prepared statement
//!   takes, and binds it.
//! - [`values`] turns field values into the SQLite values they are bound as.
//! - [`columns`] reads the columns of a result row into the fields of a
//!   typed value.
//! - [`rows`] decides the outcome of a query that wants at most one row.
//! - [`error`] holds the error type, its model and its messages.

pub mod columns;
pub mod error;
pub mod facet_types;
pub mod params;
pub mod rows;
pub mod sqlite;
pub mod text;
pub mod values;

pub use columns::{
    checked_unsigned, deserialize_column, deserialize_row_into, find_column_index, ColumnValue,
    FieldTarget, ScalarKind, TargetKind, TargetShape,
};
pub use error::{with_sql_context, Error, SqlType};
pub use params::{
    bind_facet_params_impl, bind_list_like_params, resolve_named_params,
    resolve_positional_params,
};
pub use rows::{one_row, OptionalRow, RowAction, RowEvent};
pub use values::{peek_to_sql_value, ParamScalar, SqlParam};

use vstd::prelude::*;

verus! {

/// The result type of the library.
pub type Result<T> = core::result::Result<T, Error>;

} // verus!
