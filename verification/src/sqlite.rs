//! The parts of rusqlite that the library calls, with the contracts that the
//! library relies on.
//!
//! A prepared statement is modelled by the names of its parameters and by the
//! values bound to them; a result row by the values and the names of its
//! columns.

use vstd::prelude::*;
use vstd::utf8::{decode_utf8, valid_utf8};
use rusqlite::Error as SqliteError;
use rusqlite::types::Value as SqlValue;
use rusqlite::types::ValueRef;
use rusqlite::{Row, Statement};
use crate::error::SqlType;

verus! {

/// A prepared statement of rusqlite.
#[verifier::external_type_specification]
#[verifier::external_body]
pub struct ExStatement<'conn>(Statement<'conn>);

/// An error of rusqlite.
#[verifier::external_type_specification]
#[verifier::external_body]
pub struct ExSqliteError(SqliteError);

/// A value that can be bound to a parameter of a statement.
#[verifier::external_type_specification]
#[verifier::external_body]
pub struct ExSqlValue(SqlValue);

/// A result row of a query.
#[verifier::external_type_specification]
#[verifier::external_body]
pub struct ExRow<'stmt>(Row<'stmt>);

/// The names of a statement's parameters, in parameter order (the name of
/// parameter `k + 1` at `k`): `None` for an unnamed (`?`) parameter. They
/// come from the SQL text the statement was prepared from.
pub uninterp spec fn statement_param_names(stmt: Statement<'_>) -> Seq<Option<Seq<char>>>;

/// The values bound to a statement's parameters, by parameter number (from
/// 1); a parameter that is not in the map is bound to NULL.
pub uninterp spec fn statement_bindings(stmt: Statement<'_>) -> Map<int, SqlValue>;

/// No parameter bound: all are NULL.
pub open spec fn no_bindings() -> Map<int, SqlValue> {
    Map::empty()
}

/// The value held by a column of a result row.
pub enum Cell {
    Null,
    Integer(i64),
    /// A floating-point value.
    Real,
    /// Text, by its bytes (which SQLite does not check to be UTF-8).
    Text(Seq<u8>),
    Blob(Seq<u8>),
}

/// The values of the columns of a result row, in column order.
pub uninterp spec fn row_cells(row: Row<'_>) -> Seq<Cell>;

/// The names of the columns of the statement a row comes from, in column
/// order: `None` for a name that is not valid UTF-8.
pub uninterp spec fn row_column_names(row: Row<'_>) -> Seq<Option<Seq<char>>>;

/// The storage class of a cell.
pub open spec fn cell_type(c: Cell) -> SqlType {
    match c {
        Cell::Null => SqlType::Null,
        Cell::Integer(_) => SqlType::Integer,
        Cell::Real => SqlType::Real,
        Cell::Text(_) => SqlType::Text,
        Cell::Blob(_) => SqlType::Blob,
    }
}

/// The name of column `idx` of `row` can be read without a panic: rusqlite
/// panics on a column name that is not UTF-8.
pub open spec fn column_name_readable(row: Row<'_>, idx: usize) -> bool {
    idx < row_column_names(row).len() ==> row_column_names(row)[idx as int] is Some
}

/// The number of parameters of a statement (`Statement::parameter_count`,
/// SQLite's `sqlite3_bind_parameter_count`, a C `int` that is never
/// negative).
#[verifier::external_body]
pub(crate) fn parameter_count(stmt: &Statement<'_>) -> (r: usize)
    ensures
        r == statement_param_names(*stmt).len(),
        r <= i32::MAX,
{
    stmt.parameter_count()
}

/// Unbinds every parameter of a statement (`Statement::clear_bindings`,
/// SQLite's `sqlite3_clear_bindings`): all are NULL afterwards.
#[verifier::external_body]
pub(crate) fn clear_bindings(stmt: &mut Statement<'_>)
    ensures
        statement_param_names(*final(stmt)) == statement_param_names(*old(stmt)),
        statement_bindings(*final(stmt)) == no_bindings(),
{
    stmt.clear_bindings()
}

/// The name of the parameter numbered `index` (from 1) of a statement
/// (`Statement::parameter_name`): `None` for an unnamed parameter or an index
/// out of range. `parameter_name` panics on a name that is not UTF-8, which
/// cannot occur, since the SQL text the names come from was a `&str`. It
/// passes the index to SQLite as a C `int`, so the index must fit in one.
#[verifier::external_body]
pub(crate) fn parameter_name(stmt: &Statement<'_>, index: usize) -> (r: Option<String>)
    requires
        index <= i32::MAX,
    ensures
        1 <= index <= statement_param_names(*stmt).len() ==> match r {
            Some(s) => statement_param_names(*stmt)[index - 1] == Some(s@),
            None => statement_param_names(*stmt)[index - 1] is None,
        },
        !(1 <= index <= statement_param_names(*stmt).len()) ==> r is None,
{
    stmt.parameter_name(index).map(str::to_owned)
}

/// Binds `value` to the parameter numbered `index` (from 1) of a statement
/// (`Statement::raw_bind_parameter`). On success that parameter holds
/// `value` and no other changes; SQLite may refuse the binding (an index out
/// of range, a value too large), and then the other parameters are
/// unchanged and nothing is stated of this one. The index is passed to
/// SQLite as a C `int`, so it must fit in one.
#[verifier::external_body]
pub(crate) fn bind_value(stmt: &mut Statement<'_>, index: usize, value: &SqlValue) -> (r: Result<
    (),
    SqliteError,
>)
    requires
        index <= i32::MAX,
    ensures
        statement_param_names(*final(stmt)) == statement_param_names(*old(stmt)),
        r is Ok ==> statement_bindings(*final(stmt)) == statement_bindings(*old(stmt)).insert(
            index as int,
            *value,
        ),
        r is Err ==> statement_bindings(*final(stmt)).remove(index as int)
            == statement_bindings(*old(stmt)).remove(index as int),
{
    stmt.raw_bind_parameter(index, value)
}

/// The storage class of column `idx` of a row (`Row::get_ref`, told apart
/// by the variant of the `ValueRef` it gives); an error for an index out of
/// range.
#[verifier::external_body]
pub(crate) fn column_type(row: &Row<'_>, idx: usize) -> (r: Result<SqlType, SqliteError>)
    ensures
        r is Ok == (row_cells(*row).len() > idx),
        r matches Ok(t) ==> t == cell_type(row_cells(*row)[idx as int]),
{
    match row.get_ref(idx) {
        Ok(ValueRef::Null) => Ok(SqlType::Null),
        Ok(ValueRef::Integer(_)) => Ok(SqlType::Integer),
        Ok(ValueRef::Real(_)) => Ok(SqlType::Real),
        Ok(ValueRef::Text(_)) => Ok(SqlType::Text),
        Ok(ValueRef::Blob(_)) => Ok(SqlType::Blob),
        Err(e) => Err(e),
    }
}

/// The integer that column `idx` of `row` holds, if it holds one.
pub open spec fn cell_integer(row: Row<'_>, idx: usize) -> Option<i64> {
    if idx < row_cells(row).len() {
        match row_cells(row)[idx as int] {
            Cell::Integer(i) => Some(i),
            _ => None,
        }
    } else {
        None
    }
}

/// Column `idx` of a row read as a `bool` (`Row::get::<_, bool>`): an
/// integer, true when not 0; anything else is an error. `Row::get` panics,
/// on an error, where the column's name is not UTF-8.
#[verifier::external_body]
pub(crate) fn row_get_bool(row: &Row<'_>, idx: usize) -> (r: Result<bool, SqliteError>)
    requires
        column_name_readable(*row, idx),
    ensures
        match cell_integer(*row, idx) {
            Some(i) => r == Ok::<bool, SqliteError>(i != 0),
            None => r is Err,
        },
{
    row.get::<usize, bool>(idx)
}

/// Column `idx` of a row read as an `i8` (`Row::get::<_, i8>`): an integer
/// in `i8`'s range; anything else is an error. `Row::get` panics, on an
/// error, where the column's name is not UTF-8.
#[verifier::external_body]
pub(crate) fn row_get_i8(row: &Row<'_>, idx: usize) -> (r: Result<i8, SqliteError>)
    requires
        column_name_readable(*row, idx),
    ensures
        match cell_integer(*row, idx) {
            Some(i) => if i8::MIN <= i <= i8::MAX {
                r == Ok::<i8, SqliteError>(i as i8)
            } else {
                r is Err
            },
            None => r is Err,
        },
{
    row.get::<usize, i8>(idx)
}

/// Column `idx` of a row read as an `i16` (`Row::get::<_, i16>`): an
/// integer in `i16`'s range; anything else is an error. `Row::get` panics,
/// on an error, where the column's name is not UTF-8.
#[verifier::external_body]
pub(crate) fn row_get_i16(row: &Row<'_>, idx: usize) -> (r: Result<i16, SqliteError>)
    requires
        column_name_readable(*row, idx),
    ensures
        match cell_integer(*row, idx) {
            Some(i) => if i16::MIN <= i <= i16::MAX {
                r == Ok::<i16, SqliteError>(i as i16)
            } else {
                r is Err
            },
            None => r is Err,
        },
{
    row.get::<usize, i16>(idx)
}

/// Column `idx` of a row read as an `i32` (`Row::get::<_, i32>`): an
/// integer in `i32`'s range; anything else is an error. `Row::get` panics,
/// on an error, where the column's name is not UTF-8.
#[verifier::external_body]
pub(crate) fn row_get_i32(row: &Row<'_>, idx: usize) -> (r: Result<i32, SqliteError>)
    requires
        column_name_readable(*row, idx),
    ensures
        match cell_integer(*row, idx) {
            Some(i) => if i32::MIN <= i <= i32::MAX {
                r == Ok::<i32, SqliteError>(i as i32)
            } else {
                r is Err
            },
            None => r is Err,
        },
{
    row.get::<usize, i32>(idx)
}

/// Column `idx` of a row read as an `i64` (`Row::get::<_, i64>`): an
/// integer; anything else is an error. `Row::get` panics, on an error, where
/// the column's name is not UTF-8.
#[verifier::external_body]
pub(crate) fn row_get_i64(row: &Row<'_>, idx: usize) -> (r: Result<i64, SqliteError>)
    requires
        column_name_readable(*row, idx),
    ensures
        match cell_integer(*row, idx) {
            Some(i) => r == Ok::<i64, SqliteError>(i),
            None => r is Err,
        },
{
    row.get::<usize, i64>(idx)
}

/// The text bytes that column `idx` of `row` holds, if it holds text.
pub open spec fn cell_text(row: Row<'_>, idx: usize) -> Option<Seq<u8>> {
    if idx < row_cells(row).len() {
        match row_cells(row)[idx as int] {
            Cell::Text(t) => Some(t),
            _ => None,
        }
    } else {
        None
    }
}

/// The bytes that column `idx` of `row` holds, if it holds a blob.
pub open spec fn cell_blob(row: Row<'_>, idx: usize) -> Option<Seq<u8>> {
    if idx < row_cells(row).len() {
        match row_cells(row)[idx as int] {
            Cell::Blob(b) => Some(b),
            _ => None,
        }
    } else {
        None
    }
}

/// Column `idx` of a row read as a `String` (`Row::get::<_, String>`): text
/// that is valid UTF-8, decoded; anything else is an error. `Row::get`
/// panics, on an error, where the column's name is not UTF-8.
#[verifier::external_body]
pub(crate) fn row_get_string(row: &Row<'_>, idx: usize) -> (r: Result<String, SqliteError>)
    requires
        column_name_readable(*row, idx),
    ensures
        match cell_text(*row, idx) {
            Some(t) => if valid_utf8(t) {
                r matches Ok(s) && s@ == decode_utf8(t)
            } else {
                r is Err
            },
            None => r is Err,
        },
{
    row.get::<usize, String>(idx)
}

/// Column `idx` of a row read as bytes (`Row::get::<_, Vec<u8>>`): a blob;
/// anything else is an error. `Row::get` panics, on an error, where the
/// column's name is not UTF-8.
#[verifier::external_body]
pub(crate) fn row_get_blob(row: &Row<'_>, idx: usize) -> (r: Result<Vec<u8>, SqliteError>)
    requires
        column_name_readable(*row, idx),
    ensures
        match cell_blob(*row, idx) {
            Some(b) => r matches Ok(v) && v@ == b,
            None => r is Err,
        },
{
    row.get::<usize, Vec<u8>>(idx)
}

/// The number of columns of the statement a row comes from
/// (`Statement::column_count`, SQLite's `sqlite3_column_count`, a C `int`
/// that is never negative).
#[verifier::external_body]
pub(crate) fn column_count(row: &Row<'_>) -> (r: usize)
    ensures
        r <= i32::MAX,
        r == row_column_names(*row).len(),
        r == row_cells(*row).len(),
{
    let stmt: &Statement<'_> = row.as_ref();
    stmt.column_count()
}

/// The name of column `idx` of the statement a row comes from
/// (`Statement::column_name`), or `None` for an index out of range, where
/// it gives an error. It panics on a name that is not UTF-8. The index is
/// passed to SQLite as a C `int`, so it must fit in one.
#[verifier::external_body]
pub(crate) fn column_name(row: &Row<'_>, idx: usize) -> (r: Option<String>)
    requires
        idx <= i32::MAX,
        column_name_readable(*row, idx),
    ensures
        r is Some == (row_column_names(*row).len() > idx),
        r matches Some(s) ==> row_column_names(*row)[idx as int] == Some(s@),
{
    let stmt: &Statement<'_> = row.as_ref();
    stmt.column_name(idx).ok().map(str::to_owned)
}

/// The text that a rusqlite error displays (`<Error as Display>::fmt`):
/// rusqlite writes it from the error's own contents, which may hold a
/// message of SQLite's.
pub uninterp spec fn sqlite_error_text(e: SqliteError) -> Seq<char>;

/// rusqlite's error for a query that was to return a row and returned none
/// (`Error::QueryReturnedNoRows`), which displays as "Query returned no
/// rows".
#[verifier::external_body]
pub(crate) fn no_rows_error() -> (r: SqliteError)
    ensures
        sqlite_error_text(r) == "Query returned no rows"@,
{
    SqliteError::QueryReturnedNoRows
}

/// How a rusqlite error displays itself (`<Error as Display>::fmt`): its
/// text ([`sqlite_error_text`]).
#[verifier::external_body]
pub(crate) fn display_sqlite_error(e: &SqliteError) -> (r: String)
    ensures
        r@ == sqlite_error_text(*e),
{
    format!("{}", e)
}

} // verus!
