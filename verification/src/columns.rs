//! Reading the columns of a result row into the fields of a typed value.
//!
//! Each field of the target type is described by a [`FieldTarget`]: the name
//! of the column it is read from and the shape of its type. A column is read
//! by first deciding, from that shape and from whether the column holds
//! NULL, what to read ([`plan_column`]), and then reading it.

use vstd::prelude::*;
use facet_core::Shape;
use rusqlite::Row;
use crate::error::{Error, ErrorModel, SqlType};
use vstd::std_specs::convert::TryFromSpec;
use crate::values::{ParamScalar, scalar_integer};
use crate::sqlite::{
    column_count, column_name_readable, column_type, row_cells, row_column_names, row_get_blob,
    row_get_bool, row_get_i16, row_get_i32, row_get_i64, row_get_i8, row_get_string, Cell,
};
use vstd::utf8::{decode_utf8, valid_utf8};

verus! {

/// The scalar types a column can be read into.
#[derive(Debug, Clone, Copy, PartialEq, Eq, Structural)]
pub enum ScalarKind {
    Bool,
    I8,
    I16,
    I32,
    I64,
    U8,
    U16,
    U32,
    U64,
    F32,
    F64,
    Text,
    Blob,
    /// A type that is parsed from the column's text.
    Parsed,
    /// A type that no column can be read into.
    Unsupported,
}

/// The shape of the type of a field, as far as reading a column into it
/// depends on it.
#[derive(Debug)]
pub enum TargetKind {
    /// `Option<T>`: NULL reads as `None`.
    Optional(Box<TargetShape>),
    /// A transparent wrapper around another type.
    Transparent(Box<TargetShape>),
    Scalar(ScalarKind),
}

/// A field's type: its reflected shape and what reading depends on.
#[derive(Debug)]
pub struct TargetShape {
    pub shape: &'static Shape,
    pub kind: TargetKind,
}

/// A field of the target struct and the column it is read from.
#[derive(Debug)]
pub struct FieldTarget {
    pub column: String,
    pub target: TargetShape,
}

/// What to read from a column for a field.
#[derive(Debug)]
pub enum ReadPlan {
    /// `None`: the column is NULL and the field is optional.
    Absent,
    /// `Some` of what the inner plan reads.
    Present(Box<ReadPlan>),
    /// A transparent wrapper around what the inner plan reads.
    Inner(Box<ReadPlan>),
    /// A scalar of this kind, read from the column.
    Read(ScalarKind),
}

/// A value read from a column, shaped as its field's type.
#[derive(Debug)]
pub enum ColumnValue {
    Absent,
    Present(Box<ColumnValue>),
    Inner(Box<ColumnValue>),
    Bool(bool),
    I8(i8),
    I16(i16),
    I32(i32),
    I64(i64),
    U8(u8),
    U16(u16),
    U32(u32),
    U64(u64),
    /// An `f32` field: the number is to be read from this column.
    F32(usize),
    /// An `f64` field: the number is to be read from this column.
    F64(usize),
    Text(String),
    Blob(Vec<u8>),
    /// The column's text, to be parsed into the field's type.
    Parsed(String),
}

/// What to read from a column for a field of type `target`, when the column
/// holds NULL or not; or the error, for the field `field`.
///
/// NULL reads as `None` into an optional field and is refused by any other;
/// a transparent wrapper reads what its inner type reads.
pub open spec fn column_plan(target: TargetShape, is_null: bool, field: Seq<char>) -> Result<
    ReadPlan,
    ErrorModel,
>
    decreases target,
{
    match target.kind {
        TargetKind::Optional(inner) => if is_null {
            Ok(ReadPlan::Absent)
        } else {
            match column_plan(*inner, is_null, field) {
                Ok(p) => Ok(ReadPlan::Present(Box::new(p))),
                Err(e) => Err(e),
            }
        },
        TargetKind::Transparent(inner) => match column_plan(*inner, is_null, field) {
            Ok(p) => Ok(ReadPlan::Inner(Box::new(p))),
            Err(e) => Err(e),
        },
        TargetKind::Scalar(kind) => if is_null {
            Err(
                ErrorModel::TypeMismatch {
                    field,
                    expected: target.shape,
                    actual: SqlType::Null,
                },
            )
        } else if kind == ScalarKind::Unsupported {
            Err(ErrorModel::UnsupportedRowType { field, shape: target.shape })
        } else {
            Ok(ReadPlan::Read(kind))
        },
    }
}

/// What reading a scalar of kind `kind` from `cell`, column `idx` of a row,
/// gives for the field `field`: `r` is that outcome. Integers are read
/// within the range of their type: a signed type out of range is SQLite's
/// error, an unsigned one the library's out-of-range error; text must be
/// UTF-8; a value of another storage class is SQLite's error. A
/// floating-point field names the column to read the number from.
pub open spec fn scalar_read(
    kind: ScalarKind,
    cell: Cell,
    idx: usize,
    field: Seq<char>,
    r: Result<ColumnValue, Error>,
) -> bool {
    let sql_error = r matches Err(e) && e is Sql;
    match kind {
        ScalarKind::Bool => match cell {
            Cell::Integer(i) => r == Ok::<ColumnValue, Error>(ColumnValue::Bool(i != 0)),
            _ => sql_error,
        },
        ScalarKind::I8 => match cell {
            Cell::Integer(i) => if i8::MIN <= i <= i8::MAX {
                r == Ok::<ColumnValue, Error>(ColumnValue::I8(i as i8))
            } else {
                sql_error
            },
            _ => sql_error,
        },
        ScalarKind::I16 => match cell {
            Cell::Integer(i) => if i16::MIN <= i <= i16::MAX {
                r == Ok::<ColumnValue, Error>(ColumnValue::I16(i as i16))
            } else {
                sql_error
            },
            _ => sql_error,
        },
        ScalarKind::I32 => match cell {
            Cell::Integer(i) => if i32::MIN <= i <= i32::MAX {
                r == Ok::<ColumnValue, Error>(ColumnValue::I32(i as i32))
            } else {
                sql_error
            },
            _ => sql_error,
        },
        ScalarKind::I64 => match cell {
            Cell::Integer(i) => r == Ok::<ColumnValue, Error>(ColumnValue::I64(i)),
            _ => sql_error,
        },
        ScalarKind::U8 => match cell {
            Cell::Integer(i) => if 0 <= i <= u8::MAX {
                r == Ok::<ColumnValue, Error>(ColumnValue::U8(i as u8))
            } else {
                out_of_range(r, field, i, "u8"@)
            },
            _ => sql_error,
        },
        ScalarKind::U16 => match cell {
            Cell::Integer(i) => if 0 <= i <= u16::MAX {
                r == Ok::<ColumnValue, Error>(ColumnValue::U16(i as u16))
            } else {
                out_of_range(r, field, i, "u16"@)
            },
            _ => sql_error,
        },
        ScalarKind::U32 => match cell {
            Cell::Integer(i) => if 0 <= i <= u32::MAX {
                r == Ok::<ColumnValue, Error>(ColumnValue::U32(i as u32))
            } else {
                out_of_range(r, field, i, "u32"@)
            },
            _ => sql_error,
        },
        ScalarKind::U64 => match cell {
            Cell::Integer(i) => if 0 <= i {
                r == Ok::<ColumnValue, Error>(ColumnValue::U64(i as u64))
            } else {
                out_of_range(r, field, i, "u64"@)
            },
            _ => sql_error,
        },
        ScalarKind::F32 => r == Ok::<ColumnValue, Error>(ColumnValue::F32(idx)),
        ScalarKind::F64 => r == Ok::<ColumnValue, Error>(ColumnValue::F64(idx)),
        ScalarKind::Text => match cell {
            Cell::Text(t) => if valid_utf8(t) {
                r matches Ok(ColumnValue::Text(s)) && s@ == decode_utf8(t)
            } else {
                sql_error
            },
            _ => sql_error,
        },
        ScalarKind::Blob => match cell {
            Cell::Blob(b) => r matches Ok(ColumnValue::Blob(v)) && v@ == b,
            _ => sql_error,
        },
        ScalarKind::Parsed => match cell {
            Cell::Text(t) => if valid_utf8(t) {
                r matches Ok(ColumnValue::Parsed(s)) && s@ == decode_utf8(t)
            } else {
                sql_error
            },
            _ => sql_error,
        },
        ScalarKind::Unsupported => false,
    }
}

/// `r` is the out-of-range error of the field `field` for the integer
/// `value`, which the type named `target` cannot hold.
pub open spec fn out_of_range(
    r: Result<ColumnValue, Error>,
    field: Seq<char>,
    value: i64,
    target: Seq<char>,
) -> bool {
    r matches Err(e) && e.model() == (ErrorModel::OutOfRange {
        field,
        source: value as int,
        target,
    })
}

/// What reading `plan` from `cell`, column `idx` of a row, gives for the
/// field `field`: `r` is that outcome. Options and wrappers wrap what their
/// inner plan reads, or give its error unchanged.
pub open spec fn plan_read(
    plan: ReadPlan,
    cell: Cell,
    idx: usize,
    field: Seq<char>,
    r: Result<ColumnValue, Error>,
) -> bool
    decreases plan,
{
    match plan {
        ReadPlan::Absent => r matches Ok(ColumnValue::Absent),
        ReadPlan::Present(p) => match r {
            Ok(ColumnValue::Present(v)) => plan_read(*p, cell, idx, field, Ok(*v)),
            Ok(_) => false,
            Err(e) => plan_read(*p, cell, idx, field, Err(e)),
        },
        ReadPlan::Inner(p) => match r {
            Ok(ColumnValue::Inner(v)) => plan_read(*p, cell, idx, field, Ok(*v)),
            Ok(_) => false,
            Err(e) => plan_read(*p, cell, idx, field, Err(e)),
        },
        ReadPlan::Read(kind) => scalar_read(kind, cell, idx, field, r),
    }
}

/// What reading column `idx` of `row` into a field of type `target`, named
/// `field`, gives: `r` is that outcome. The column is read as
/// [`column_plan`] decides from whether it holds NULL; an index out of range
/// is SQLite's error.
pub open spec fn column_read(
    row: Row<'_>,
    idx: usize,
    target: TargetShape,
    field: Seq<char>,
    r: Result<ColumnValue, Error>,
) -> bool {
    if idx < row_cells(row).len() {
        let cell = row_cells(row)[idx as int];
        match column_plan(target, cell is Null, field) {
            Err(m) => r matches Err(e) && e.model() == m,
            Ok(p) => plan_read(p, cell, idx, field, r),
        }
    } else {
        r matches Err(e) && e is Sql
    }
}

/// An unsigned integer type that a column's signed 64-bit integer can be
/// read into, with the name that errors give it.
pub trait UnsignedColumn: Sized + TryFrom<i64> {
    /// The type's name.
    spec fn label() -> Seq<char>;

    /// The type's name.
    fn type_label() -> (r: &'static str)
        ensures
            r@ == Self::label(),
    ;
}

impl UnsignedColumn for u8 {
    open spec fn label() -> Seq<char> {
        "u8"@
    }

    fn type_label() -> (r: &'static str) {
        "u8"
    }
}

impl UnsignedColumn for u16 {
    open spec fn label() -> Seq<char> {
        "u16"@
    }

    fn type_label() -> (r: &'static str) {
        "u16"
    }
}

impl UnsignedColumn for u32 {
    open spec fn label() -> Seq<char> {
        "u32"@
    }

    fn type_label() -> (r: &'static str) {
        "u32"
    }
}

impl UnsignedColumn for u64 {
    open spec fn label() -> Seq<char> {
        "u64"@
    }

    fn type_label() -> (r: &'static str) {
        "u64"
    }
}

/// Reads an unsigned integer of type `T` from a column's signed 64-bit
/// integer, refusing a value out of `T`'s range.
pub fn checked_unsigned<T>(value: i64, field_name: &str) -> (r: Result<T, Error>) where
    T: UnsignedColumn,

    ensures
        T::obeys_try_from_spec() ==> match T::try_from_spec(value) {
            Ok(v) => r == Ok::<T, Error>(v),
            Err(_) => r is Err,
        },
        r matches Err(e) ==> e.model() == (ErrorModel::OutOfRange {
            field: field_name@,
            source: value as int,
            target: T::label(),
        }),
{
    match T::try_from(value) {
        Ok(v) => Ok(v),
        Err(_) => Err(
            Error::OutOfRange {
                field: String::from_str(field_name),
                source: value as i128,
                target: T::type_label(),
            },
        ),
    }
}

/// What to read from a column for a field of type `target`, when the column
/// holds NULL or not ([`column_plan`]).
pub fn plan_column(target: &TargetShape, is_null: bool, field_name: &str) -> (r: Result<
    ReadPlan,
    Error,
>)
    ensures
        match r {
            Ok(p) => column_plan(*target, is_null, field_name@) == Ok::<ReadPlan, ErrorModel>(p),
            Err(e) => column_plan(*target, is_null, field_name@) == Err::<ReadPlan, ErrorModel>(
                e.model(),
            ),
        },
    decreases target,
{
    match &target.kind {
        TargetKind::Optional(inner) => {
            if is_null {
                Ok(ReadPlan::Absent)
            } else {
                match plan_column(inner, is_null, field_name) {
                    Ok(p) => Ok(ReadPlan::Present(Box::new(p))),
                    Err(e) => Err(e),
                }
            }
        },
        TargetKind::Transparent(inner) => match plan_column(inner, is_null, field_name) {
            Ok(p) => Ok(ReadPlan::Inner(Box::new(p))),
            Err(e) => Err(e),
        },
        TargetKind::Scalar(kind) => {
            if is_null {
                Err(
                    Error::TypeMismatch {
                        field: String::from_str(field_name),
                        expected: target.shape,
                        actual: SqlType::Null,
                    },
                )
            } else if *kind == ScalarKind::Unsupported {
                Err(
                    Error::UnsupportedRowType {
                        field: String::from_str(field_name),
                        shape: target.shape,
                    },
                )
            } else {
                Ok(ReadPlan::Read(*kind))
            }
        },
    }
}

/// Reads a scalar of kind `kind` from column `idx` of `row`.
fn read_scalar(row: &Row<'_>, idx: usize, kind: ScalarKind, field_name: &str) -> (r: Result<
    ColumnValue,
    Error,
>)
    requires
        kind != ScalarKind::Unsupported,
        idx < row_cells(*row).len(),
        column_name_readable(*row, idx),
    ensures
        scalar_read(kind, row_cells(*row)[idx as int], idx, field_name@, r),
{
    match kind {
        ScalarKind::Bool => match row_get_bool(row, idx) {
            Ok(v) => Ok(ColumnValue::Bool(v)),
            Err(e) => Err(Error::Sql(e)),
        },
        ScalarKind::I8 => match row_get_i8(row, idx) {
            Ok(v) => Ok(ColumnValue::I8(v)),
            Err(e) => Err(Error::Sql(e)),
        },
        ScalarKind::I16 => match row_get_i16(row, idx) {
            Ok(v) => Ok(ColumnValue::I16(v)),
            Err(e) => Err(Error::Sql(e)),
        },
        ScalarKind::I32 => match row_get_i32(row, idx) {
            Ok(v) => Ok(ColumnValue::I32(v)),
            Err(e) => Err(Error::Sql(e)),
        },
        ScalarKind::I64 => match row_get_i64(row, idx) {
            Ok(v) => Ok(ColumnValue::I64(v)),
            Err(e) => Err(Error::Sql(e)),
        },
        ScalarKind::U8 | ScalarKind::U16 | ScalarKind::U32 | ScalarKind::U64 => {
            let raw = match row_get_i64(row, idx) {
                Ok(v) => v,
                Err(e) => {
                    return Err(Error::Sql(e));
                },
            };
            match kind {
                ScalarKind::U8 => match checked_unsigned::<u8>(raw, field_name) {
                    Ok(v) => Ok(ColumnValue::U8(v)),
                    Err(e) => Err(e),
                },
                ScalarKind::U16 => match checked_unsigned::<u16>(raw, field_name) {
                    Ok(v) => Ok(ColumnValue::U16(v)),
                    Err(e) => Err(e),
                },
                ScalarKind::U32 => match checked_unsigned::<u32>(raw, field_name) {
                    Ok(v) => Ok(ColumnValue::U32(v)),
                    Err(e) => Err(e),
                },
                _ => match checked_unsigned::<u64>(raw, field_name) {
                    Ok(v) => Ok(ColumnValue::U64(v)),
                    Err(e) => Err(e),
                },
            }
        },
        ScalarKind::F32 => Ok(ColumnValue::F32(idx)),
        ScalarKind::F64 => Ok(ColumnValue::F64(idx)),
        ScalarKind::Text => match row_get_string(row, idx) {
            Ok(v) => Ok(ColumnValue::Text(v)),
            Err(e) => Err(Error::Sql(e)),
        },
        ScalarKind::Blob => match row_get_blob(row, idx) {
            Ok(v) => Ok(ColumnValue::Blob(v)),
            Err(e) => Err(Error::Sql(e)),
        },
        ScalarKind::Parsed => match row_get_string(row, idx) {
            Ok(v) => Ok(ColumnValue::Parsed(v)),
            Err(e) => Err(Error::Sql(e)),
        },
        ScalarKind::Unsupported => {
            proof {
                assert(false);
            }
            Ok(ColumnValue::Absent)
        },
    }
}

/// Reads what `plan` says from column `idx` of `row`.
fn read_planned(row: &Row<'_>, idx: usize, plan: &ReadPlan, field_name: &str) -> (r: Result<
    ColumnValue,
    Error,
>)
    requires
        plan_is_readable(*plan),
        idx < row_cells(*row).len(),
        column_name_readable(*row, idx),
    ensures
        plan_read(*plan, row_cells(*row)[idx as int], idx, field_name@, r),
    decreases plan,
{
    match plan {
        ReadPlan::Absent => Ok(ColumnValue::Absent),
        ReadPlan::Present(inner) => match read_planned(row, idx, inner, field_name) {
            Ok(v) => Ok(ColumnValue::Present(Box::new(v))),
            Err(e) => Err(e),
        },
        ReadPlan::Inner(inner) => match read_planned(row, idx, inner, field_name) {
            Ok(v) => Ok(ColumnValue::Inner(Box::new(v))),
            Err(e) => Err(e),
        },
        ReadPlan::Read(kind) => read_scalar(row, idx, *kind, field_name),
    }
}

/// No scalar that `plan` reads is of an unsupported type.
pub open spec fn plan_is_readable(plan: ReadPlan) -> bool
    decreases plan,
{
    match plan {
        ReadPlan::Absent => true,
        ReadPlan::Present(p) => plan_is_readable(*p),
        ReadPlan::Inner(p) => plan_is_readable(*p),
        ReadPlan::Read(kind) => kind != ScalarKind::Unsupported,
    }
}

/// Every plan that [`column_plan`] gives can be read.
pub proof fn lemma_column_plan_readable(target: TargetShape, is_null: bool, field: Seq<char>)
    ensures
        column_plan(target, is_null, field) matches Ok(p) ==> plan_is_readable(p),
    decreases target,
{
    match target.kind {
        TargetKind::Optional(inner) => lemma_column_plan_readable(*inner, is_null, field),
        TargetKind::Transparent(inner) => lemma_column_plan_readable(*inner, is_null, field),
        TargetKind::Scalar(_) => {},
    }
}

/// Reads column `idx` of `row` into a field of type `target`, named
/// `field_name` ([`column_read`]).
pub fn deserialize_column(row: &Row<'_>, idx: usize, field_name: &str, target: &TargetShape) -> (r:
    Result<ColumnValue, Error>)
    requires
        column_name_readable(*row, idx),
    ensures
        column_read(*row, idx, *target, field_name@, r),
{
    let is_null = match column_type(row, idx) {
        Ok(t) => t == SqlType::Null,
        Err(e) => {
            return Err(Error::Sql(e));
        },
    };
    proof {
        assert(is_null == (row_cells(*row)[idx as int] is Null));
    }
    let plan = match plan_column(target, is_null, field_name) {
        Ok(p) => p,
        Err(e) => {
            return Err(e);
        },
    };
    proof {
        lemma_column_plan_readable(*target, is_null, field_name@);
    }
    read_planned(row, idx, &plan, field_name)
}

/// The first index at or after `from` where `names` holds `Some(target)`.
pub open spec fn first_named_from(names: Seq<Option<Seq<char>>>, target: Seq<char>, from: nat) -> Option<
    nat,
>
    decreases names.len() - from,
{
    if from >= names.len() {
        None
    } else if names[from as int] == Some(target) {
        Some(from)
    } else {
        first_named_from(names, target, from + 1)
    }
}

/// Every name up to the first one that is `target` (all of them, when none
/// is) is valid UTF-8, so that reading them does not panic.
pub open spec fn names_readable_until(names: Seq<Option<Seq<char>>>, target: Seq<char>) -> bool {
    forall|i: int|
        0 <= i < names.len() && (forall|j: int| 0 <= j < i ==> names[j] != Some(target))
            ==> (#[trigger] names[i]) is Some
}

/// The index of the first column of `row` named `column_name`; the names
/// after it are not read.
pub fn find_column_index(row: &Row<'_>, column_name: &str) -> (r: Option<usize>)
    requires
        names_readable_until(row_column_names(*row), column_name@),
    ensures
        match first_named_from(row_column_names(*row), column_name@, 0) {
            Some(i) => r matches Some(j) && j as nat == i,
            None => r is None,
        },
{
    let ghost names = row_column_names(*row);
    let count = column_count(row);
    let target = String::from_str(column_name);
    let mut i: usize = 0;
    while i < count
        invariant
            i <= count,
            count == names.len(),
            count <= i32::MAX,
            names == row_column_names(*row),
            target@ == column_name@,
            names_readable_until(names, column_name@),
            forall|j: int| 0 <= j < i ==> names[j] != Some(column_name@),
            first_named_from(names, column_name@, 0) == first_named_from(
                names,
                column_name@,
                i as nat,
            ),
        decreases count - i,
    {
        proof {
            assert(names[i as int] is Some);
        }
        let name = crate::sqlite::column_name(row, i);
        match name {
            Some(n) => {
                if n == target {
                    return Some(i);
                }
            },
            None => {},
        }
        i = i + 1;
    }
    None
}

/// What reading the field `f` from `row` gives: `r` is that outcome. The
/// field is read from the first column that bears its column name; a
/// missing column is the library's error.
pub open spec fn field_read(row: Row<'_>, f: FieldTarget, r: Result<ColumnValue, Error>) -> bool {
    match first_named_from(row_column_names(row), f.column@, 0) {
        None => r matches Err(e) && e.model() == (ErrorModel::MissingColumn { column: f.column@ }),
        Some(c) => column_read(row, c as usize, f.target, f.column@, r),
    }
}

/// Reading the field `f` from `row` succeeds.
pub open spec fn field_succeeds(row: Row<'_>, f: FieldTarget) -> bool {
    exists|v: ColumnValue| #[trigger] field_read(row, f, Ok(v))
}

/// The first column with a given name lies in range and bears that name.
proof fn lemma_first_named_from(names: Seq<Option<Seq<char>>>, target: Seq<char>, from: nat)
    ensures
        first_named_from(names, target, from) matches Some(i) ==> from <= i < names.len()
            && names[i as int] == Some(target),
    decreases names.len() - from,
{
    if from < names.len() && names[from as int] != Some(target) {
        lemma_first_named_from(names, target, from + 1);
    }
}

/// Reads the fields `fields` of the target struct from `row`, in field
/// order, each from the first column that bears its column name, stopping
/// at the first field that fails.
pub fn deserialize_row_into(row: &Row<'_>, fields: &Vec<FieldTarget>) -> (r: Result<
    Vec<ColumnValue>,
    Error,
>)
    requires
        forall|i: int|
            0 <= i < fields@.len() ==> names_readable_until(
                row_column_names(*row),
                (#[trigger] fields@[i]).column@,
            ),
    ensures
        match r {
            Ok(values) => values@.len() == fields@.len() && forall|i: int|
                0 <= i < fields@.len() ==> #[trigger] field_read(*row, fields@[i], Ok(values@[i])),
            Err(e) => exists|i: int|
                0 <= i < fields@.len() && (forall|j: int|
                    0 <= j < i ==> #[trigger] field_succeeds(*row, fields@[j])) && #[trigger] field_read(
                    *row,
                    fields@[i],
                    Err(e),
                ),
        },
{
    let mut values: Vec<ColumnValue> = Vec::new();
    let mut i: usize = 0;
    while i < fields.len()
        invariant
            i <= fields.len(),
            values@.len() == i,
            forall|k: int|
                0 <= k < fields@.len() ==> names_readable_until(
                    row_column_names(*row),
                    (#[trigger] fields@[k]).column@,
                ),
            forall|k: int| 0 <= k < i ==> #[trigger] field_read(*row, fields@[k], Ok(values@[k])),
        decreases fields.len() - i,
    {
        let ghost old_values = values@;
        let field = &fields[i];
        proof {
            assert(names_readable_until(row_column_names(*row), fields@[i as int].column@));
            assert forall|j: int| 0 <= j < i implies #[trigger] field_succeeds(*row, fields@[j]) by {
                assert(field_read(*row, fields@[j], Ok(values@[j])));
            }
        }
        let idx = match find_column_index(row, field.column.as_str()) {
            Some(idx) => idx,
            None => {
                let err = Error::MissingColumn { column: field.column.clone() };
                assert(field_read(*row, fields@[i as int], Err(err)));
                return Err(err);
            },
        };
        proof {
            lemma_first_named_from(row_column_names(*row), field.column@, 0);
        }
        match deserialize_column(row, idx, field.column.as_str(), &field.target) {
            Ok(v) => {
                assert(field_read(*row, fields@[i as int], Ok(v)));
                values.push(v);
                assert(forall|k: int| 0 <= k < i ==> values@[k] == old_values[k]);
            },
            Err(e) => {
                assert(field_read(*row, fields@[i as int], Err(e)));
                return Err(e);
            },
        }
        i = i + 1;
    }
    Ok(values)
}

/// NULL in a column reads as `None` into an optional field, whatever the
/// type inside the option, and is refused with a type mismatch by a field
/// of a scalar type.
pub proof fn lemma_null_columns(target: TargetShape, field: Seq<char>)
    ensures
        target.kind is Optional ==> column_plan(target, true, field) == Ok::<ReadPlan, ErrorModel>(
            ReadPlan::Absent,
        ),
        target.kind is Scalar ==> column_plan(target, true, field) == Err::<ReadPlan, ErrorModel>(
            ErrorModel::TypeMismatch { field, expected: target.shape, actual: SqlType::Null },
        ),
{
}

/// Reading a column into an optional field: NULL reads as `None`; any other
/// value reads as `Some` of what the inner type reads from the same column,
/// and an error of the inner type comes out unchanged.
pub proof fn lemma_optional_column(
    row: Row<'_>,
    idx: usize,
    target: TargetShape,
    field: Seq<char>,
    r: Result<ColumnValue, Error>,
)
    requires
        idx < row_cells(row).len(),
        target.kind is Optional,
        column_read(row, idx, target, field, r),
    ensures
        row_cells(row)[idx as int] is Null ==> r matches Ok(ColumnValue::Absent),
        !(row_cells(row)[idx as int] is Null) ==> match r {
            Ok(v) => v matches ColumnValue::Present(x) && column_read(
                row,
                idx,
                *(target.kind->Optional_0),
                field,
                Ok(*x),
            ),
            Err(e) => column_read(row, idx, *(target.kind->Optional_0), field, Err(e)),
        },
{
}

/// A transparent wrapper reads a column as its inner type does: the same
/// error, or the inner plan wrapped.
pub proof fn lemma_transparent_columns(target: TargetShape, is_null: bool, field: Seq<char>)
    requires
        target.kind is Transparent,
    ensures
        ({
            let inner = *(target.kind->Transparent_0);
            match column_plan(inner, is_null, field) {
                Ok(p) => column_plan(target, is_null, field) == Ok::<ReadPlan, ErrorModel>(
                    ReadPlan::Inner(Box::new(p)),
                ),
                Err(e) => column_plan(target, is_null, field) == Err::<ReadPlan, ErrorModel>(e),
            }
        }),
{
}

/// An unsigned field bound as an integer reads back as the same value:
/// the integer that a `u8`, `u16`, `u32` or `u64` field is bound as (for a
/// `u64`, when it is bound at all, up to `i64::MAX`) converts back to the
/// field's type without loss.
pub proof fn lemma_unsigned_roundtrip(a: u8, b: u16, c: u32, d: u64)
    requires
        d <= i64::MAX,
    ensures
        scalar_integer(ParamScalar::U8(a)) == Some(a as int),
        <u8 as TryFromSpec<i64>>::obeys_try_from_spec(),
        <u8 as TryFromSpec<i64>>::try_from_spec(a as i64) matches Ok(x) && x == a,
        scalar_integer(ParamScalar::U16(b)) == Some(b as int),
        <u16 as TryFromSpec<i64>>::obeys_try_from_spec(),
        <u16 as TryFromSpec<i64>>::try_from_spec(b as i64) matches Ok(x) && x == b,
        scalar_integer(ParamScalar::U32(c)) == Some(c as int),
        <u32 as TryFromSpec<i64>>::obeys_try_from_spec(),
        <u32 as TryFromSpec<i64>>::try_from_spec(c as i64) matches Ok(x) && x == c,
        scalar_integer(ParamScalar::U64(d)) == Some(d as int),
        <u64 as TryFromSpec<i64>>::obeys_try_from_spec(),
        <u64 as TryFromSpec<i64>>::try_from_spec(d as i64) matches Ok(x) && x == d,
{
}


/// A column of a row whose value is not NULL and whose target is of a
/// scalar kind that columns can be read into is planned as a read of that
/// kind: no supported kind is refused.
pub proof fn lemma_supported_scalars_are_read(
    target: TargetShape,
    kind: ScalarKind,
    field: Seq<char>,
)
    requires
        target.kind == TargetKind::Scalar(kind),
        kind != ScalarKind::Unsupported,
    ensures
        column_plan(target, false, field) == Ok::<ReadPlan, ErrorModel>(ReadPlan::Read(kind)),
{
}

/// What a scalar field reads from a column is the value the column holds:
/// an integer kind reads the column's integer itself (a `bool` whether it
/// is not 0), text and parsed kinds the column's text decoded, a blob its
/// bytes, and a floating-point field names the very column it is read from.
pub proof fn lemma_scalar_read_is_the_column_value(
    row: Row<'_>,
    idx: usize,
    target: TargetShape,
    kind: ScalarKind,
    field: Seq<char>,
    v: ColumnValue,
)
    requires
        target.kind == TargetKind::Scalar(kind),
        column_read(row, idx, target, field, Ok(v)),
    ensures
        idx < row_cells(row).len(),
        kind == ScalarKind::Bool ==> (row_cells(row)[idx as int] matches Cell::Integer(i)
            && v == ColumnValue::Bool(i != 0)),
        kind == ScalarKind::I8 ==> (row_cells(row)[idx as int] matches Cell::Integer(i)
            && v matches ColumnValue::I8(x) && x == i),
        kind == ScalarKind::I16 ==> (row_cells(row)[idx as int] matches Cell::Integer(i)
            && v matches ColumnValue::I16(x) && x == i),
        kind == ScalarKind::I32 ==> (row_cells(row)[idx as int] matches Cell::Integer(i)
            && v matches ColumnValue::I32(x) && x == i),
        kind == ScalarKind::I64 ==> (row_cells(row)[idx as int] matches Cell::Integer(i)
            && v matches ColumnValue::I64(x) && x == i),
        kind == ScalarKind::U8 ==> (row_cells(row)[idx as int] matches Cell::Integer(i)
            && v matches ColumnValue::U8(x) && x == i),
        kind == ScalarKind::U16 ==> (row_cells(row)[idx as int] matches Cell::Integer(i)
            && v matches ColumnValue::U16(x) && x == i),
        kind == ScalarKind::U32 ==> (row_cells(row)[idx as int] matches Cell::Integer(i)
            && v matches ColumnValue::U32(x) && x == i),
        kind == ScalarKind::U64 ==> (row_cells(row)[idx as int] matches Cell::Integer(i)
            && v matches ColumnValue::U64(x) && x == i),
        kind == ScalarKind::F32 ==> v == ColumnValue::F32(idx),
        kind == ScalarKind::F64 ==> v == ColumnValue::F64(idx),
        kind == ScalarKind::Text ==> (row_cells(row)[idx as int] matches Cell::Text(t)
            && v matches ColumnValue::Text(x) && x@ == decode_utf8(t)),
        kind == ScalarKind::Parsed ==> (row_cells(row)[idx as int] matches Cell::Text(t)
            && v matches ColumnValue::Parsed(x) && x@ == decode_utf8(t)),
        kind == ScalarKind::Blob ==> (row_cells(row)[idx as int] matches Cell::Blob(b)
            && v matches ColumnValue::Blob(x) && x@ == b),
        kind != ScalarKind::Unsupported,
{
}

/// Reading a scalar field succeeds whenever the column holds a value the
/// field's type can take, and otherwise fails as the type says: NULL is a
/// type mismatch; an integer out of an unsigned type's range is the
/// out-of-range error carrying that integer and the type's name; a
/// floating-point field accepts any value that is not NULL.
pub proof fn lemma_scalar_read_outcome(
    row: Row<'_>,
    idx: usize,
    target: TargetShape,
    kind: ScalarKind,
    field: Seq<char>,
    r: Result<ColumnValue, Error>,
)
    requires
        idx < row_cells(row).len(),
        target.kind == TargetKind::Scalar(kind),
        column_read(row, idx, target, field, r),
    ensures
        row_cells(row)[idx as int] is Null ==> (r matches Err(e) && e.model()
            == ErrorModel::TypeMismatch { field, expected: target.shape, actual: SqlType::Null }),
        kind == ScalarKind::Unsupported && !(row_cells(row)[idx as int] is Null) ==> (r matches Err(
            e,
        ) && e.model() == ErrorModel::UnsupportedRowType { field, shape: target.shape }),
        !(row_cells(row)[idx as int] is Null) && (kind == ScalarKind::F32 || kind
            == ScalarKind::F64) ==> r is Ok,
        row_cells(row)[idx as int] matches Cell::Integer(i) ==> (kind == ScalarKind::U64 && i < 0
            ==> (r matches Err(e) && e.model() == ErrorModel::OutOfRange {
            field,
            source: i as int,
            target: "u64"@,
        })),
        row_cells(row)[idx as int] matches Cell::Integer(i) ==> (kind == ScalarKind::U32 && !(0 <= i <= u32::MAX)
            ==> (r matches Err(e) && e.model() == ErrorModel::OutOfRange {
            field,
            source: i as int,
            target: "u32"@,
        })),
        row_cells(row)[idx as int] matches Cell::Integer(i) ==> (kind == ScalarKind::U16 && !(0 <= i <= u16::MAX)
            ==> (r matches Err(e) && e.model() == ErrorModel::OutOfRange {
            field,
            source: i as int,
            target: "u16"@,
        })),
        row_cells(row)[idx as int] matches Cell::Integer(i) ==> (kind == ScalarKind::U8 && !(0 <= i <= u8::MAX)
            ==> (r matches Err(e) && e.model() == ErrorModel::OutOfRange {
            field,
            source: i as int,
            target: "u8"@,
        })),
        (row_cells(row)[idx as int] matches Cell::Text(t) && valid_utf8(t) && (kind
            == ScalarKind::Text || kind == ScalarKind::Parsed)) ==> r is Ok,
        (row_cells(row)[idx as int] is Blob && kind == ScalarKind::Blob) ==> r is Ok,
{
}

/// Column `c` is the first column of `names` that bears the name `column`.
pub open spec fn is_first_column_named(names: Seq<Option<Seq<char>>>, column: Seq<char>, c: int) -> bool {
    &&& 0 <= c < names.len()
    &&& names[c] == Some(column)
    &&& forall|j: int| 0 <= j < c ==> names[j] != Some(column)
}

/// When some column at or after `from` bears the name, the search finds one.
proof fn lemma_first_named_exists(names: Seq<Option<Seq<char>>>, target: Seq<char>, from: nat, w: int)
    requires
        from <= w < names.len(),
        names[w] == Some(target),
    ensures
        first_named_from(names, target, from) is Some,
    decreases names.len() - from,
{
    if names[from as int] != Some(target) {
        lemma_first_named_exists(names, target, from + 1, w);
    }
}

/// No column between `from` and the one found bears the name.
proof fn lemma_first_named_minimal(names: Seq<Option<Seq<char>>>, target: Seq<char>, from: nat)
    ensures
        first_named_from(names, target, from) matches Some(i) ==> forall|j: int|
            from <= j < i ==> names[j] != Some(target),
    decreases names.len() - from,
{
    if from < names.len() && names[from as int] != Some(target) {
        lemma_first_named_minimal(names, target, from + 1);
    }
}

/// A field is read from the first column that bears its column name, and
/// only from that one; with no such column it is the missing-column error,
/// naming the column.
pub proof fn lemma_field_reads_its_first_column(
    row: Row<'_>,
    f: FieldTarget,
    c: int,
    r: Result<ColumnValue, Error>,
)
    requires
        field_read(row, f, r),
    ensures
        (forall|j: int| 0 <= j < row_column_names(row).len() ==> row_column_names(row)[j] != Some(
            f.column@,
        )) ==> (r matches Err(e) && e.model() == ErrorModel::MissingColumn { column: f.column@ }),
        is_first_column_named(row_column_names(row), f.column@, c) ==> column_read(
            row,
            c as usize,
            f.target,
            f.column@,
            r,
        ),
{
    let names = row_column_names(row);
    lemma_first_named_from(names, f.column@, 0);
    if is_first_column_named(names, f.column@, c) {
        lemma_first_named_exists(names, f.column@, 0, c);
        let i = first_named_from(names, f.column@, 0)->Some_0;
        lemma_first_named_minimal(names, f.column@, 0);
        assert(i == c) by {
            if i < c {
                assert(names[i as int] != Some(f.column@));
            } else if i > c {
                assert(names[c] != Some(f.column@));
            }
        }
    }
    if first_named_from(names, f.column@, 0) is Some {
        let i = first_named_from(names, f.column@, 0)->Some_0;
        assert(names[i as int] == Some(f.column@));
    }
}

/// A field bound as an SQLite integer reads back as itself: the integer
/// that an integer or `bool` field stands for, stored in a column, is read
/// by a field of the same type as the very value that was bound.
pub proof fn lemma_integer_fields_read_back(
    s: ParamScalar,
    idx: usize,
    field: Seq<char>,
    r: Result<ColumnValue, Error>,
)
    requires
        scalar_integer(s) matches Some(n) && i64::MIN <= n <= i64::MAX,
    ensures
        ({
            let cell = Cell::Integer(scalar_integer(s)->Some_0 as i64);
            &&& s matches ParamScalar::Bool(b) ==> (scalar_read(ScalarKind::Bool, cell, idx, field, r)
                ==> r == Ok::<ColumnValue, Error>(ColumnValue::Bool(b)))
            &&& s matches ParamScalar::I8(x) ==> (scalar_read(ScalarKind::I8, cell, idx, field, r)
                ==> r == Ok::<ColumnValue, Error>(ColumnValue::I8(x)))
            &&& s matches ParamScalar::I16(x) ==> (scalar_read(ScalarKind::I16, cell, idx, field, r)
                ==> r == Ok::<ColumnValue, Error>(ColumnValue::I16(x)))
            &&& s matches ParamScalar::I32(x) ==> (scalar_read(ScalarKind::I32, cell, idx, field, r)
                ==> r == Ok::<ColumnValue, Error>(ColumnValue::I32(x)))
            &&& s matches ParamScalar::I64(x) ==> (scalar_read(ScalarKind::I64, cell, idx, field, r)
                ==> r == Ok::<ColumnValue, Error>(ColumnValue::I64(x)))
            &&& s matches ParamScalar::U8(x) ==> (scalar_read(ScalarKind::U8, cell, idx, field, r)
                ==> r == Ok::<ColumnValue, Error>(ColumnValue::U8(x)))
            &&& s matches ParamScalar::U16(x) ==> (scalar_read(ScalarKind::U16, cell, idx, field, r)
                ==> r == Ok::<ColumnValue, Error>(ColumnValue::U16(x)))
            &&& s matches ParamScalar::U32(x) ==> (scalar_read(ScalarKind::U32, cell, idx, field, r)
                ==> r == Ok::<ColumnValue, Error>(ColumnValue::U32(x)))
            &&& s matches ParamScalar::U64(x) ==> (scalar_read(ScalarKind::U64, cell, idx, field, r)
                ==> r == Ok::<ColumnValue, Error>(ColumnValue::U64(x)))
        }),
{
}
} // verus!
