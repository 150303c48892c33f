//! The SQLite values that the fields of a struct are bound as.

use vstd::prelude::*;
use facet_core::Shape;
use crate::error::{Error, ErrorModel};

verus! {

/// The value of a field, as read from a reflected struct, with options
/// resolved: `None` reads as `Null`, `Some(x)` as what `x` reads as.
#[derive(Debug)]
pub enum ParamScalar {
    Null,
    Bool(bool),
    I8(i8),
    I16(i16),
    I32(i32),
    I64(i64),
    U8(u8),
    U16(u16),
    U32(u32),
    U64(u64),
    Text(String),
    Blob(Vec<u8>),
    /// A value of a type that cannot be bound, with its shape.
    Unsupported(&'static Shape),
}

/// A non-floating SQLite value that a field is bound as.
#[derive(Debug)]
pub enum SqlParam {
    Null,
    Integer(i64),
    Text(String),
    Blob(Vec<u8>),
}

/// The integer that an integer-like field stands for (`true` is 1 and
/// `false` is 0), if it is one.
pub open spec fn scalar_integer(s: ParamScalar) -> Option<int> {
    match s {
        ParamScalar::Bool(b) => Some(if b { 1int } else { 0int }),
        ParamScalar::I8(v) => Some(v as int),
        ParamScalar::I16(v) => Some(v as int),
        ParamScalar::I32(v) => Some(v as int),
        ParamScalar::I64(v) => Some(v as int),
        ParamScalar::U8(v) => Some(v as int),
        ParamScalar::U16(v) => Some(v as int),
        ParamScalar::U32(v) => Some(v as int),
        ParamScalar::U64(v) => Some(v as int),
        _ => None,
    }
}

/// The SQLite value a field named `field_name` is bound as: integers as
/// SQLite's 64-bit integer, refusing an unsigned value above `i64::MAX`;
/// text and bytes as themselves; NULL as NULL.
pub fn peek_to_sql_value(scalar: ParamScalar, field_name: &str) -> (r: Result<SqlParam, Error>)
    ensures
        match scalar {
            ParamScalar::Null => r matches Ok(SqlParam::Null),
            ParamScalar::Text(s) => r matches Ok(SqlParam::Text(t)) && t == s,
            ParamScalar::Blob(b) => r matches Ok(SqlParam::Blob(c)) && c == b,
            ParamScalar::Unsupported(shape) => r matches Err(e) && e.model() == (
            ErrorModel::UnsupportedParamType { field: field_name@, shape }),
            _ => {
                let v = scalar_integer(scalar)->Some_0;
                if v <= i64::MAX {
                    r matches Ok(SqlParam::Integer(i)) && i as int == v
                } else {
                    r matches Err(e) && e.model() == (ErrorModel::OutOfRange {
                        field: field_name@,
                        source: v,
                        target: "i64"@,
                    })
                }
            },
        },
{
    match scalar {
        ParamScalar::Null => Ok(SqlParam::Null),
        ParamScalar::Bool(b) => Ok(SqlParam::Integer(if b { 1 } else { 0 })),
        ParamScalar::I8(v) => Ok(SqlParam::Integer(v as i64)),
        ParamScalar::I16(v) => Ok(SqlParam::Integer(v as i64)),
        ParamScalar::I32(v) => Ok(SqlParam::Integer(v as i64)),
        ParamScalar::I64(v) => Ok(SqlParam::Integer(v)),
        ParamScalar::U8(v) => Ok(SqlParam::Integer(v as i64)),
        ParamScalar::U16(v) => Ok(SqlParam::Integer(v as i64)),
        ParamScalar::U32(v) => Ok(SqlParam::Integer(v as i64)),
        ParamScalar::U64(v) => {
            if v <= 9223372036854775807u64 {
                Ok(SqlParam::Integer(v as i64))
            } else {
                Err(
                    Error::OutOfRange {
                        field: String::from_str(field_name),
                        source: v as i128,
                        target: "i64",
                    },
                )
            }
        },
        ParamScalar::Text(s) => Ok(SqlParam::Text(s)),
        ParamScalar::Blob(b) => Ok(SqlParam::Blob(b)),
        ParamScalar::Unsupported(shape) => Err(
            Error::UnsupportedParamType { field: String::from_str(field_name), shape },
        ),
    }
}

} // verus!
