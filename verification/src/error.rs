//! The library's error type and its mathematical model.

use vstd::prelude::*;
use facet_core::Shape;
use facet_reflect::{AllocError, ReflectError, ShapeMismatchError};
use crate::facet_types::{
    alloc_error_text, display_alloc_error, display_reflect_error, display_shape,
    display_shape_mismatch, reflect_error_text, shape_mismatch_text, shape_text,
};
use crate::sqlite::{display_sqlite_error, sqlite_error_text};
use rusqlite::Error as SqliteError;
use crate::text::{decimal, signed_decimal, write_decimal, write_signed_decimal};

verus! {

/// The storage class of an SQLite value, as reported in type mismatches.
#[derive(Debug, Clone, Copy, PartialEq, Eq, Structural)]
pub enum SqlType {
    Null,
    Integer,
    Real,
    Text,
    Blob,
}

/// Everything that can go wrong while binding parameters or reading rows.
#[derive(Debug)]
#[allow(inconsistent_fields)]
pub enum Error {
    Sql(rusqlite::Error),
    Reflect(ReflectError),
    Alloc(AllocError),
    ShapeMismatch(ShapeMismatchError),
    NotAStruct { shape: &'static Shape },
    UnsupportedParamType { field: String, shape: &'static Shape },
    UnsupportedRowType { field: String, shape: &'static Shape },
    MissingNamedParam { parameter: String },
    MissingColumn { column: String },
    UnnamedParameter { index: usize },
    UnusedParamFields { fields: Vec<String> },
    UnusedPositionalParams { provided: usize, used: usize },
    TooManyRows { expected: usize, actual_at_least: usize },
    WithSqlContext { sql: String, source: Box<Error> },
    OutOfRange { field: String, source: i128, target: &'static str },
    TypeMismatch { field: String, expected: &'static Shape, actual: SqlType },
}

/// The mathematical model of an [`Error`]: strings are taken by their
/// characters, and errors of other crates are kept by their kind alone.
#[allow(inconsistent_fields)]
pub enum ErrorModel {
    Sql,
    Reflect,
    Alloc,
    ShapeMismatch,
    NotAStruct { shape: &'static Shape },
    UnsupportedParamType { field: Seq<char>, shape: &'static Shape },
    UnsupportedRowType { field: Seq<char>, shape: &'static Shape },
    MissingNamedParam { parameter: Seq<char> },
    MissingColumn { column: Seq<char> },
    UnnamedParameter { index: nat },
    UnusedParamFields { fields: Seq<Seq<char>> },
    UnusedPositionalParams { provided: nat, used: nat },
    TooManyRows { expected: nat, actual_at_least: nat },
    WithSqlContext { sql: Seq<char>, source: Box<ErrorModel> },
    OutOfRange { field: Seq<char>, source: int, target: Seq<char> },
    TypeMismatch { field: Seq<char>, expected: &'static Shape, actual: SqlType },
}

/// The characters of each string of a sequence.
pub open spec fn string_views(v: Seq<String>) -> Seq<Seq<char>> {
    v.map_values(|s: String| s@)
}

impl Error {
    /// The model of this error.
    pub open spec fn model(self) -> ErrorModel
        decreases self,
    {
        match self {
            Error::Sql(_) => ErrorModel::Sql,
            Error::Reflect(_) => ErrorModel::Reflect,
            Error::Alloc(_) => ErrorModel::Alloc,
            Error::ShapeMismatch(_) => ErrorModel::ShapeMismatch,
            Error::NotAStruct { shape } => ErrorModel::NotAStruct { shape },
            Error::UnsupportedParamType { field, shape } => ErrorModel::UnsupportedParamType {
                field: field@,
                shape,
            },
            Error::UnsupportedRowType { field, shape } => ErrorModel::UnsupportedRowType {
                field: field@,
                shape,
            },
            Error::MissingNamedParam { parameter } => ErrorModel::MissingNamedParam {
                parameter: parameter@,
            },
            Error::MissingColumn { column } => ErrorModel::MissingColumn { column: column@ },
            Error::UnnamedParameter { index } => ErrorModel::UnnamedParameter { index: index as nat },
            Error::UnusedParamFields { fields } => ErrorModel::UnusedParamFields {
                fields: string_views(fields@),
            },
            Error::UnusedPositionalParams { provided, used } => ErrorModel::UnusedPositionalParams {
                provided: provided as nat,
                used: used as nat,
            },
            Error::TooManyRows { expected, actual_at_least } => ErrorModel::TooManyRows {
                expected: expected as nat,
                actual_at_least: actual_at_least as nat,
            },
            Error::WithSqlContext { sql, source } => ErrorModel::WithSqlContext {
                sql: sql@,
                source: Box::new((*source).model()),
            },
            Error::OutOfRange { field, source, target } => ErrorModel::OutOfRange {
                field: field@,
                source: source as int,
                target: target@,
            },
            Error::TypeMismatch { field, expected, actual } => ErrorModel::TypeMismatch {
                field: field@,
                expected,
                actual,
            },
        }
    }
}

/// Wraps the error of `result`, if any, with the SQL text it came from; an
/// `Ok` passes through unchanged.
pub fn with_sql_context<T>(sql: &str, result: Result<T, Error>) -> (r: Result<T, Error>)
    ensures
        match result {
            Ok(v) => r == Ok::<T, Error>(v),
            Err(e) => r matches Err(Error::WithSqlContext { sql: s, source: b }) && s@ == sql@
                && *b == e,
        },
{
    match result {
        Ok(v) => Ok(v),
        Err(source) => Err(Error::WithSqlContext { sql: String::from_str(sql), source: Box::new(source) }),
    }
}

impl SqlType {
    /// The name of the storage class.
    pub open spec fn name_spec(self) -> Seq<char> {
        match self {
            SqlType::Null => "Null"@,
            SqlType::Integer => "Integer"@,
            SqlType::Real => "Real"@,
            SqlType::Text => "Text"@,
            SqlType::Blob => "Blob"@,
        }
    }

    /// The name of the storage class.
    pub fn name(&self) -> (r: &'static str)
        ensures
            r@ == self.name_spec(),
    {
        match self {
            SqlType::Null => "Null",
            SqlType::Integer => "Integer",
            SqlType::Real => "Real",
            SqlType::Text => "Text",
            SqlType::Blob => "Blob",
        }
    }
}

/// The items joined, with `sep` between each two.
pub open spec fn join_with(items: Seq<Seq<char>>, sep: Seq<char>) -> Seq<char>
    decreases items.len(),
{
    if items.len() == 0 {
        Seq::empty()
    } else if items.len() == 1 {
        items[0]
    } else {
        join_with(items.drop_last(), sep) + sep + items.last()
    }
}

/// The message of `e`. Where it holds the text of a value of another crate
/// (an error of rusqlite or facet, or a shape), that is the text the value
/// displays.
pub open spec fn message_text(e: Error) -> Seq<char>
    decreases e,
{
    match e {
        Error::Sql(x) => "sqlite error: "@ + sqlite_error_text(x),
        Error::Reflect(x) => "reflection error: "@ + reflect_error_text(x),
        Error::Alloc(x) => "allocation error: "@ + alloc_error_text(x),
        Error::ShapeMismatch(x) => "shape mismatch: "@ + shape_mismatch_text(x),
        Error::NotAStruct { shape } => "expected a struct shape, got "@ + shape_text(*shape),
        Error::UnsupportedParamType { field, shape } => "unsupported parameter type for field '"@
            + field@ + "': "@ + shape_text(*shape),
        Error::UnsupportedRowType { field, shape } => "unsupported row type for field '"@ + field@
            + "': "@ + shape_text(*shape),
        Error::MissingNamedParam { parameter } => "missing named parameter for SQL binding: "@
            + parameter@,
        Error::MissingColumn { column } => "missing required column: "@ + column@,
        Error::UnnamedParameter { index } => "statement parameter #"@ + decimal(index as nat)
            + " is unnamed"@,
        Error::UnusedParamFields { fields } => "unused parameter fields: "@ + join_with(
            string_views(fields@),
            ", "@,
        ),
        Error::UnusedPositionalParams { provided, used } => "unused positional parameters: provided "@
            + decimal(provided as nat) + ", used "@ + decimal(used as nat),
        Error::TooManyRows { expected, actual_at_least } => "query returned too many rows: expected "@
            + decimal(expected as nat) + ", got at least "@ + decimal(actual_at_least as nat),
        Error::WithSqlContext { sql, source } => message_text(*source) + " (sql: "@ + sql@ + ")"@,
        Error::OutOfRange { field, source, target } => "out-of-range conversion for field '"@
            + field@ + "': "@ + signed_decimal(source as int) + " cannot fit in "@ + target@,
        Error::TypeMismatch { field, expected, actual } => "type mismatch for field '"@ + field@
            + "': expected "@ + shape_text(*expected) + ", got "@ + actual.name_spec(),
    }
}

/// Appends `s` to `out`.
fn append(out: &mut String, s: &str)
    ensures
        final(out)@ == old(out)@ + s@,
{
    out.append(s);
}

/// The texts joined, with `sep` between each two.
pub fn join_strings(items: &Vec<String>, sep: &str) -> (r: String)
    ensures
        r@ == join_with(string_views(items@), sep@),
{
    let ghost views = string_views(items@);
    let mut out = String::new();
    let mut i: usize = 0;
    while i < items.len()
        invariant
            i <= items.len(),
            views == string_views(items@),
            out@ == join_with(views.take(i as int), sep@),
        decreases items.len() - i,
    {
        if i > 0 {
            append(&mut out, sep);
        }
        append(&mut out, items[i].as_str());
        proof {
            let next = views.take(i + 1);
            assert(next.drop_last() =~= views.take(i as int));
            if i == 0 {
                assert(views.take(0) =~= Seq::<Seq<char>>::empty());
                assert(out@ =~= next[0]);
            } else {
                assert(out@ =~= join_with(next.drop_last(), sep@) + sep@ + next.last());
            }
        }
        i = i + 1;
    }
    proof {
        assert(views.take(items.len() as int) =~= views);
    }
    out
}

/// Appends `lead`, then `field`, then `tail`, to a new string.
fn three(lead: &str, field: &str, tail: &str) -> (r: String)
    ensures
        r@ == lead@ + field@ + tail@,
{
    let mut s = String::from_str(lead);
    append(&mut s, field);
    append(&mut s, tail);
    s
}

impl Error {
    /// The human-readable message of this error ([`message_text`]).
    pub fn message(&self) -> (r: String)
        ensures
            r@ == message_text(*self),
        decreases self,
    {
        match self {
            Error::Sql(e) => {
                let mut s = String::from_str("sqlite error: ");
                let d = display_sqlite_error(e);
                append(&mut s, d.as_str());
                s
            },
            Error::Reflect(e) => {
                let mut s = String::from_str("reflection error: ");
                let d = display_reflect_error(e);
                append(&mut s, d.as_str());
                s
            },
            Error::Alloc(e) => {
                let mut s = String::from_str("allocation error: ");
                let d = display_alloc_error(e);
                append(&mut s, d.as_str());
                s
            },
            Error::ShapeMismatch(e) => {
                let mut s = String::from_str("shape mismatch: ");
                let d = display_shape_mismatch(e);
                append(&mut s, d.as_str());
                s
            },
            Error::NotAStruct { shape } => {
                let mut s = String::from_str("expected a struct shape, got ");
                let d = display_shape(shape);
                append(&mut s, d.as_str());
                s
            },
            Error::UnsupportedParamType { field, shape } => {
                let mut s = three("unsupported parameter type for field '", field.as_str(), "': ");
                let d = display_shape(shape);
                append(&mut s, d.as_str());
                s
            },
            Error::UnsupportedRowType { field, shape } => {
                let mut s = three("unsupported row type for field '", field.as_str(), "': ");
                let d = display_shape(shape);
                append(&mut s, d.as_str());
                s
            },
            Error::MissingNamedParam { parameter } => {
                let mut s = String::from_str("missing named parameter for SQL binding: ");
                append(&mut s, parameter.as_str());
                s
            },
            Error::MissingColumn { column } => {
                let mut s = String::from_str("missing required column: ");
                append(&mut s, column.as_str());
                s
            },
            Error::UnnamedParameter { index } => {
                let mut s = String::from_str("statement parameter #");
                write_decimal(&mut s, *index as u128);
                append(&mut s, " is unnamed");
                s
            },
            Error::UnusedParamFields { fields } => {
                let mut s = String::from_str("unused parameter fields: ");
                let joined = join_strings(fields, ", ");
                append(&mut s, joined.as_str());
                s
            },
            Error::UnusedPositionalParams { provided, used } => {
                let mut s = String::from_str("unused positional parameters: provided ");
                write_decimal(&mut s, *provided as u128);
                append(&mut s, ", used ");
                write_decimal(&mut s, *used as u128);
                s
            },
            Error::TooManyRows { expected, actual_at_least } => {
                let mut s = String::from_str("query returned too many rows: expected ");
                write_decimal(&mut s, *expected as u128);
                append(&mut s, ", got at least ");
                write_decimal(&mut s, *actual_at_least as u128);
                s
            },
            Error::WithSqlContext { sql, source } => {
                let mut s = source.message();
                append(&mut s, " (sql: ");
                append(&mut s, sql.as_str());
                append(&mut s, ")");
                s
            },
            Error::OutOfRange { field, source, target } => {
                let mut s = three("out-of-range conversion for field '", field.as_str(), "': ");
                write_signed_decimal(&mut s, *source);
                append(&mut s, " cannot fit in ");
                append(&mut s, target);
                s
            },
            Error::TypeMismatch { field, expected, actual } => {
                let mut s = three("type mismatch for field '", field.as_str(), "': expected ");
                let d = display_shape(expected);
                append(&mut s, d.as_str());
                append(&mut s, ", got ");
                append(&mut s, actual.name());
                s
            },
        }
    }
}

/// The message of an error wrapped with its SQL text is the message of the
/// error inside, followed by " (sql: ", the SQL text and ")".
pub proof fn lemma_context_message(sql: String, source: Error)
    ensures
        message_text(Error::WithSqlContext { sql, source: Box::new(source) }) == message_text(
            source,
        ) + " (sql: "@ + sql@ + ")"@,
{
}

impl From<SqliteError> for Error {
    fn from(value: SqliteError) -> (r: Error) {
        Error::Sql(value)
    }
}

impl vstd::std_specs::convert::FromSpecImpl<SqliteError> for Error {
    open spec fn obeys_from_spec() -> bool {
        true
    }

    open spec fn from_spec(v: SqliteError) -> Error {
        Error::Sql(v)
    }
}

impl From<ReflectError> for Error {
    fn from(value: ReflectError) -> (r: Error) {
        Error::Reflect(value)
    }
}

impl vstd::std_specs::convert::FromSpecImpl<ReflectError> for Error {
    open spec fn obeys_from_spec() -> bool {
        true
    }

    open spec fn from_spec(v: ReflectError) -> Error {
        Error::Reflect(v)
    }
}

impl From<AllocError> for Error {
    fn from(value: AllocError) -> (r: Error) {
        Error::Alloc(value)
    }
}

impl vstd::std_specs::convert::FromSpecImpl<AllocError> for Error {
    open spec fn obeys_from_spec() -> bool {
        true
    }

    open spec fn from_spec(v: AllocError) -> Error {
        Error::Alloc(v)
    }
}

impl From<ShapeMismatchError> for Error {
    fn from(value: ShapeMismatchError) -> (r: Error) {
        Error::ShapeMismatch(value)
    }
}

impl vstd::std_specs::convert::FromSpecImpl<ShapeMismatchError> for Error {
    open spec fn obeys_from_spec() -> bool {
        true
    }

    open spec fn from_spec(v: ShapeMismatchError) -> Error {
        Error::ShapeMismatch(v)
    }
}

} // verus!
