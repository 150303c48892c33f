//! Reading at most one row, or exactly one, from a query.
//!
//! The caller steps through the query's rows and decodes them; this module
//! decides, from what the caller reports, what it does next and what the
//! outcome is. A failure to step or to decode is the caller's to return.

use vstd::prelude::*;
use crate::error::{Error, ErrorModel};
use crate::sqlite::{no_rows_error, sqlite_error_text};

verus! {

/// Where a query that wants at most one row stands.
pub enum OptionalRow<T> {
    /// No row has been stepped to yet.
    BeforeFirst,
    /// The first row is to be decoded.
    Decoding,
    /// The first row was decoded into this value; the query is to be
    /// stepped once more.
    BeforeSecond(T),
    /// The outcome has been given.
    Done,
}

/// What the caller reports.
pub enum RowEvent<T> {
    /// The query was stepped: whether it gave a row.
    Stepped(bool),
    /// The current row was decoded into this value.
    Decoded(T),
    /// Stepping the query or decoding the row failed with this error.
    Failed(Error),
}

/// What the caller is to do next.
pub enum RowAction<T> {
    /// Step the query to its next row.
    Step,
    /// Decode the current row.
    Decode,
    /// Stop, with this outcome.
    Finish(Result<Option<T>, Error>),
}

/// The event that the caller is expected to report in `state`.
pub open spec fn expects<T>(state: OptionalRow<T>, event: RowEvent<T>) -> bool {
    match state {
        OptionalRow::BeforeFirst => event is Stepped || event is Failed,
        OptionalRow::Decoding => event is Decoded || event is Failed,
        OptionalRow::BeforeSecond(_) => event is Stepped || event is Failed,
        OptionalRow::Done => false,
    }
}

/// The next state and action after `event` in `state`: no row gives no
/// value; a first row is decoded; a second row is an error; a first row
/// alone gives its value; a failure to step or to decode is the outcome.
pub open spec fn optional_row_transition<T>(state: OptionalRow<T>, event: RowEvent<T>) -> (
    OptionalRow<T>,
    RowAction<T>,
) {
    match (state, event) {
        (OptionalRow::BeforeFirst, RowEvent::Stepped(false)) => (
            OptionalRow::Done,
            RowAction::Finish(Ok(None)),
        ),
        (OptionalRow::BeforeFirst, RowEvent::Stepped(true)) => (
            OptionalRow::Decoding,
            RowAction::Decode,
        ),
        (OptionalRow::Decoding, RowEvent::Decoded(v)) => (
            OptionalRow::BeforeSecond(v),
            RowAction::Step,
        ),
        (OptionalRow::BeforeSecond(v), RowEvent::Stepped(false)) => (
            OptionalRow::Done,
            RowAction::Finish(Ok(Some(v))),
        ),
        (OptionalRow::BeforeSecond(_), RowEvent::Stepped(true)) => (
            OptionalRow::Done,
            RowAction::Finish(Err(Error::TooManyRows { expected: 1, actual_at_least: 2 })),
        ),
        (OptionalRow::Done, _) => (OptionalRow::Done, RowAction::Step),
        (_, RowEvent::Failed(e)) => (OptionalRow::Done, RowAction::Finish(Err(e))),
        (s, _) => (s, RowAction::Step),
    }
}

impl<T> OptionalRow<T> {
    /// The state before the query is stepped; the caller is to step it.
    pub fn start() -> (r: (OptionalRow<T>, RowAction<T>))
        ensures
            r.0 is BeforeFirst,
            r.1 is Step,
    {
        (OptionalRow::BeforeFirst, RowAction::Step)
    }

    /// Takes the caller's report and says what to do next.
    pub fn advance(self, event: RowEvent<T>) -> (r: (OptionalRow<T>, RowAction<T>))
        requires
            expects(self, event),
        ensures
            r == optional_row_transition(self, event),
    {
        match (self, event) {
            (OptionalRow::BeforeFirst, RowEvent::Stepped(false)) => (
                OptionalRow::Done,
                RowAction::Finish(Ok(None)),
            ),
            (OptionalRow::BeforeFirst, RowEvent::Stepped(true)) => (
                OptionalRow::Decoding,
                RowAction::Decode,
            ),
            (OptionalRow::Decoding, RowEvent::Decoded(v)) => (
                OptionalRow::BeforeSecond(v),
                RowAction::Step,
            ),
            (OptionalRow::BeforeSecond(v), RowEvent::Stepped(false)) => (
                OptionalRow::Done,
                RowAction::Finish(Ok(Some(v))),
            ),
            (OptionalRow::BeforeSecond(_), RowEvent::Stepped(true)) => (
                OptionalRow::Done,
                RowAction::Finish(Err(Error::TooManyRows { expected: 1, actual_at_least: 2 })),
            ),
            (OptionalRow::Done, _) => (OptionalRow::Done, RowAction::Step),
        (_, RowEvent::Failed(e)) => (OptionalRow::Done, RowAction::Finish(Err(e))),
        (s, _) => (s, RowAction::Step),
        }
    }
}

/// The outcome of a query that wants exactly one row, from the outcome of
/// reading at most one: no row is rusqlite's error for a query that
/// returned no rows, which displays as "Query returned no rows".
pub fn one_row<T>(row: Option<T>) -> (r: Result<T, Error>)
    ensures
        match row {
            Some(v) => r == Ok::<T, Error>(v),
            None => r matches Err(Error::Sql(e)) && sqlite_error_text(e) == "Query returned no rows"@,
        },
{
    match row {
        Some(v) => Ok(v),
        None => Err(Error::Sql(no_rows_error())),
    }
}

/// Reading at most one row: a query with no row gives no value, one with a
/// single row gives the value decoded from it, and one with a second row is
/// refused as having too many rows; a failure to step or to decode, at any
/// point before the outcome, is the outcome.
pub proof fn lemma_at_most_one_row<T>(v: T)
    ensures
        optional_row_transition(OptionalRow::<T>::BeforeFirst, RowEvent::Stepped(false)).1
            == RowAction::<T>::Finish(Ok(None)),
        ({
            let (s1, a1) = optional_row_transition(
                OptionalRow::<T>::BeforeFirst,
                RowEvent::Stepped(true),
            );
            let (s2, a2) = optional_row_transition(s1, RowEvent::Decoded(v));
            &&& a1 is Decode
            &&& a2 is Step
            &&& expects(s1, RowEvent::Decoded(v))
            &&& expects(s2, RowEvent::<T>::Stepped(false))
            &&& optional_row_transition(s2, RowEvent::Stepped(false)).1 == RowAction::Finish(
                Ok(Some(v)),
            )
            &&& optional_row_transition(s2, RowEvent::Stepped(true)).1 matches RowAction::Finish(
                Err(e),
            ) && e.model() == (ErrorModel::TooManyRows { expected: 1, actual_at_least: 2 })
        }),
        forall|s: OptionalRow<T>, e: Error|
            #![trigger optional_row_transition(s, RowEvent::Failed(e))]
            expects(s, RowEvent::<T>::Failed(e)) ==> optional_row_transition(
                s,
                RowEvent::Failed(e),
            ) == (OptionalRow::<T>::Done, RowAction::<T>::Finish(Err(e))),
{
}

} // verus!
