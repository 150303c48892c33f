use facet::Facet;
use rusqlite::Connection;
use rusqlite_facet::text::{parse_usize, write_decimal, write_signed_decimal};
use rusqlite_facet::{
    one_row, peek_to_sql_value, with_sql_context, Error, OptionalRow, ParamScalar, RowAction,
    RowEvent, SqlParam, SqlType,
};

/// Runs the at-most-one-row machine over a query, decoding a row as its
/// first column.
fn optional_i64(conn: &Connection, sql: &str) -> Result<Option<i64>, Error> {
    let mut stmt = conn.prepare(sql).unwrap();
    let mut rows = stmt.raw_query();
    let (mut state, mut action) = OptionalRow::<i64>::start();
    let mut current: Option<i64> = None;
    loop {
        let event = match action {
            RowAction::Step => match rows.next().map_err(Error::Sql)? {
                Some(row) => {
                    current = Some(row.get(0).map_err(Error::Sql)?);
                    RowEvent::Stepped(true)
                }
                None => RowEvent::Stepped(false),
            },
            RowAction::Decode => RowEvent::Decoded(current.take().unwrap()),
            RowAction::Finish(outcome) => return outcome,
        };
        let (s, a) = state.advance(event);
        state = s;
        action = a;
    }
}

fn ids_table() -> Connection {
    let conn = Connection::open_in_memory().unwrap();
    conn.execute("CREATE TABLE ids (id INTEGER NOT NULL)", ()).unwrap();
    conn
}

#[test]
fn facet_query_optional_returns_none_for_no_rows() {
    let conn = ids_table();
    let row = optional_i64(&conn, "SELECT id FROM ids WHERE id = 99").unwrap();
    assert_eq!(row, None);
}

#[test]
fn optional_query_gives_the_single_row() {
    let conn = ids_table();
    conn.execute("INSERT INTO ids (id) VALUES (5)", ()).unwrap();
    assert_eq!(optional_i64(&conn, "SELECT id FROM ids").unwrap(), Some(5));
}

#[test]
fn facet_query_optional_errors_on_multiple_rows() {
    let conn = ids_table();
    conn.execute("INSERT INTO ids (id) VALUES (1)", ()).unwrap();
    conn.execute("INSERT INTO ids (id) VALUES (1)", ()).unwrap();
    let err = optional_i64(&conn, "SELECT id FROM ids WHERE id = 1").unwrap_err();
    match err {
        Error::TooManyRows { expected, actual_at_least } => {
            assert_eq!(expected, 1);
            assert_eq!(actual_at_least, 2);
        }
        _ => panic!("unexpected error: {}", err.message()),
    }
}

#[test]
fn facet_query_one_errors_on_no_rows() {
    let conn = ids_table();
    let err = one_row(optional_i64(&conn, "SELECT id FROM ids WHERE id = 1").unwrap()).unwrap_err();
    match err {
        Error::Sql(rusqlite::Error::QueryReturnedNoRows) => {}
        _ => panic!("unexpected error: {}", err.message()),
    }
}

#[test]
fn one_row_passes_a_row_through() {
    assert_eq!(one_row(Some(3)).unwrap(), 3);
}

#[test]
fn connection_ext_errors_include_sql_context() {
    let conn = ids_table();
    let sql = "SELECT id FROM ids WHERE id = 1";
    let err = with_sql_context(sql, one_row(optional_i64(&conn, sql).unwrap())).unwrap_err();
    match err {
        Error::WithSqlContext { sql: actual, source } => {
            assert_eq!(actual, sql.to_string());
            match *source {
                Error::Sql(rusqlite::Error::QueryReturnedNoRows) => {}
                _ => panic!("unexpected nested source"),
            }
        }
        _ => panic!("expected SQL context wrapper"),
    }
}

#[test]
fn sql_context_leaves_success_alone() {
    assert_eq!(with_sql_context("SELECT 1", Ok::<i32, Error>(1)).unwrap(), 1);
}

#[test]
fn field_values_bind_as_sqlite_values() {
    assert!(matches!(peek_to_sql_value(ParamScalar::Null, "f"), Ok(SqlParam::Null)));
    assert!(matches!(peek_to_sql_value(ParamScalar::Bool(true), "f"), Ok(SqlParam::Integer(1))));
    assert!(matches!(peek_to_sql_value(ParamScalar::Bool(false), "f"), Ok(SqlParam::Integer(0))));
    assert!(matches!(peek_to_sql_value(ParamScalar::I8(-7), "f"), Ok(SqlParam::Integer(-7))));
    assert!(matches!(peek_to_sql_value(ParamScalar::I16(-300), "f"), Ok(SqlParam::Integer(-300))));
    assert!(matches!(peek_to_sql_value(ParamScalar::I32(70000), "f"), Ok(SqlParam::Integer(70000))));
    assert!(matches!(peek_to_sql_value(ParamScalar::I64(i64::MIN), "f"), Ok(SqlParam::Integer(i64::MIN))));
    assert!(matches!(peek_to_sql_value(ParamScalar::U8(255), "f"), Ok(SqlParam::Integer(255))));
    assert!(matches!(peek_to_sql_value(ParamScalar::U16(65535), "f"), Ok(SqlParam::Integer(65535))));
    assert!(matches!(peek_to_sql_value(ParamScalar::U32(u32::MAX), "f"), Ok(SqlParam::Integer(4294967295))));
    assert!(matches!(peek_to_sql_value(ParamScalar::U64(i64::MAX as u64), "f"), Ok(SqlParam::Integer(i64::MAX))));
    assert!(matches!(peek_to_sql_value(ParamScalar::Text("hi".to_string()), "f"), Ok(SqlParam::Text(s)) if s == "hi"));
    assert!(matches!(peek_to_sql_value(ParamScalar::Blob(vec![9]), "f"), Ok(SqlParam::Blob(b)) if b == vec![9]));
}

#[test]
fn u64_above_i64_max_is_out_of_range() {
    match peek_to_sql_value(ParamScalar::U64(u64::MAX), "big") {
        Err(Error::OutOfRange { field, source, target }) => {
            assert_eq!(field, "big");
            assert_eq!(source, u64::MAX as i128);
            assert_eq!(target, "i64");
        }
        other => panic!("unexpected {other:?}"),
    }
}

#[test]
fn unsupported_param_type_is_refused() {
    let shape = <() as Facet<'static>>::SHAPE;
    match peek_to_sql_value(ParamScalar::Unsupported(shape), "unit") {
        Err(Error::UnsupportedParamType { field, shape: s }) => {
            assert_eq!(field, "unit");
            assert!(std::ptr::eq(s, shape));
        }
        other => panic!("unexpected {other:?}"),
    }
}

#[test]
fn unsigned_values_read_back_unchanged() {
    for v in [0u64, 1, 255, 65535, 4294967295, i64::MAX as u64] {
        let bound = match peek_to_sql_value(ParamScalar::U64(v), "f") {
            Ok(SqlParam::Integer(i)) => i,
            other => panic!("unexpected {other:?}"),
        };
        assert_eq!(rusqlite_facet::checked_unsigned::<u64>(bound, "f").unwrap(), v);
    }
}

#[test]
fn decimal_text_parses_back() {
    for n in [0usize, 7, 10, 42, 1000, usize::MAX] {
        let mut s = String::new();
        write_decimal(&mut s, n as u128);
        assert_eq!(s, n.to_string());
        assert_eq!(parse_usize(&s), Some(n));
    }
}

#[test]
fn usize_parsing_follows_std() {
    for s in ["", "+", "-0", "+7", "007", "12a", "18446744073709551616", " 1", "0"] {
        assert_eq!(parse_usize(s), s.parse::<usize>().ok(), "input {s:?}");
    }
}

#[test]
fn signed_decimal_text() {
    for v in [0i128, -1, 5, -1234, i128::MIN, i128::MAX] {
        let mut s = String::new();
        write_signed_decimal(&mut s, v);
        assert_eq!(s, v.to_string());
    }
}

#[test]
fn messages_follow_the_display_format() {
    let cases: Vec<(Error, &str)> = vec![
        (
            Error::MissingNamedParam { parameter: ":x".to_string() },
            "missing named parameter for SQL binding: :x",
        ),
        (Error::MissingColumn { column: "c".to_string() }, "missing required column: c"),
        (Error::UnnamedParameter { index: 3 }, "statement parameter #3 is unnamed"),
        (
            Error::UnusedParamFields { fields: vec!["a".to_string(), "b".to_string()] },
            "unused parameter fields: a, b",
        ),
        (
            Error::UnusedPositionalParams { provided: 2, used: 1 },
            "unused positional parameters: provided 2, used 1",
        ),
        (
            Error::TooManyRows { expected: 1, actual_at_least: 2 },
            "query returned too many rows: expected 1, got at least 2",
        ),
        (
            Error::OutOfRange { field: "f".to_string(), source: -1, target: "u8" },
            "out-of-range conversion for field 'f': -1 cannot fit in u8",
        ),
        (
            Error::WithSqlContext {
                sql: "SELECT 1".to_string(),
                source: Box::new(Error::MissingColumn { column: "c".to_string() }),
            },
            "missing required column: c (sql: SELECT 1)",
        ),
    ];
    for (err, text) in cases {
        assert_eq!(err.message(), text);
    }
}

#[test]
fn messages_of_outside_errors_keep_their_text() {
    let e = Error::Sql(rusqlite::Error::QueryReturnedNoRows);
    assert_eq!(e.message(), format!("sqlite error: {}", rusqlite::Error::QueryReturnedNoRows));
    let shape = <i64 as Facet<'static>>::SHAPE;
    let e = Error::TypeMismatch { field: "f".to_string(), expected: shape, actual: SqlType::Null };
    assert_eq!(e.message(), format!("type mismatch for field 'f': expected {shape}, got Null"));
    let e = Error::NotAStruct { shape };
    assert_eq!(e.message(), format!("expected a struct shape, got {shape}"));
    let e = Error::UnsupportedRowType { field: "g".to_string(), shape };
    assert_eq!(e.message(), format!("unsupported row type for field 'g': {shape}"));
    let e = Error::UnsupportedParamType { field: "h".to_string(), shape };
    assert_eq!(e.message(), format!("unsupported parameter type for field 'h': {shape}"));
}

#[test]
fn sqlite_errors_convert_into_the_library_error() {
    let e: Error = rusqlite::Error::QueryReturnedNoRows.into();
    assert!(matches!(e, Error::Sql(rusqlite::Error::QueryReturnedNoRows)));
}

#[test]
fn failure_while_reading_one_row_is_the_outcome() {
    let (state, _) = OptionalRow::<i64>::start();
    let (state, action) = state.advance(RowEvent::Stepped(true));
    assert!(matches!(action, RowAction::Decode));
    let (_, action) = state.advance(RowEvent::Failed(Error::MissingColumn { column: "id".to_string() }));
    match action {
        RowAction::Finish(Err(Error::MissingColumn { column })) => assert_eq!(column, "id"),
        _ => panic!("expected the decoding error as the outcome"),
    }
}

#[test]
fn no_row_message_names_the_sqlite_error() {
    let err = one_row::<i64>(None).unwrap_err();
    assert_eq!(err.message(), "sqlite error: Query returned no rows");
    let wrapped = with_sql_context("SELECT 1", Err::<i64, Error>(err)).unwrap_err();
    assert_eq!(wrapped.message(), "sqlite error: Query returned no rows (sql: SELECT 1)");
}
