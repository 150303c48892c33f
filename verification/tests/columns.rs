use facet::Facet;
use facet_core::Shape;
use rusqlite::types::Value;
use rusqlite::Connection;
use rusqlite_facet::{
    bind_facet_params_impl, bind_list_like_params, checked_unsigned, deserialize_column,
    deserialize_row_into, find_column_index, ColumnValue, Error, FieldTarget, ScalarKind,
    SqlType, TargetKind, TargetShape,
};

fn shape_of<T: Facet<'static>>() -> &'static Shape {
    T::SHAPE
}

fn scalar<T: Facet<'static>>(kind: ScalarKind) -> TargetShape {
    TargetShape { shape: shape_of::<T>(), kind: TargetKind::Scalar(kind) }
}

fn optional<T: Facet<'static>>(inner: TargetShape) -> TargetShape {
    TargetShape { shape: shape_of::<T>(), kind: TargetKind::Optional(Box::new(inner)) }
}

fn field(column: &str, target: TargetShape) -> FieldTarget {
    FieldTarget { column: column.to_string(), target }
}

fn names(items: &[&str]) -> Vec<String> {
    items.iter().map(|s| s.to_string()).collect()
}

#[test]
fn facet_execute_and_query_named_params() {
    let conn = Connection::open_in_memory().unwrap();
    conn.execute("CREATE TABLE connections (conn_id INTEGER NOT NULL, label TEXT)", ())
        .unwrap();
    let mut insert = conn
        .prepare("INSERT INTO connections (conn_id, label) VALUES (:conn_id, :label)")
        .unwrap();
    bind_facet_params_impl(
        &mut insert,
        &names(&["conn_id", "label"]),
        &vec![Value::Integer(42), Value::Text("alpha".to_string())],
    )
    .unwrap();
    insert.raw_execute().unwrap();

    let mut query = conn
        .prepare("SELECT conn_id, label FROM connections WHERE conn_id = :conn_id")
        .unwrap();
    bind_facet_params_impl(&mut query, &names(&["conn_id"]), &vec![Value::Integer(42)]).unwrap();
    let fields = vec![
        field("conn_id", scalar::<u64>(ScalarKind::U64)),
        field("label", scalar::<String>(ScalarKind::Text)),
    ];
    let mut rows = query.raw_query();
    let row = rows.next().unwrap().unwrap();
    let values = deserialize_row_into(row, &fields).unwrap();
    assert_eq!(values.len(), 2);
    assert!(matches!(values[0], ColumnValue::U64(42)));
    assert!(matches!(&values[1], ColumnValue::Text(s) if s == "alpha"));
    assert!(rows.next().unwrap().is_none());
}

#[test]
fn facet_query_positional_params_and_option() {
    let conn = Connection::open_in_memory().unwrap();
    conn.execute("CREATE TABLE items (conn_id INTEGER NOT NULL, label TEXT)", ()).unwrap();
    conn.execute("INSERT INTO items (conn_id, label) VALUES (1, NULL)", ()).unwrap();
    let mut stmt = conn.prepare("SELECT conn_id, label FROM items WHERE conn_id = ?1").unwrap();
    bind_facet_params_impl(&mut stmt, &names(&["conn_id"]), &vec![Value::Integer(1)]).unwrap();
    let fields = vec![
        field("conn_id", scalar::<i64>(ScalarKind::I64)),
        field("label", optional::<Option<String>>(scalar::<String>(ScalarKind::Text))),
    ];
    let mut rows = stmt.raw_query();
    let row = rows.next().unwrap().unwrap();
    let values = deserialize_row_into(row, &fields).unwrap();
    assert!(matches!(values[0], ColumnValue::I64(1)));
    assert!(matches!(values[1], ColumnValue::Absent));
}

#[test]
fn facet_query_accepts_array_params() {
    let conn = Connection::open_in_memory().unwrap();
    conn.execute(
        "CREATE TABLE pairs (left_id INTEGER NOT NULL, right_id INTEGER NOT NULL)",
        (),
    )
    .unwrap();
    conn.execute("INSERT INTO pairs (left_id, right_id) VALUES (10, 20)", ()).unwrap();
    let mut stmt = conn
        .prepare("SELECT left_id, right_id FROM pairs WHERE left_id = ?1 AND right_id = ?2")
        .unwrap();
    bind_list_like_params(&mut stmt, &vec![Value::Integer(10), Value::Integer(20)]).unwrap();
    let fields = vec![
        field("left_id", scalar::<i64>(ScalarKind::I64)),
        field("right_id", scalar::<i64>(ScalarKind::I64)),
    ];
    let mut rows = stmt.raw_query();
    let row = rows.next().unwrap().unwrap();
    let values = deserialize_row_into(row, &fields).unwrap();
    assert!(matches!(values[0], ColumnValue::I64(10)));
    assert!(matches!(values[1], ColumnValue::I64(20)));
}

#[test]
fn facet_query_ref_accepts_slice_params() {
    let conn = Connection::open_in_memory().unwrap();
    conn.execute("CREATE TABLE ids (id INTEGER NOT NULL)", ()).unwrap();
    conn.execute("INSERT INTO ids (id) VALUES (7)", ()).unwrap();
    let mut stmt = conn.prepare("SELECT id FROM ids WHERE id = ?1").unwrap();
    bind_list_like_params(&mut stmt, &vec![Value::Integer(7)]).unwrap();
    let fields = vec![field("id", scalar::<i64>(ScalarKind::I64))];
    let mut rows = stmt.raw_query();
    let row = rows.next().unwrap().unwrap();
    let values = deserialize_row_into(row, &fields).unwrap();
    assert!(matches!(values[0], ColumnValue::I64(7)));
    assert!(rows.next().unwrap().is_none());
}

#[test]
fn transparent_wrapper_works_for_params_and_rows() {
    let conn = Connection::open_in_memory().unwrap();
    conn.execute("CREATE TABLE monks (name TEXT NOT NULL)", ()).unwrap();
    conn.execute("INSERT INTO monks (name) VALUES ('teacup')", ()).unwrap();
    let mut stmt = conn.prepare("SELECT name FROM monks WHERE name = :name").unwrap();
    bind_facet_params_impl(&mut stmt, &names(&["name"]), &vec![Value::Text("teacup".to_string())])
        .unwrap();
    let wrapper = TargetShape {
        shape: shape_of::<String>(),
        kind: TargetKind::Transparent(Box::new(scalar::<String>(ScalarKind::Text))),
    };
    let fields = vec![field("name", wrapper)];
    let mut rows = stmt.raw_query();
    let row = rows.next().unwrap().unwrap();
    let values = deserialize_row_into(row, &fields).unwrap();
    match &values[0] {
        ColumnValue::Inner(inner) => {
            assert!(matches!(inner.as_ref(), ColumnValue::Text(s) if s == "teacup"))
        }
        other => panic!("unexpected {other:?}"),
    }
}

fn one_column(sql: &str, target: TargetShape) -> Result<ColumnValue, Error> {
    let conn = Connection::open_in_memory().unwrap();
    let mut stmt = conn.prepare(sql).unwrap();
    let mut rows = stmt.raw_query();
    let row = rows.next().unwrap().unwrap();
    deserialize_column(row, 0, "v", &target)
}

#[test]
fn null_into_optional_reads_none() {
    let v = one_column("SELECT NULL AS v", optional::<Option<i64>>(scalar::<i64>(ScalarKind::I64)));
    assert!(matches!(v, Ok(ColumnValue::Absent)));
}

#[test]
fn value_into_optional_reads_some() {
    let v = one_column("SELECT 5 AS v", optional::<Option<i64>>(scalar::<i64>(ScalarKind::I64)));
    match v {
        Ok(ColumnValue::Present(inner)) => assert!(matches!(*inner, ColumnValue::I64(5))),
        other => panic!("unexpected {other:?}"),
    }
}

#[test]
fn null_into_required_field_is_a_type_mismatch() {
    match one_column("SELECT NULL AS v", scalar::<i64>(ScalarKind::I64)) {
        Err(Error::TypeMismatch { field, expected, actual }) => {
            assert_eq!(field, "v");
            assert!(std::ptr::eq(expected, shape_of::<i64>()));
            assert_eq!(actual, SqlType::Null);
        }
        other => panic!("unexpected {other:?}"),
    }
}

#[test]
fn unsupported_row_type_is_refused() {
    match one_column("SELECT 1 AS v", scalar::<()>(ScalarKind::Unsupported)) {
        Err(Error::UnsupportedRowType { field, shape }) => {
            assert_eq!(field, "v");
            assert!(std::ptr::eq(shape, shape_of::<()>()));
        }
        other => panic!("unexpected {other:?}"),
    }
}

#[test]
fn negative_into_unsigned_is_out_of_range() {
    match one_column("SELECT -1 AS v", scalar::<u8>(ScalarKind::U8)) {
        Err(Error::OutOfRange { field, source, target }) => {
            assert_eq!(field, "v");
            assert_eq!(source, -1);
            assert_eq!(target, "u8");
        }
        other => panic!("unexpected {other:?}"),
    }
}

#[test]
fn large_into_u16_is_out_of_range() {
    match one_column("SELECT 70000 AS v", scalar::<u16>(ScalarKind::U16)) {
        Err(Error::OutOfRange { source, target, .. }) => {
            assert_eq!(source, 70000);
            assert_eq!(target, "u16");
        }
        other => panic!("unexpected {other:?}"),
    }
}

#[test]
fn scalars_read_as_their_kinds() {
    assert!(matches!(one_column("SELECT 1 AS v", scalar::<bool>(ScalarKind::Bool)), Ok(ColumnValue::Bool(true))));
    assert!(matches!(one_column("SELECT 0 AS v", scalar::<bool>(ScalarKind::Bool)), Ok(ColumnValue::Bool(false))));
    assert!(matches!(one_column("SELECT -3 AS v", scalar::<i8>(ScalarKind::I8)), Ok(ColumnValue::I8(-3))));
    assert!(matches!(one_column("SELECT 300 AS v", scalar::<i16>(ScalarKind::I16)), Ok(ColumnValue::I16(300))));
    assert!(matches!(one_column("SELECT 70000 AS v", scalar::<i32>(ScalarKind::I32)), Ok(ColumnValue::I32(70000))));
    assert!(matches!(one_column("SELECT 255 AS v", scalar::<u8>(ScalarKind::U8)), Ok(ColumnValue::U8(255))));
    assert!(matches!(one_column("SELECT 65535 AS v", scalar::<u16>(ScalarKind::U16)), Ok(ColumnValue::U16(65535))));
    assert!(matches!(one_column("SELECT 4000000000 AS v", scalar::<u32>(ScalarKind::U32)), Ok(ColumnValue::U32(4000000000))));
    assert!(matches!(one_column("SELECT 2.5 AS v", scalar::<f64>(ScalarKind::F64)), Ok(ColumnValue::F64(0))));
    assert!(matches!(one_column("SELECT x'0102' AS v", scalar::<Vec<u8>>(ScalarKind::Blob)), Ok(ColumnValue::Blob(b)) if b == vec![1, 2]));
    assert!(matches!(one_column("SELECT '12' AS v", scalar::<u128>(ScalarKind::Parsed)), Ok(ColumnValue::Parsed(s)) if s == "12"));
}

#[test]
fn i8_out_of_range_is_sqlite_error() {
    assert!(matches!(one_column("SELECT 300 AS v", scalar::<i8>(ScalarKind::I8)), Err(Error::Sql(_))));
}

#[test]
fn text_into_integer_is_sqlite_error() {
    assert!(matches!(one_column("SELECT 'abc' AS v", scalar::<i64>(ScalarKind::I64)), Err(Error::Sql(_))));
}

#[test]
fn missing_column_is_reported() {
    let conn = Connection::open_in_memory().unwrap();
    let mut stmt = conn.prepare("SELECT 1 AS a").unwrap();
    let mut rows = stmt.raw_query();
    let row = rows.next().unwrap().unwrap();
    let fields = vec![
        field("a", scalar::<i64>(ScalarKind::I64)),
        field("b", scalar::<i64>(ScalarKind::I64)),
    ];
    match deserialize_row_into(row, &fields) {
        Err(Error::MissingColumn { column }) => assert_eq!(column, "b"),
        other => panic!("unexpected {other:?}"),
    }
}

#[test]
fn first_column_of_a_name_is_found() {
    let conn = Connection::open_in_memory().unwrap();
    let mut stmt = conn.prepare("SELECT 1 AS a, 2 AS b, 3 AS b").unwrap();
    let mut rows = stmt.raw_query();
    let row = rows.next().unwrap().unwrap();
    assert_eq!(find_column_index(row, "b"), Some(1));
    assert_eq!(find_column_index(row, "a"), Some(0));
    assert_eq!(find_column_index(row, "c"), None);
}

#[test]
fn checked_unsigned_keeps_values_in_range() {
    assert_eq!(checked_unsigned::<u8>(200, "f").unwrap(), 200u8);
    assert_eq!(checked_unsigned::<u32>(0, "f").unwrap(), 0u32);
    assert_eq!(checked_unsigned::<u64>(i64::MAX, "f").unwrap(), i64::MAX as u64);
    match checked_unsigned::<u32>(-5, "count") {
        Err(Error::OutOfRange { field, source, target }) => {
            assert_eq!(field, "count");
            assert_eq!(source, -5);
            assert_eq!(target, "u32");
        }
        other => panic!("unexpected {other:?}"),
    }
    assert!(checked_unsigned::<u64>(-1, "f").is_err());
    assert!(checked_unsigned::<u8>(256, "f").is_err());
}

#[test]
fn facet_query_iter_streams_rows() {
    let conn = Connection::open_in_memory().unwrap();
    conn.execute("CREATE TABLE nums (n INTEGER NOT NULL)", ()).unwrap();
    conn.execute("INSERT INTO nums (n) VALUES (1)", ()).unwrap();
    conn.execute("INSERT INTO nums (n) VALUES (2)", ()).unwrap();
    let mut stmt = conn.prepare("SELECT n FROM nums ORDER BY n ASC").unwrap();
    bind_list_like_params(&mut stmt, &vec![]).unwrap();
    let fields = vec![field("n", scalar::<i64>(ScalarKind::I64))];
    let mut rows = stmt.raw_query();
    let first = deserialize_row_into(rows.next().unwrap().unwrap(), &fields).unwrap();
    assert!(matches!(first[0], ColumnValue::I64(1)));
    let second = deserialize_row_into(rows.next().unwrap().unwrap(), &fields).unwrap();
    assert!(matches!(second[0], ColumnValue::I64(2)));
    assert!(rows.next().unwrap().is_none());
}

#[test]
fn facet_query_iter_ref_streams_slice_params() {
    let conn = Connection::open_in_memory().unwrap();
    conn.execute("CREATE TABLE ids (id INTEGER NOT NULL)", ()).unwrap();
    conn.execute("INSERT INTO ids (id) VALUES (7)", ()).unwrap();
    let mut stmt = conn.prepare("SELECT id FROM ids WHERE id = ?1").unwrap();
    let values = [7_i64];
    let bound: Vec<Value> = values.iter().map(|v| Value::Integer(*v)).collect();
    bind_list_like_params(&mut stmt, &bound).unwrap();
    let fields = vec![field("id", scalar::<i64>(ScalarKind::I64))];
    let mut rows = stmt.raw_query();
    let row = deserialize_row_into(rows.next().unwrap().unwrap(), &fields).unwrap();
    assert!(matches!(row[0], ColumnValue::I64(7)));
    assert!(rows.next().unwrap().is_none());
}

#[test]
fn connection_ext_execute_and_query() {
    let conn = Connection::open_in_memory().unwrap();
    conn.execute("CREATE TABLE users (id INTEGER NOT NULL, name TEXT NOT NULL)", ()).unwrap();
    let mut insert = conn.prepare("INSERT INTO users (id, name) VALUES (:id, :name)").unwrap();
    bind_facet_params_impl(
        &mut insert,
        &names(&["id", "name"]),
        &vec![Value::Integer(11), Value::Text("alice".to_string())],
    )
    .unwrap();
    insert.raw_execute().unwrap();
    let mut query = conn.prepare("SELECT id, name FROM users WHERE id = :id").unwrap();
    bind_facet_params_impl(&mut query, &names(&["id"]), &vec![Value::Integer(11)]).unwrap();
    let fields = vec![
        field("id", scalar::<i64>(ScalarKind::I64)),
        field("name", scalar::<String>(ScalarKind::Text)),
    ];
    let mut rows = query.raw_query();
    let row = deserialize_row_into(rows.next().unwrap().unwrap(), &fields).unwrap();
    assert!(matches!(row[0], ColumnValue::I64(11)));
    assert!(matches!(&row[1], ColumnValue::Text(s) if s == "alice"));
    assert!(rows.next().unwrap().is_none());
}

#[test]
fn connection_ext_query_ref_accepts_slice() {
    let conn = Connection::open_in_memory().unwrap();
    conn.execute("CREATE TABLE ids (id INTEGER NOT NULL)", ()).unwrap();
    conn.execute("INSERT INTO ids (id) VALUES (3)", ()).unwrap();
    let mut stmt = conn.prepare("SELECT id FROM ids WHERE id = ?1").unwrap();
    bind_list_like_params(&mut stmt, &vec![Value::Integer(3)]).unwrap();
    let fields = vec![field("id", scalar::<i64>(ScalarKind::I64))];
    let mut rows = stmt.raw_query();
    let row = deserialize_row_into(rows.next().unwrap().unwrap(), &fields).unwrap();
    assert!(matches!(row[0], ColumnValue::I64(3)));
}

#[test]
fn connection_ext_prepare_cached_works_with_facet_methods() {
    let conn = Connection::open_in_memory().unwrap();
    conn.execute("CREATE TABLE ids (id INTEGER NOT NULL)", ()).unwrap();
    conn.execute("INSERT INTO ids (id) VALUES (5)", ()).unwrap();
    let mut stmt = conn.prepare_cached("SELECT id FROM ids WHERE id = :id").unwrap();
    bind_facet_params_impl(&mut stmt, &names(&["id"]), &vec![Value::Integer(5)]).unwrap();
    let fields = vec![field("id", scalar::<i64>(ScalarKind::I64))];
    let mut rows = stmt.raw_query();
    let row = deserialize_row_into(rows.next().unwrap().unwrap(), &fields).unwrap();
    assert!(matches!(row[0], ColumnValue::I64(5)));
}

#[test]
fn renamed_columns_are_read_by_their_column_name() {
    let conn = Connection::open_in_memory().unwrap();
    let mut stmt = conn.prepare("SELECT 4 AS user_id").unwrap();
    let mut rows = stmt.raw_query();
    let row = rows.next().unwrap().unwrap();
    let values =
        deserialize_row_into(row, &vec![field("user_id", scalar::<u32>(ScalarKind::U32))]).unwrap();
    assert!(matches!(values[0], ColumnValue::U32(4)));
}
