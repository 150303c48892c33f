use rusqlite::types::Value;
use rusqlite::Connection;
use rusqlite_facet::{
    bind_facet_params_impl, bind_list_like_params, resolve_named_params,
    resolve_positional_params, Error,
};

fn names(items: &[&str]) -> Vec<String> {
    items.iter().map(|s| s.to_string()).collect()
}

fn params(items: &[Option<&str>]) -> Vec<Option<String>> {
    items.iter().map(|s| s.map(|t| t.to_string())).collect()
}

#[test]
fn named_params_take_fields_by_name() {
    let plan = resolve_named_params(
        &names(&["conn_id", "label"]),
        &params(&[Some(":label"), Some("@conn_id")]),
    )
    .unwrap();
    assert_eq!(plan, vec![1, 0]);
}

#[test]
fn dollar_named_param_takes_first_field_of_that_name() {
    let plan = resolve_named_params(
        &names(&["a", "b", "a"]),
        &params(&[Some("$a"), Some(":b"), Some("?3")]),
    )
    .unwrap();
    assert_eq!(plan, vec![0, 1, 2]);
}

#[test]
fn unnamed_params_take_fields_in_order() {
    let plan = resolve_named_params(&names(&["x", "y"]), &params(&[None, None])).unwrap();
    assert_eq!(plan, vec![0, 1]);
}

#[test]
fn numbered_params_take_their_position() {
    let plan = resolve_named_params(
        &names(&["x", "y", "z"]),
        &params(&[Some("?3"), Some("?1"), Some("?2")]),
    )
    .unwrap();
    assert_eq!(plan, vec![2, 0, 1]);
    let plan = resolve_named_params(&names(&["x"]), &params(&[Some("?0")])).unwrap();
    assert_eq!(plan, vec![0]);
    let plan = resolve_named_params(&names(&["x", "y"]), &params(&[Some("?+2"), Some("?1")])).unwrap();
    assert_eq!(plan, vec![1, 0]);
}

#[test]
fn missing_named_param_is_refused() {
    match resolve_named_params(&names(&["id"]), &params(&[Some(":nope")])) {
        Err(Error::MissingNamedParam { parameter }) => assert_eq!(parameter, ":nope"),
        other => panic!("unexpected {other:?}"),
    }
}

#[test]
fn unparsable_number_is_a_missing_named_param() {
    match resolve_named_params(&names(&["id"]), &params(&[Some("?x1")])) {
        Err(Error::MissingNamedParam { parameter }) => assert_eq!(parameter, "?x1"),
        other => panic!("unexpected {other:?}"),
    }
    match resolve_named_params(&names(&["id"]), &params(&[Some("?99999999999999999999999")])) {
        Err(Error::MissingNamedParam { parameter }) => {
            assert_eq!(parameter, "?99999999999999999999999")
        }
        other => panic!("unexpected {other:?}"),
    }
}

#[test]
fn extra_unnamed_param_is_refused() {
    match resolve_named_params(&names(&["id"]), &params(&[None, None])) {
        Err(Error::UnnamedParameter { index }) => assert_eq!(index, 2),
        other => panic!("unexpected {other:?}"),
    }
}

#[test]
fn param_with_unknown_prefix_is_unnamed() {
    match resolve_named_params(&names(&["id"]), &params(&[Some("#id")])) {
        Err(Error::UnnamedParameter { index }) => assert_eq!(index, 1),
        other => panic!("unexpected {other:?}"),
    }
}

#[test]
fn numbered_param_beyond_fields_is_refused() {
    match resolve_named_params(&names(&["id"]), &params(&[Some("?1"), Some("?5")])) {
        Err(Error::UnnamedParameter { index }) => assert_eq!(index, 2),
        other => panic!("unexpected {other:?}"),
    }
}

#[test]
fn unused_fields_are_refused_in_field_order() {
    match resolve_named_params(&names(&["a", "b", "c"]), &params(&[Some(":b")])) {
        Err(Error::UnusedParamFields { fields }) => assert_eq!(fields, names(&["a", "c"])),
        other => panic!("unexpected {other:?}"),
    }
}

#[test]
fn positional_params_take_items_in_order() {
    assert_eq!(resolve_positional_params(2, &params(&[None, None])).unwrap(), vec![0, 1]);
    assert_eq!(
        resolve_positional_params(2, &params(&[Some("?2"), Some("?1")])).unwrap(),
        vec![1, 0]
    );
}

#[test]
fn positional_binding_refuses_named_params() {
    match resolve_positional_params(1, &params(&[Some(":id")])) {
        Err(Error::MissingNamedParam { parameter }) => assert_eq!(parameter, ":id"),
        other => panic!("unexpected {other:?}"),
    }
}

#[test]
fn positional_binding_refuses_missing_items() {
    match resolve_positional_params(1, &params(&[None, None])) {
        Err(Error::UnnamedParameter { index }) => assert_eq!(index, 2),
        other => panic!("unexpected {other:?}"),
    }
}

#[test]
fn positional_binding_refuses_unused_items() {
    match resolve_positional_params(3, &params(&[Some("?1"), Some("?1")])) {
        Err(Error::UnusedPositionalParams { provided, used }) => {
            assert_eq!(provided, 3);
            assert_eq!(used, 1);
        }
        other => panic!("unexpected {other:?}"),
    }
}

fn count_rows(conn: &Connection, sql: &str) -> i64 {
    conn.query_row(sql, (), |r| r.get(0)).unwrap()
}

#[test]
fn binding_from_fields_reaches_sqlite() {
    let conn = Connection::open_in_memory().unwrap();
    conn.execute("CREATE TABLE t (a INTEGER, b TEXT)", ()).unwrap();
    let mut stmt = conn.prepare("INSERT INTO t (a, b) VALUES (:a, :b)").unwrap();
    bind_facet_params_impl(
        &mut stmt,
        &names(&["b", "a"]),
        &vec![Value::Text("x".to_string()), Value::Integer(5)],
    )
    .unwrap();
    assert_eq!(stmt.raw_execute().unwrap(), 1);
    let (a, b): (i64, String) = conn
        .query_row("SELECT a, b FROM t", (), |r| Ok((r.get(0)?, r.get(1)?)))
        .unwrap();
    assert_eq!(a, 5);
    assert_eq!(b, "x");
    assert_eq!(count_rows(&conn, "SELECT COUNT(*) FROM t"), 1);
}

#[test]
fn binding_from_fields_reports_unused_fields() {
    let conn = Connection::open_in_memory().unwrap();
    let mut stmt = conn.prepare("SELECT :a").unwrap();
    match bind_facet_params_impl(
        &mut stmt,
        &names(&["a", "extra"]),
        &vec![Value::Integer(1), Value::Integer(2)],
    ) {
        Err(Error::UnusedParamFields { fields }) => assert_eq!(fields, names(&["extra"])),
        other => panic!("unexpected {other:?}"),
    }
}

#[test]
fn binding_from_fields_reports_missing_names() {
    let conn = Connection::open_in_memory().unwrap();
    let mut stmt = conn.prepare("SELECT :missing").unwrap();
    match bind_facet_params_impl(&mut stmt, &names(&["a"]), &vec![Value::Integer(1)]) {
        Err(Error::MissingNamedParam { parameter }) => assert_eq!(parameter, ":missing"),
        other => panic!("unexpected {other:?}"),
    }
}

#[test]
fn binding_from_list_reaches_sqlite() {
    let conn = Connection::open_in_memory().unwrap();
    let mut stmt = conn.prepare("SELECT ?2 - ?1").unwrap();
    bind_list_like_params(&mut stmt, &vec![Value::Integer(10), Value::Integer(25)]).unwrap();
    let mut rows = stmt.raw_query();
    let row = rows.next().unwrap().unwrap();
    let v: i64 = row.get(0).unwrap();
    assert_eq!(v, 15);
}

#[test]
fn binding_from_list_reports_unused_items() {
    let conn = Connection::open_in_memory().unwrap();
    let mut stmt = conn.prepare("SELECT ?").unwrap();
    match bind_list_like_params(&mut stmt, &vec![Value::Integer(1), Value::Integer(2)]) {
        Err(Error::UnusedPositionalParams { provided, used }) => {
            assert_eq!(provided, 2);
            assert_eq!(used, 1);
        }
        other => panic!("unexpected {other:?}"),
    }
}

#[test]
fn binding_replaces_earlier_bindings() {
    let conn = Connection::open_in_memory().unwrap();
    let mut stmt = conn.prepare("SELECT ?1, ?2").unwrap();
    stmt.raw_bind_parameter(1, 98).unwrap();
    stmt.raw_bind_parameter(2, 99).unwrap();
    bind_list_like_params(&mut stmt, &vec![Value::Integer(3), Value::Integer(4)]).unwrap();
    let mut rows = stmt.raw_query();
    let row = rows.next().unwrap().unwrap();
    let first: i64 = row.get(0).unwrap();
    let second: i64 = row.get(1).unwrap();
    assert_eq!((first, second), (3, 4));
}

#[test]
fn plan_error_at_first_parameter_leaves_nothing_bound() {
    let conn = Connection::open_in_memory().unwrap();
    let mut stmt = conn.prepare("SELECT :a").unwrap();
    stmt.raw_bind_parameter(1, 98).unwrap();
    let err = bind_list_like_params(&mut stmt, &vec![Value::Integer(1)]).unwrap_err();
    match err {
        Error::MissingNamedParam { parameter } => assert_eq!(parameter, ":a"),
        _ => panic!("unexpected error: {}", err.message()),
    }
    let mut rows = stmt.raw_query();
    let row = rows.next().unwrap().unwrap();
    let value: Option<i64> = row.get(0).unwrap();
    assert_eq!(value, None);
}
