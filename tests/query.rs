use butane_core::adb::{AColumn, ATable, DeferredSqlType, Operation, ADB};
use butane_core::connmethods::{BackendRow, Column, TransactionState, VecRows};
use butane_core::db::{backend_for_spec, get_backend, Backend, ConnectionSpec, Row};
use butane_core::error::Error;
use butane_core::migrations::{unapplied_migrations, MigrationRunner, RunAction};
use butane_core::pg::{
    encode, row_from_postgres, sql_insert_or_replace_with_placeholders, sql_val_from_postgres,
    PgValue,
};
use butane_core::query::{BoolExpr, Expr, Order, OrderDirection};
use butane_core::sql::{
    delete_where_sql, query_sql, sql_for_expr, sql_insert_with_placeholders,
    sql_update_with_placeholders, PlaceholderSource,
};
use butane_core::types::{SqlType, SqlVal, SqlValRef};
use butane_core::pg::update_params;

fn text(s: &str) -> SqlVal {
    SqlVal::Text(s.to_string())
}

fn cols() -> Vec<Column> {
    vec![
        Column::new("id", SqlType::BigInt),
        Column::new("name", SqlType::Text),
        Column::new("email", SqlType::Text),
    ]
}

#[test]
fn compiled_condition_has_one_placeholder_per_literal() {
    let e = BoolExpr::And(
        Box::new(BoolExpr::Eq("name", Expr::Val(text("bob")))),
        Box::new(BoolExpr::Or(
            Box::new(BoolExpr::Gt("id", Expr::Val(SqlVal::BigInt(3)))),
            Box::new(BoolExpr::Not(Box::new(BoolExpr::Like("email", Expr::Val(text("%x%")))))),
        )),
    );
    let mut w = String::new();
    let mut values = Vec::new();
    let mut pls = PlaceholderSource::numbered();
    sql_for_expr(&e, &mut values, &mut pls, &mut w);
    assert_eq!(w, "(name = $1) AND ((id > $2) OR (NOT (email LIKE $3)))");
    assert_eq!(w.matches('$').count(), 3);
    assert_eq!(values.len(), 3);
    assert!(matches!(&values[0], SqlVal::Text(s) if s == "bob"));
    assert!(matches!(&values[1], SqlVal::BigInt(3)));
    assert!(matches!(&values[2], SqlVal::Text(s) if s == "%x%"));
}

#[test]
fn integers_are_parameters_too() {
    let e = BoolExpr::Eq("id", Expr::Val(SqlVal::Int(7)));
    let mut w = String::new();
    let mut values = Vec::new();
    let mut pls = PlaceholderSource::positional();
    sql_for_expr(&e, &mut values, &mut pls, &mut w);
    assert_eq!(w, "id = ?");
    assert_eq!(values.len(), 1);
}

#[test]
fn column_comparisons_take_no_parameter() {
    let e = BoolExpr::Le("a", Expr::Column("b"));
    let mut w = String::new();
    let mut values = Vec::new();
    let mut pls = PlaceholderSource::numbered();
    sql_for_expr(&e, &mut values, &mut pls, &mut w);
    assert_eq!(w, "a <= b");
    assert!(values.is_empty());
    let mut w = String::new();
    sql_for_expr(&BoolExpr::True, &mut values, &mut pls, &mut w);
    assert_eq!(w, "TRUE");
}

#[test]
fn numbering_goes_past_nine() {
    let mut e = BoolExpr::Ne("c", Expr::Val(SqlVal::Int(0)));
    for i in 1..12 {
        e = BoolExpr::And(Box::new(e), Box::new(BoolExpr::Ge("c", Expr::Val(SqlVal::Int(i)))));
    }
    let mut w = String::new();
    let mut values = Vec::new();
    let mut pls = PlaceholderSource::numbered();
    sql_for_expr(&e, &mut values, &mut pls, &mut w);
    assert_eq!(values.len(), 12);
    assert!(w.contains("c >= $12"));
    assert!(w.contains("c >= $10"));
}

#[test]
fn select_with_all_clauses() {
    let e = BoolExpr::Eq("name", Expr::Val(text("bob")));
    let order = [
        Order { direction: OrderDirection::Descending, column: "id" },
        Order { direction: OrderDirection::Ascending, column: "name" },
    ];
    let (sql, values) = query_sql(
        "Users",
        &cols(),
        Some(&e),
        Some(10),
        Some(20),
        Some(&order),
        PlaceholderSource::numbered(),
    );
    assert_eq!(
        sql,
        "SELECT id, name, email FROM Users WHERE name = $1 ORDER BY id DESC, name ASC LIMIT 10 OFFSET 20"
    );
    assert_eq!(values.len(), 1);
}

#[test]
fn select_skips_omitted_clauses() {
    let (sql, values) =
        query_sql("Users", &cols()[..1], None, None, None, None, PlaceholderSource::numbered());
    assert_eq!(sql, "SELECT id FROM Users");
    assert!(values.is_empty());
    let (sql, _) =
        query_sql("Users", &cols()[..1], None, Some(1), None, None, PlaceholderSource::numbered());
    assert_eq!(sql, "SELECT id FROM Users LIMIT 1");
}

#[test]
fn insert_update_delete_statements() {
    let mut w = String::new();
    let mut pls = PlaceholderSource::numbered();
    sql_insert_with_placeholders("Users", &cols()[1..], &mut pls, &mut w);
    assert_eq!(w, "INSERT INTO Users (name, email) VALUES ($1, $2)");

    let mut w = String::new();
    let mut pls = PlaceholderSource::numbered();
    sql_update_with_placeholders("Users", &cols()[0], &cols()[1..], &mut pls, &mut w);
    assert_eq!(w, "UPDATE Users SET name = $1, email = $2 WHERE id = $3");

    let e = BoolExpr::Lt("id", Expr::Val(SqlVal::BigInt(5)));
    let (sql, values) = delete_where_sql("Users", &e, PlaceholderSource::numbered());
    assert_eq!(sql, "DELETE FROM Users WHERE id < $1");
    assert_eq!(values.len(), 1);
}

#[test]
fn upsert_statement() {
    let mut w = String::new();
    let c = cols();
    sql_insert_or_replace_with_placeholders("Users", &c, &c[0], &mut w);
    assert_eq!(
        w,
        "INSERT INTO Users (id, name, email) VALUES ($1, $2, $3) ON CONFLICT (id) DO UPDATE SET \
         (id, name, email) = (excluded.id, excluded.name, excluded.email)"
    );
}

#[test]
fn values_round_trip_through_native_form() {
    let cases = vec![
        (SqlVal::Bool(true), SqlType::Bool),
        (SqlVal::Int(-5), SqlType::Int),
        (SqlVal::BigInt(i64::MAX), SqlType::BigInt),
        (SqlVal::Real(2.5f64.to_bits()), SqlType::Real),
        (text("héllo"), SqlType::Text),
        (SqlVal::Blob(vec![1, 2, 3]), SqlType::Blob),
        (SqlVal::Timestamp(-86_400_000_000), SqlType::Timestamp),
        (SqlVal::Null, SqlType::Text),
        (SqlVal::Null, SqlType::Bool),
    ];
    for (v, ty) in cases {
        let native = encode(&v.as_ref());
        let back = sql_val_from_postgres(&native, &Column::new("c", ty)).unwrap();
        assert_eq!(format!("{:?}", back), format!("{:?}", v));
    }
}

#[test]
fn native_forms_per_type() {
    assert!(matches!(encode(&SqlVal::Int(1).as_ref()), PgValue::Int4(1)));
    assert!(matches!(encode(&SqlVal::BigInt(1).as_ref()), PgValue::Int8(1)));
    assert!(matches!(encode(&SqlVal::Null.as_ref()), PgValue::Null));
    assert!(matches!(encode(&text("a").as_ref()), PgValue::Text(s) if s == "a"));
}

#[test]
fn mismatched_result_type_is_an_error() {
    let r = sql_val_from_postgres(&PgValue::Int4(3), &Column::new("name", SqlType::Text));
    match r {
        Err(Error::SqlResultTypeMismatch { col, detail }) => {
            assert_eq!(col, "name");
            assert_eq!(detail, "Int is not compatible with expected column type Text");
        }
        other => panic!("unexpected {:?}", other),
    }
}

#[test]
fn rows_decode_in_column_order() {
    let natives = vec![PgValue::Int8(1), PgValue::Text("bob".to_string()), PgValue::Null];
    let row = row_from_postgres(&natives, &cols()).unwrap();
    assert_eq!(row.len(), 3);
    assert_eq!(row.get_int(0).unwrap(), 1);
    assert!(matches!(row.get(2), Ok(SqlVal::Null)));
    assert!(matches!(row.get(3), Err(Error::BoundsError)));
    assert!(row.get_bool(1).is_err());
    let bad = vec![PgValue::Bool(true), PgValue::Null, PgValue::Null];
    assert!(matches!(
        row_from_postgres(&bad, &cols()),
        Err(Error::SqlResultTypeMismatch { .. })
    ));
}

#[test]
fn row_accessors() {
    let row = Row::new(vec![SqlVal::Bool(true), SqlVal::Int(4)]);
    assert!(row.get_bool(0).unwrap());
    assert_eq!(row.get_int(1).unwrap(), 4);
    assert!(matches!(row.get_int(0), Err(Error::CannotConvertSqlVal(SqlType::BigInt))));
    assert!(matches!(BackendRow::get(&row, 1, SqlType::Int), Ok(_)));
    assert!(BackendRow::get(&row, 1, SqlType::Text).is_err());
}

#[test]
fn vec_rows_hand_out_each_row_once() {
    let mut rows = VecRows::new(vec![1, 2]);
    assert!(rows.current().is_none());
    assert_eq!(rows.next(), Some(&1));
    assert_eq!(rows.current(), Some(&1));
    assert_eq!(rows.next(), Some(&2));
    assert_eq!(rows.next(), None);
    assert_eq!(rows.next(), None);
    assert_eq!(rows.current(), Some(&2));
}

#[test]
fn backends_by_name() {
    assert_eq!(get_backend("pg").unwrap().name(), "pg");
    assert!(get_backend("mysql").is_none());
    let spec = ConnectionSpec::new("oracle".to_string(), "x".to_string());
    match backend_for_spec(&spec) {
        Err(Error::UnknownBackend(n)) => assert_eq!(n, "oracle"),
        other => panic!("unexpected {:?}", other),
    }
    let spec = ConnectionSpec::new("pg".to_string(), "host=localhost".to_string());
    assert!(backend_for_spec(&spec).is_ok());
}

#[test]
fn runner_applies_pending_in_order_and_stops_on_failure() {
    let chain: Vec<String> = vec!["a".into(), "b".into(), "c".into(), "d".into()];
    let applied: Vec<String> = vec!["a".into()];
    assert_eq!(unapplied_migrations(&chain, &applied), vec!["b", "c", "d"]);
    let mut run = MigrationRunner::new(&chain, &applied);
    assert_eq!(run.next_action(), RunAction::Apply(0));
    assert_eq!(run.pending_name(0), "b");
    run.record(true);
    assert_eq!(run.next_action(), RunAction::Apply(1));
    run.record(false);
    assert_eq!(run.next_action(), RunAction::Stopped);
    assert_eq!(run.applied_names(), vec!["b"]);
}

#[test]
fn runner_on_applied_chain_is_done() {
    let chain: Vec<String> = vec!["a".into()];
    let run = MigrationRunner::new(&chain, &chain);
    assert_eq!(run.next_action(), RunAction::Done);
    assert!(run.applied_names().is_empty());
}

#[test]
fn dropped_transaction_is_rolled_back() {
    let t = TransactionState::begin();
    assert!(t.rollback_on_drop());
    let mut t = TransactionState::begin();
    assert!(t.finish().is_ok());
    assert!(!t.rollback_on_drop());
    assert!(matches!(t.finish(), Err(Error::Internal)));
}

#[test]
fn migration_sql_through_backend() {
    let mut t = ATable::new("T".to_string());
    t.add_column(AColumn::new("id".to_string(), DeferredSqlType::Known(SqlType::Int), false, true, true, None));
    let sql = get_backend("pg")
        .unwrap()
        .create_migration_sql(&ADB::new(), &vec![Operation::AddTable(t)])
        .unwrap();
    assert_eq!(sql, "CREATE TABLE T (\nid SERIAL NOT NULL PRIMARY KEY\n);");
}

#[test]
fn row_length_mismatch_is_a_bounds_error() {
    let natives = vec![PgValue::Int8(1)];
    assert!(matches!(row_from_postgres(&natives, &cols()), Err(Error::BoundsError)));
}

#[test]
fn first_failing_column_is_named() {
    let natives = vec![PgValue::Int8(1), PgValue::Bool(true), PgValue::Int4(2)];
    match row_from_postgres(&natives, &cols()) {
        Err(Error::SqlResultTypeMismatch { col, detail }) => {
            assert_eq!(col, "name");
            assert_eq!(detail, "Bool is not compatible with expected column type Text");
        }
        other => panic!("unexpected {:?}", other),
    }
}

#[test]
fn update_parameters_follow_markers() {
    let p = update_params(&[SqlValRef::Text("a"), SqlValRef::Int(2)], &SqlValRef::BigInt(9));
    assert_eq!(p.len(), 3);
    assert!(matches!(&p[0], PgValue::Text(s) if s == "a"));
    assert!(matches!(p[1], PgValue::Int4(2)));
    assert!(matches!(p[2], PgValue::Int8(9)));
}

#[test]
fn get_bool_on_other_type() {
    let row = Row::new(vec![SqlVal::Int(1)]);
    assert!(matches!(row.get_bool(0), Err(Error::CannotConvertSqlVal(SqlType::Bool))));
    assert!(matches!(BackendRow::get(&row, 5, SqlType::Int), Err(Error::BoundsError)));
}
