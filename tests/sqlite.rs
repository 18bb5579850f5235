use butane_core::adb::{AColumn, ATable, DeferredSqlType, Operation, ADB};
use butane_core::connmethods::Column;
use butane_core::db::{backend_for_spec, get_backend, AnyBackend, Backend, ConnectionSpec};
use butane_core::ddl::{add_column, col_sqltype, create_table, sql_literal_value, Dialect};
use butane_core::error::Error;
use butane_core::sqlite::{
    encode, sql_insert_or_replace_with_placeholders, sql_val_from_sqlite, sqlite_backend,
    SqliteValue,
};
use butane_core::types::{SqlType, SqlVal};

fn col(name: &str, ty: SqlType, nullable: bool, pk: bool, auto: bool, default: Option<SqlVal>) -> AColumn {
    AColumn::new(name.to_string(), DeferredSqlType::Known(ty), nullable, pk, auto, default)
}

#[test]
fn sqlite_booleans_round_trip_as_integers() {
    for b in [true, false] {
        let stored = encode(&SqlVal::Bool(b).as_ref());
        assert!(matches!(stored, SqliteValue::Integer(i) if i == b as i64));
        let back = sql_val_from_sqlite(&stored, &Column::new("flag", SqlType::Bool)).unwrap();
        assert!(matches!(back, SqlVal::Bool(x) if x == b));
    }
}

#[test]
fn sqlite_values_round_trip() {
    let cases = vec![
        (SqlVal::Int(i32::MIN), SqlType::Int),
        (SqlVal::BigInt(i64::MIN), SqlType::BigInt),
        (SqlVal::Real((-1.25f64).to_bits()), SqlType::Real),
        (SqlVal::Text("a'b".to_string()), SqlType::Text),
        (SqlVal::Blob(vec![]), SqlType::Blob),
        (SqlVal::Timestamp(1_700_000_000_000_000), SqlType::Timestamp),
        (SqlVal::Null, SqlType::Blob),
    ];
    for (v, ty) in cases {
        let back = sql_val_from_sqlite(&encode(&v.as_ref()), &Column::new("c", ty)).unwrap();
        assert_eq!(format!("{:?}", back), format!("{:?}", v));
    }
}

#[test]
fn sqlite_integer_too_wide_for_int_is_a_mismatch() {
    let r = sql_val_from_sqlite(&SqliteValue::Integer(1 << 40), &Column::new("n", SqlType::Int));
    match r {
        Err(Error::SqlResultTypeMismatch { col, detail }) => {
            assert_eq!(col, "n");
            assert_eq!(detail, "Integer is not compatible with expected column type Int");
        }
        other => panic!("unexpected {:?}", other),
    }
    assert!(sql_val_from_sqlite(&SqliteValue::Real(0), &Column::new("t", SqlType::Text)).is_err());
}

#[test]
fn sqlite_ddl_types() {
    let mut t = ATable::new("Users".to_string());
    t.add_column(col("id", SqlType::BigInt, false, true, true, None));
    t.add_column(col("ok", SqlType::Bool, false, false, false, None));
    t.add_column(col("score", SqlType::Real, true, false, false, None));
    t.add_column(col("data", SqlType::Blob, true, false, false, None));
    assert_eq!(
        create_table(Dialect::Sqlite, &t).unwrap(),
        "CREATE TABLE Users (\nid INTEGER NOT NULL PRIMARY KEY,\nok INTEGER NOT NULL,\nscore REAL ,\ndata BLOB \n);"
    );
    let c = col("name", SqlType::Text, false, false, true, None);
    assert!(matches!(col_sqltype(Dialect::Sqlite, &c), Err(Error::InvalidAuto(_))));
}

#[test]
fn sqlite_literals() {
    assert_eq!(sql_literal_value(Dialect::Sqlite, &SqlVal::Bool(true)), "1");
    assert_eq!(sql_literal_value(Dialect::Sqlite, &SqlVal::Timestamp(-5)), "-5");
    assert_eq!(sql_literal_value(Dialect::Sqlite, &SqlVal::Real(f64::NAN.to_bits())), "NULL");
    assert_eq!(sql_literal_value(Dialect::Sqlite, &SqlVal::Real(f64::INFINITY.to_bits())), "9e999");
    assert_eq!(
        sql_literal_value(Dialect::Sqlite, &SqlVal::Real(0.75f64.to_bits())),
        "(6755399441055744 * POWER(2.0, -53))"
    );
    let c = col("ok", SqlType::Bool, false, false, false, None);
    assert_eq!(
        add_column(Dialect::Sqlite, "Users", &c).unwrap(),
        "ALTER TABLE Users ADD COLUMN ok INTEGER NOT NULL DEFAULT 0;"
    );
}

#[test]
fn sqlite_replace_statement() {
    let cols = [Column::new("id", SqlType::BigInt), Column::new("name", SqlType::Text)];
    let mut w = String::new();
    sql_insert_or_replace_with_placeholders("Users", &cols, &mut w);
    assert_eq!(w, "INSERT OR REPLACE INTO Users (id, name) VALUES (?, ?)");
}

#[test]
fn sqlite_backend_by_name() {
    assert_eq!(sqlite_backend().name(), "sqlite");
    assert!(matches!(get_backend("sqlite"), Some(AnyBackend::Sqlite(_))));
    assert!(matches!(get_backend("pg"), Some(AnyBackend::Pg(_))));
    let spec = ConnectionSpec::new("sqlite".to_string(), "db.sqlite".to_string());
    assert!(matches!(backend_for_spec(&spec), Ok(AnyBackend::Sqlite(_))));
    let mut t = ATable::new("T".to_string());
    t.add_column(col("id", SqlType::Int, false, true, true, None));
    let sql = sqlite_backend()
        .create_migration_sql(&ADB::new(), &vec![Operation::AddTable(t)])
        .unwrap();
    assert_eq!(sql, "CREATE TABLE T (\nid INTEGER NOT NULL PRIMARY KEY\n);");
}
