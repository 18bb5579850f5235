use butane_core::adb::{AColumn, ATable, DeferredSqlType, Operation, TypeKey, ADB};
use butane_core::error::Error;
use butane_core::ddl::{
    add_column, change_column, col_sqltype, copy_table, create_migration_sql, create_table,
    define_column, drop_table, remove_column, sql_for_op, sql_literal_value, tmp_table_name, Dialect,
};
use butane_core::types::{SqlType, SqlVal};

fn col(name: &str, ty: SqlType, nullable: bool, pk: bool, auto: bool, default: Option<SqlVal>) -> AColumn {
    AColumn::new(name.to_string(), DeferredSqlType::Known(ty), nullable, pk, auto, default)
}

fn users() -> ATable {
    let mut t = ATable::new("Users".to_string());
    t.add_column(col("id", SqlType::BigInt, false, true, true, None));
    t.add_column(col("name", SqlType::Text, false, false, false, None));
    t
}

fn column_names(db: &ADB, table: &str) -> Vec<String> {
    db.get_table(table)
        .unwrap()
        .columns
        .iter()
        .map(|c| c.name().to_string())
        .collect()
}

#[test]
fn create_table_lists_columns_in_order() {
    let sql = create_table(Dialect::Pg, &users()).unwrap();
    assert_eq!(
        sql,
        "CREATE TABLE Users (\nid BIGSERIAL NOT NULL PRIMARY KEY,\nname TEXT NOT NULL\n);"
    );
}

#[test]
fn define_column_without_constraints_keeps_separator() {
    let c = col("email", SqlType::Text, true, false, false, None);
    assert_eq!(define_column(Dialect::Pg, &c).unwrap(), "email TEXT ");
}

#[test]
fn auto_increment_on_text_is_an_error() {
    let c = col("id", SqlType::Text, false, true, true, None);
    match col_sqltype(Dialect::Pg, &c) {
        Err(Error::InvalidAuto(name)) => assert_eq!(name, "id"),
        other => panic!("unexpected {:?}", other),
    }
    assert!(create_table(Dialect::Pg, &{
        let mut t = ATable::new("T".to_string());
        t.add_column(c);
        t
    })
    .is_err());
}

#[test]
fn auto_increment_type_names() {
    let c = col("id", SqlType::Int, false, true, true, None);
    assert_eq!(col_sqltype(Dialect::Pg, &c).unwrap(), "SERIAL");
    let c = col("id", SqlType::BigInt, false, true, true, None);
    assert_eq!(col_sqltype(Dialect::Pg, &c).unwrap(), "BIGSERIAL");
    let c = col("r", SqlType::Real, false, false, false, None);
    assert_eq!(col_sqltype(Dialect::Pg, &c).unwrap(), "DOUBLE PRECISION");
    let c = col("b", SqlType::Blob, false, false, false, None);
    assert_eq!(col_sqltype(Dialect::Pg, &c).unwrap(), "BYTEA");
}

#[test]
fn deferred_type_is_unresolved() {
    let c = AColumn::new(
        "blog".to_string(),
        DeferredSqlType::Deferred(TypeKey::PK("Blog".to_string())),
        false,
        false,
        false,
        None,
    );
    assert!(matches!(col_sqltype(Dialect::Pg, &c), Err(Error::UnresolvedType(_))));
}

#[test]
fn simple_statements() {
    assert_eq!(drop_table("Users"), "DROP TABLE Users;");
    assert_eq!(remove_column("Users", "email"), "ALTER TABLE Users DROP COLUMN email;");
    assert_eq!(tmp_table_name("Users"), "Users__butane_tmp");
}

#[test]
fn added_column_gets_synthesized_default() {
    let c = col("age", SqlType::Int, false, false, false, None);
    assert_eq!(
        add_column(Dialect::Pg, "Users", &c).unwrap(),
        "ALTER TABLE Users ADD COLUMN age INTEGER NOT NULL DEFAULT 0;"
    );
    let c = col("nick", SqlType::Text, false, false, false, None);
    assert_eq!(
        add_column(Dialect::Pg, "Users", &c).unwrap(),
        "ALTER TABLE Users ADD COLUMN nick TEXT NOT NULL DEFAULT '';"
    );
    let c = col("ok", SqlType::Bool, false, false, false, None);
    assert_eq!(
        add_column(Dialect::Pg, "Users", &c).unwrap(),
        "ALTER TABLE Users ADD COLUMN ok BOOLEAN NOT NULL DEFAULT false;"
    );
    let c = col("note", SqlType::Text, true, false, false, None);
    assert_eq!(
        add_column(Dialect::Pg, "Users", &c).unwrap(),
        "ALTER TABLE Users ADD COLUMN note TEXT  DEFAULT '';"
    );
}

#[test]
fn added_column_uses_explicit_default() {
    let c = col("level", SqlType::BigInt, false, false, false, Some(SqlVal::BigInt(-42)));
    assert_eq!(
        add_column(Dialect::Pg, "Users", &c).unwrap(),
        "ALTER TABLE Users ADD COLUMN level BIGINT NOT NULL DEFAULT -42;"
    );
}

#[test]
fn literal_values() {
    assert_eq!(sql_literal_value(Dialect::Pg, &SqlVal::Null), "NULL");
    assert_eq!(sql_literal_value(Dialect::Pg, &SqlVal::Bool(true)), "true");
    assert_eq!(sql_literal_value(Dialect::Pg, &SqlVal::Int(i32::MIN)), "-2147483648");
    assert_eq!(sql_literal_value(Dialect::Pg, &SqlVal::BigInt(i64::MIN)), "-9223372036854775808");
    assert_eq!(sql_literal_value(Dialect::Pg, &SqlVal::Text("it's".to_string())), "'it''s'");
    assert_eq!(sql_literal_value(Dialect::Pg, &SqlVal::Blob(vec![0x00, 0xab, 0x7f])), "x'00AB7F'");
    assert_eq!(
        sql_literal_value(Dialect::Pg, &SqlVal::Timestamp(1_500_000)),
        "(TIMESTAMP 'epoch' + INTERVAL '1500000 microseconds')"
    );
}

#[test]
fn real_literals_are_exact() {
    assert_eq!(sql_literal_value(Dialect::Pg, &SqlVal::Real(0.0f64.to_bits())), "0.0");
    assert_eq!(
        sql_literal_value(Dialect::Pg, &SqlVal::Real(1.0f64.to_bits())),
        "(4503599627370496 * POWER(2::DOUBLE PRECISION, -52))"
    );
    assert_eq!(
        sql_literal_value(Dialect::Pg, &SqlVal::Real((-0.5f64).to_bits())),
        "(-4503599627370496 * POWER(2::DOUBLE PRECISION, -53))"
    );
    assert_eq!(
        sql_literal_value(Dialect::Pg, &SqlVal::Real(f64::NAN.to_bits())),
        "'NaN'::DOUBLE PRECISION"
    );
    assert_eq!(
        sql_literal_value(Dialect::Pg, &SqlVal::Real(f64::NEG_INFINITY.to_bits())),
        "'-Infinity'::DOUBLE PRECISION"
    );
}

#[test]
fn copy_table_selects_new_columns() {
    let old = users();
    let mut new = users();
    new.name = "Users__butane_tmp".to_string();
    new.remove_column("name");
    assert_eq!(
        copy_table(&old, &new),
        "INSERT INTO Users__butane_tmp SELECT id FROM Users;"
    );
}

#[test]
fn change_column_on_missing_table_is_a_no_op() {
    let mut db = ADB::new();
    let c = col("email", SqlType::Text, false, false, false, None);
    assert_eq!(change_column(Dialect::Pg, &mut db, "Nope", &c, Some(&c)).unwrap(), "");
    assert!(db.tables().is_empty());
}

#[test]
fn change_column_rebuilds_table() {
    let mut db = ADB::new();
    db.replace_table(users());
    let old = col("name", SqlType::Text, false, false, false, None);
    let new = col("name", SqlType::Text, true, false, false, None);
    let sql = change_column(Dialect::Pg, &mut db, "Users", &old, Some(&new)).unwrap();
    assert_eq!(
        sql,
        "CREATE TABLE Users__butane_tmp (\nid BIGSERIAL NOT NULL PRIMARY KEY,\nname TEXT \n);\n\
         INSERT INTO Users__butane_tmp SELECT id, name FROM Users;\n\
         DROP TABLE Users;\n\
         ALTER TABLE Users__butane_tmp RENAME TO Users;"
    );
    let t = db.get_table("Users").unwrap();
    assert_eq!(column_names(&db, "Users"), vec!["id", "name"]);
    assert!(t.columns[1].nullable());
}

#[test]
fn change_column_to_none_drops_the_column() {
    let mut db = ADB::new();
    db.replace_table(users());
    let old = col("name", SqlType::Text, false, false, false, None);
    let sql = change_column(Dialect::Pg, &mut db, "Users", &old, None).unwrap();
    assert!(sql.contains("INSERT INTO Users__butane_tmp SELECT id FROM Users;"));
    assert_eq!(column_names(&db, "Users"), vec!["id"]);
}

#[test]
fn sql_for_op_updates_snapshot() {
    let mut db = ADB::new();
    let sql = sql_for_op(Dialect::Pg, &mut db, &Operation::AddTable(users())).unwrap();
    assert!(sql.starts_with("CREATE TABLE Users"));
    assert_eq!(column_names(&db, "Users"), vec!["id", "name"]);
    let sql = sql_for_op(Dialect::Pg, &mut db, &Operation::RemoveTable("Users".to_string())).unwrap();
    assert_eq!(sql, "DROP TABLE Users;");
    assert!(db.get_table("Users").is_none());
}

#[test]
fn failing_operation_leaves_snapshot() {
    let mut db = ADB::new();
    let mut bad = ATable::new("T".to_string());
    bad.add_column(col("id", SqlType::Text, false, true, true, None));
    assert!(sql_for_op(Dialect::Pg, &mut db, &Operation::AddTable(bad)).is_err());
    assert!(db.tables().is_empty());
}

fn migrations() -> Vec<Vec<Operation>> {
    vec![
        vec![Operation::AddTable(users())],
        vec![Operation::AddColumn(
            "Users".to_string(),
            col("email", SqlType::Text, true, false, false, Some(SqlVal::Text(String::new()))),
        )],
        vec![Operation::ChangeColumn(
            "Users".to_string(),
            col("email", SqlType::Text, true, false, false, Some(SqlVal::Text(String::new()))),
            col("email", SqlType::Text, false, false, false, Some(SqlVal::Text("none".to_string()))),
        )],
    ]
}

#[test]
fn three_migrations_from_empty_schema() {
    let mut db = ADB::new();
    let mut sqls = Vec::new();
    for ops in migrations() {
        sqls.push(create_migration_sql(Dialect::Pg, &db, &ops).unwrap());
        db.transform_with_all(&ops);
    }
    assert_eq!(
        sqls[0],
        "CREATE TABLE Users (\nid BIGSERIAL NOT NULL PRIMARY KEY,\nname TEXT NOT NULL\n);"
    );
    assert_eq!(sqls[1], "ALTER TABLE Users ADD COLUMN email TEXT  DEFAULT '';");
    assert_eq!(
        sqls[2],
        "CREATE TABLE Users__butane_tmp (\nid BIGSERIAL NOT NULL PRIMARY KEY,\nname TEXT NOT NULL,\nemail TEXT NOT NULL\n);\n\
         INSERT INTO Users__butane_tmp SELECT id, name, email FROM Users;\n\
         DROP TABLE Users;\n\
         ALTER TABLE Users__butane_tmp RENAME TO Users;"
    );
    assert_eq!(column_names(&db, "Users"), vec!["id", "name", "email"]);
    let email = &db.get_table("Users").unwrap().columns[2];
    assert!(!email.nullable());
}

#[test]
fn later_operations_see_earlier_ones() {
    let ops = vec![
        Operation::AddTable(users()),
        Operation::ChangeColumn(
            "Users".to_string(),
            col("name", SqlType::Text, false, false, false, None),
            col("name", SqlType::Text, true, false, false, None),
        ),
    ];
    let sql = create_migration_sql(Dialect::Pg, &ADB::new(), &ops).unwrap();
    let lines: Vec<&str> = sql.split('\n').collect();
    assert!(lines[0].starts_with("CREATE TABLE Users ("));
    assert!(sql.contains("ALTER TABLE Users__butane_tmp RENAME TO Users;"));
}

#[test]
fn folding_at_once_matches_replaying() {
    let all: Vec<Operation> = migrations().into_iter().flatten().collect();
    let mut once = ADB::new();
    once.transform_with_all(&all);
    let mut replayed = ADB::new();
    for op in &all {
        replayed.transform_with(op);
    }
    assert_eq!(format!("{:?}", once), format!("{:?}", replayed));
    assert_eq!(column_names(&once, "Users"), vec!["id", "name", "email"]);
}

#[test]
fn add_table_replaces_same_name() {
    let mut db = ADB::new();
    db.replace_table(users());
    db.replace_table(ATable::new("Users".to_string()));
    assert_eq!(db.tables().len(), 1);
    assert!(db.get_table("Users").unwrap().columns.is_empty());
}

#[test]
fn remove_column_from_snapshot() {
    let mut db = ADB::new();
    db.transform_with(&Operation::AddTable(users()));
    db.transform_with(&Operation::RemoveColumn("Users".to_string(), "name".to_string()));
    assert_eq!(column_names(&db, "Users"), vec!["id"]);
}

#[test]
fn column_errors_pass_through() {
    let bad = AColumn::new(
        "blog".to_string(),
        DeferredSqlType::Deferred(TypeKey::PK("Blog".to_string())),
        false,
        false,
        false,
        None,
    );
    assert!(matches!(define_column(Dialect::Pg, &bad), Err(Error::UnresolvedType(k)) if k == "Blog"));
    let mut t = ATable::new("T".to_string());
    t.add_column(col("a", SqlType::Text, false, false, true, None));
    t.add_column(bad);
    assert!(matches!(create_table(Dialect::Pg, &t), Err(Error::InvalidAuto(n)) if n == "a"));
}

#[test]
fn failed_column_change_reports_create_error() {
    let mut db = ADB::new();
    db.replace_table(users());
    let old = col("name", SqlType::Text, false, false, false, None);
    let new = col("name", SqlType::Text, false, false, true, None);
    let r = change_column(Dialect::Pg, &mut db, "Users", &old, Some(&new));
    assert!(matches!(r, Err(Error::InvalidAuto(n)) if n == "name"));
    assert!(!db.get_table("Users").unwrap().columns[1].is_auto());
}

#[test]
fn migration_stops_at_first_failing_operation() {
    let mut bad = ATable::new("Bad".to_string());
    bad.add_column(col("x", SqlType::Bool, false, true, true, None));
    let ops = vec![
        Operation::AddTable(users()),
        Operation::AddTable(bad),
        Operation::AddColumn(
            "Users".to_string(),
            AColumn::new(
                "k".to_string(),
                DeferredSqlType::Deferred(TypeKey::CustomType("K".to_string())),
                false,
                false,
                false,
                None,
            ),
        ),
    ];
    let r = create_migration_sql(Dialect::Pg, &ADB::new(), &ops);
    assert!(matches!(r, Err(Error::InvalidAuto(n)) if n == "x"));
}

#[test]
fn renaming_change_replaces_the_old_column() {
    let mut db = ADB::new();
    let mut t = ATable::new("T".to_string());
    t.add_column(col("a", SqlType::Int, false, true, false, None));
    t.add_column(col("b", SqlType::Text, false, false, false, None));
    db.replace_table(t);
    let old = col("b", SqlType::Text, false, false, false, None);
    let new = col("x", SqlType::Text, true, false, false, None);
    let sql = change_column(Dialect::Pg, &mut db, "T", &old, Some(&new)).unwrap();
    assert!(sql.starts_with("CREATE TABLE T__butane_tmp (\na INTEGER NOT NULL PRIMARY KEY,\nx TEXT \n);"));
    assert!(sql.contains("INSERT INTO T__butane_tmp SELECT a, x FROM T;"));
    assert_eq!(column_names(&db, "T"), vec!["a", "x"]);
}

#[test]
fn change_of_absent_column_keeps_table() {
    let mut db = ADB::new();
    db.replace_table(users());
    let old = col("ghost", SqlType::Text, false, false, false, None);
    let new = col("ghost", SqlType::Text, true, false, false, None);
    change_column(Dialect::Pg, &mut db, "Users", &old, Some(&new)).unwrap();
    assert_eq!(column_names(&db, "Users"), vec!["id", "name"]);
}
