use butane_core::adb::{AColumn, ATable, DeferredSqlType, TypeKey, ADB};
use butane_core::connmethods::Column;
use butane_core::error::Error;
use butane_core::ddl::{create_table, Dialect};
use butane_core::pg::{insert_returning_pk_sql, HAS_TABLE_SQL};
use butane_core::types::{SqlType, SqlVal, SqlValRef};

fn known(name: &str, ty: SqlType, pk: bool) -> AColumn {
    AColumn::new(name.to_string(), DeferredSqlType::Known(ty), false, pk, false, None)
}

fn deferred(name: &str, key: TypeKey) -> AColumn {
    AColumn::new(name.to_string(), DeferredSqlType::Deferred(key), false, false, false, None)
}

fn schema() -> ADB {
    let mut db = ADB::new();
    let mut blog = ATable::new("Blog".to_string());
    blog.add_column(known("id", SqlType::BigInt, true));
    let mut post = ATable::new("Post".to_string());
    post.add_column(known("id", SqlType::Int, true));
    post.add_column(deferred("blog", TypeKey::PK("Blog".to_string())));
    post.add_column(deferred("mood", TypeKey::CustomType("Mood".to_string())));
    db.replace_table(blog);
    db.replace_table(post);
    db
}

#[test]
fn deferred_types_resolve_by_key() {
    let mut db = schema();
    db.resolve_types(&vec![("Mood".to_string(), SqlType::Text)]).unwrap();
    let post = db.get_table("Post").unwrap();
    assert_eq!(post.columns[1].sqltype().unwrap(), SqlType::BigInt);
    assert_eq!(post.columns[2].sqltype().unwrap(), SqlType::Text);
    assert_eq!(
        create_table(Dialect::Pg, post).unwrap(),
        "CREATE TABLE Post (\nid INTEGER NOT NULL PRIMARY KEY,\nblog BIGINT NOT NULL,\nmood TEXT NOT NULL\n);"
    );
}

#[test]
fn undeclared_key_is_unresolved_and_schema_unchanged() {
    let mut db = schema();
    match db.resolve_types(&Vec::new()) {
        Err(Error::UnresolvedType(k)) => assert_eq!(k, "Mood"),
        other => panic!("unexpected {:?}", other),
    }
    let post = db.get_table("Post").unwrap();
    assert!(post.columns[1].sqltype().is_err());
}

#[test]
fn returning_insert_statement() {
    let cols = [Column::new("name", SqlType::Text)];
    let pk = Column::new("id", SqlType::BigInt);
    assert_eq!(
        insert_returning_pk_sql("Users", &cols, &pk),
        "INSERT INTO Users (name) VALUES ($1) RETURNING id"
    );
    assert!(HAS_TABLE_SQL.contains("information_schema.tables"));
}

#[test]
fn borrowed_and_owned_values_agree() {
    let v = SqlVal::Blob(vec![9, 8]);
    let r = v.as_ref();
    assert!(matches!(r, SqlValRef::Blob(b) if b == [9u8, 8].as_slice()));
    assert!(matches!(r.into_owned(), SqlVal::Blob(b) if b == vec![9, 8]));
    assert!(matches!(SqlValRef::Text("x").into_owned(), SqlVal::Text(s) if s == "x"));
    assert!(v.is_compatible(SqlType::Blob, false));
    assert!(!v.is_compatible(SqlType::Text, true));
    assert!(SqlVal::Null.is_compatible(SqlType::Int, true));
    assert!(!SqlVal::Null.is_compatible(SqlType::Int, false));
}

#[test]
fn value_accessors() {
    assert_eq!(SqlVal::Int(-3).integer().unwrap(), -3);
    assert_eq!(SqlVal::Real(7).real_bits().unwrap(), 7);
    assert!(matches!(SqlVal::Null.bool(), Err(Error::CannotConvertSqlVal(SqlType::Bool))));
}
