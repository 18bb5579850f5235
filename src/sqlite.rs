//! The SQLite backend. SQLite stores integers, reals, text and blobs only:
//! a boolean is stored as 0 or 1 and a timestamp as its microseconds, and
//! the column's declared type says how to read them back.

use vstd::prelude::*;
use crate::adb::{Operation, ADB};
use crate::connmethods::Column;
use crate::db::Backend;
use crate::ddl::{create_migration_sql, Dialect};
use crate::error::{Error, Result};
use crate::pg::{sql_type_label, type_text};
use crate::sql::{column_list, list_columns, list_placeholders, placeholder_list, PlaceholderSource};
use crate::types::{value_fits, SqlType, SqlVal, SqlValRef, Value};

verus! {

/// The name under which this backend is known.
pub const BACKEND_NAME: &'static str = "sqlite";

/// The SQLite backend.
#[derive(Clone, Copy, Debug)]
pub struct SQLiteBackend {}

impl SQLiteBackend {
    pub fn new() -> SQLiteBackend {
        SQLiteBackend {}
    }
}

impl Backend for SQLiteBackend {
    open spec fn dialect(&self) -> Dialect {
        Dialect::Sqlite
    }

    fn name(&self) -> &'static str {
        BACKEND_NAME
    }

    fn create_migration_sql(&self, current: &ADB, ops: &Vec<Operation>) -> Result<String> {
        create_migration_sql(Dialect::Sqlite, current, ops)
    }
}

/// A value as SQLite stores it.
#[derive(Debug)]
pub enum SqliteValue {
    Null,
    Integer(i64),
    Real(u64),
    Text(String),
    Blob(Vec<u8>),
}

pub enum SqliteModel {
    Null,
    Integer(i64),
    Real(u64),
    Text(Seq<char>),
    Blob(Seq<u8>),
}

impl View for SqliteValue {
    type V = SqliteModel;

    open spec fn view(&self) -> SqliteModel {
        match self {
            SqliteValue::Null => SqliteModel::Null,
            SqliteValue::Integer(i) => SqliteModel::Integer(*i),
            SqliteValue::Real(r) => SqliteModel::Real(*r),
            SqliteValue::Text(t) => SqliteModel::Text(t@),
            SqliteValue::Blob(b) => SqliteModel::Blob(b@),
        }
    }
}

/// The stored form of a value.
pub open spec fn sqlite_encoded(v: Value) -> SqliteModel {
    match v {
        Value::Null => SqliteModel::Null,
        Value::Bool(b) => SqliteModel::Integer(if b { 1 } else { 0 }),
        Value::Int(i) => SqliteModel::Integer(i as i64),
        Value::BigInt(i) => SqliteModel::Integer(i),
        Value::Real(r) => SqliteModel::Real(r),
        Value::Text(t) => SqliteModel::Text(t),
        Value::Blob(b) => SqliteModel::Blob(b),
        Value::Timestamp(t) => SqliteModel::Integer(t),
    }
}

/// The value a stored value stands for in a column of type `ty`; `None`
/// where it cannot be one. An integer is read as a boolean (non-zero is
/// true), an `Int` where it fits 32 bits, a `BigInt` or a timestamp.
pub open spec fn sqlite_decoded(n: SqliteModel, ty: SqlType) -> Option<Value> {
    match n {
        SqliteModel::Null => Some(Value::Null),
        SqliteModel::Integer(i) => match ty {
            SqlType::Bool => Some(Value::Bool(i != 0)),
            SqlType::Int => if i32::MIN <= i <= i32::MAX {
                Some(Value::Int(i as i32))
            } else {
                None
            },
            SqlType::BigInt => Some(Value::BigInt(i)),
            SqlType::Timestamp => Some(Value::Timestamp(i)),
            _ => None,
        },
        SqliteModel::Real(r) => if ty == SqlType::Real {
            Some(Value::Real(r))
        } else {
            None
        },
        SqliteModel::Text(t) => if ty == SqlType::Text {
            Some(Value::Text(t))
        } else {
            None
        },
        SqliteModel::Blob(b) => if ty == SqlType::Blob {
            Some(Value::Blob(b))
        } else {
            None
        },
    }
}

pub open spec fn stored_kind_text(n: SqliteModel) -> Seq<char> {
    match n {
        SqliteModel::Null => "Null"@,
        SqliteModel::Integer(_) => "Integer"@,
        SqliteModel::Real(_) => "Real"@,
        SqliteModel::Text(_) => "Text"@,
        SqliteModel::Blob(_) => "Blob"@,
    }
}

/// The stored form of a value, to be bound to a placeholder.
pub fn encode(v: &SqlValRef) -> (r: SqliteValue)
    ensures
        r@ == sqlite_encoded(v@),
{
    match v {
        SqlValRef::Null => SqliteValue::Null,
        SqlValRef::Bool(b) => SqliteValue::Integer(if *b { 1 } else { 0 }),
        SqlValRef::Int(i) => SqliteValue::Integer(*i as i64),
        SqlValRef::BigInt(i) => SqliteValue::Integer(*i),
        SqlValRef::Real(r) => SqliteValue::Real(*r),
        SqlValRef::Text(t) => SqliteValue::Text(String::from_str(t)),
        SqlValRef::Blob(b) => SqliteValue::Blob(vstd::slice::slice_to_vec(b)),
        SqlValRef::Timestamp(t) => SqliteValue::Integer(*t),
    }
}

fn stored_kind_name(n: &SqliteValue) -> (r: &'static str)
    ensures
        r@ == stored_kind_text(n@),
{
    match n {
        SqliteValue::Null => "Null",
        SqliteValue::Integer(_) => "Integer",
        SqliteValue::Real(_) => "Real",
        SqliteValue::Text(_) => "Text",
        SqliteValue::Blob(_) => "Blob",
    }
}

/// The value of a stored value read from column `col`; one that cannot
/// stand for a value of the column's type is a `SqlResultTypeMismatch`.
pub fn sql_val_from_sqlite(n: &SqliteValue, col: &Column) -> (r: Result<SqlVal>)
    ensures
        match sqlite_decoded(n@, col.ty) {
            Some(v) => r matches Ok(x) && x@ == v,
            None => r matches Err(Error::SqlResultTypeMismatch { col: c, detail: d }) && c@
                == col.name@ && d@ == stored_kind_text(n@) + " is not compatible with expected column type "@
                + type_text(col.ty),
        },
{
    let v = match n {
        SqliteValue::Null => Some(SqlVal::Null),
        SqliteValue::Integer(i) => match col.ty {
            SqlType::Bool => Some(SqlVal::Bool(*i != 0)),
            SqlType::Int => if i32::MIN as i64 <= *i && *i <= i32::MAX as i64 {
                Some(SqlVal::Int(*i as i32))
            } else {
                None
            },
            SqlType::BigInt => Some(SqlVal::BigInt(*i)),
            SqlType::Timestamp => Some(SqlVal::Timestamp(*i)),
            _ => None,
        },
        SqliteValue::Real(r) => if col.ty == SqlType::Real {
            Some(SqlVal::Real(*r))
        } else {
            None
        },
        SqliteValue::Text(t) => if col.ty == SqlType::Text {
            Some(SqlVal::Text(t.clone()))
        } else {
            None
        },
        SqliteValue::Blob(b) => if col.ty == SqlType::Blob {
            Some(SqlVal::Blob(b.clone()))
        } else {
            None
        },
    };
    match v {
        Some(x) => Ok(x),
        None => {
            let mut detail = String::from_str(stored_kind_name(n));
            detail.append(" is not compatible with expected column type ");
            detail.append(sql_type_label(col.ty));
            Err(Error::SqlResultTypeMismatch { col: String::from_str(col.name), detail })
        },
    }
}

/// Storing a value that fits a column and reading it back from that column
/// gives the value back, booleans and timestamps included; `Null` fits
/// every column.
pub proof fn lemma_sqlite_round_trip(v: Value, t: SqlType)
    requires
        value_fits(v, t, true),
    ensures
        sqlite_decoded(sqlite_encoded(v), t) == Some(v),
{
}

pub open spec fn replace_text(table: &str, cols: Seq<Column>) -> Seq<char> {
    "INSERT OR REPLACE INTO "@ + table@ + " ("@ + column_list(cols) + ") VALUES ("@ + placeholder_list(
        false,
        1,
        cols.len(),
    ) + ")"@
}

/// Appends an insert that replaces the row with the same primary key.
pub fn sql_insert_or_replace_with_placeholders(table: &str, columns: &[Column], w: &mut String)
    requires
        columns@.len() < u64::MAX,
    ensures
        final(w)@ == old(w)@ + replace_text(table, columns@),
{
    w.append("INSERT OR REPLACE INTO ");
    w.append(table);
    w.append(" (");
    list_columns(columns, w);
    w.append(") VALUES (");
    let mut pls = PlaceholderSource::positional();
    list_placeholders(columns.len(), &mut pls, w);
    w.append(")");
}

/// The SQLite backend.
pub fn sqlite_backend() -> SQLiteBackend {
    SQLiteBackend::new()
}

} // verus!
