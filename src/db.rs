//! Rows, connection descriptors and the choice of backend.

use vstd::prelude::*;
use crate::adb::{op_views, Operation, ADB};
use crate::ddl::{migration_text, Dialect};
use crate::error::{text_result, Error, Result};
use crate::pg::PgBackend;
use crate::sqlite::SQLiteBackend;
use crate::types::{value_views, SqlType, SqlVal, Value};

verus! {

/// How an object is written back.
#[derive(Clone, Copy, Debug, PartialEq, Eq, Structural)]
pub enum Modification {
    InsertOnly,
}

/// The name a backend of dialect `d` is known under.
pub open spec fn backend_name_text(d: Dialect) -> Seq<char> {
    match d {
        Dialect::Pg => crate::pg::BACKEND_NAME@,
        Dialect::Sqlite => crate::sqlite::BACKEND_NAME@,
    }
}

/// What every backend offers: its name and the DDL of a migration.
pub trait Backend {
    /// The dialect the backend writes its DDL in.
    spec fn dialect(&self) -> Dialect;

    fn name(&self) -> (r: &'static str)
        ensures
            r@ == backend_name_text(self.dialect()),
    ;

    /// The SQL of a migration: the operations rendered left to right in the
    /// backend's dialect, each against the schema the ones before it left,
    /// one per line; the error of the first operation that fails. `current`
    /// is not changed.
    fn create_migration_sql(&self, current: &ADB, ops: &Vec<Operation>) -> (r: Result<String>)
        ensures
            text_result(r, migration_text(self.dialect(), current@, op_views(ops@))),
    ;
}

/// One row of a query result, its values in column order.
#[derive(Debug)]
pub struct Row {
    vals: Vec<SqlVal>,
}

impl View for Row {
    type V = Seq<Value>;

    closed spec fn view(&self) -> Seq<Value> {
        value_views(self.vals@)
    }
}

impl Row {
    pub fn new(vals: Vec<SqlVal>) -> (r: Row)
        ensures
            r@ == value_views(vals@),
    {
        Row { vals }
    }

    pub fn len(&self) -> (r: usize)
        ensures
            r == self@.len(),
    {
        self.vals.len()
    }

    /// The value at `idx`, or `BoundsError` past the end.
    pub fn get(&self, idx: usize) -> (r: Result<&SqlVal>)
        ensures
            idx < self@.len() ==> (r matches Ok(v) && v@ == self@[idx as int]),
            idx >= self@.len() ==> r matches Err(Error::BoundsError),
    {
        if idx < self.vals.len() {
            Ok(&self.vals[idx])
        } else {
            Err(Error::BoundsError)
        }
    }

    /// The integer at `idx`.
    pub fn get_int(&self, idx: usize) -> (r: Result<i64>)
        ensures
            idx >= self@.len() ==> r matches Err(Error::BoundsError),
            idx < self@.len() ==> match self@[idx as int] {
                Value::Int(i) => r == Ok::<i64, Error>(i as i64),
                Value::BigInt(i) => r == Ok::<i64, Error>(i),
                _ => r matches Err(Error::CannotConvertSqlVal(SqlType::BigInt)),
            },
    {
        match self.get(idx) {
            Ok(v) => v.integer(),
            Err(e) => Err(e),
        }
    }

    /// The boolean at `idx`.
    pub fn get_bool(&self, idx: usize) -> (r: Result<bool>)
        ensures
            idx >= self@.len() ==> r matches Err(Error::BoundsError),
            idx < self@.len() ==> match self@[idx as int] {
                Value::Bool(b) => r == Ok::<bool, Error>(b),
                _ => r matches Err(Error::CannotConvertSqlVal(SqlType::Bool)),
            },
    {
        match self.get(idx) {
            Ok(v) => v.bool(),
            Err(e) => Err(e),
        }
    }

    /// The values, in column order.
    pub fn into_values(self) -> (r: Vec<SqlVal>)
        ensures
            value_views(r@) == self@,
    {
        self.vals
    }
}

/// How to reach a database: the backend's name and its connection string.
#[derive(Debug)]
pub struct ConnectionSpec {
    pub backend_name: String,
    pub conn_str: String,
}

impl ConnectionSpec {
    pub fn new(backend_name: String, conn_str: String) -> (r: ConnectionSpec)
        ensures
            r.backend_name@ == backend_name@,
            r.conn_str@ == conn_str@,
    {
        ConnectionSpec { backend_name, conn_str }
    }
}

/// One of the backends this library knows.
#[derive(Clone, Copy, Debug)]
pub enum AnyBackend {
    Pg(PgBackend),
    Sqlite(SQLiteBackend),
}

impl Backend for AnyBackend {
    open spec fn dialect(&self) -> Dialect {
        match self {
            AnyBackend::Pg(_) => Dialect::Pg,
            AnyBackend::Sqlite(_) => Dialect::Sqlite,
        }
    }

    fn name(&self) -> &'static str {
        match self {
            AnyBackend::Pg(b) => b.name(),
            AnyBackend::Sqlite(b) => b.name(),
        }
    }

    fn create_migration_sql(&self, current: &ADB, ops: &Vec<Operation>) -> Result<String> {
        match self {
            AnyBackend::Pg(b) => b.create_migration_sql(current, ops),
            AnyBackend::Sqlite(b) => b.create_migration_sql(current, ops),
        }
    }
}

/// The backend known under `name`.
pub fn get_backend(name: &str) -> (r: Option<AnyBackend>)
    ensures
        name@ == crate::pg::BACKEND_NAME@ ==> r matches Some(AnyBackend::Pg(_)),
        name@ == crate::sqlite::BACKEND_NAME@ ==> r matches Some(AnyBackend::Sqlite(_)),
        name@ != crate::pg::BACKEND_NAME@ && name@ != crate::sqlite::BACKEND_NAME@ ==> r is None,
{
    proof {
        reveal_strlit("pg");
        reveal_strlit("sqlite");
        assert(crate::pg::BACKEND_NAME@.len() != crate::sqlite::BACKEND_NAME@.len());
    }
    if crate::text::same_text(name, crate::pg::BACKEND_NAME) {
        Some(AnyBackend::Pg(PgBackend::new()))
    } else if crate::text::same_text(name, crate::sqlite::BACKEND_NAME) {
        Some(AnyBackend::Sqlite(SQLiteBackend::new()))
    } else {
        None
    }
}

/// Whether a backend is known under `name`.
pub open spec fn is_known_backend(name: Seq<char>) -> bool {
    name == crate::pg::BACKEND_NAME@ || name == crate::sqlite::BACKEND_NAME@
}

/// The backend a connection descriptor names, or `UnknownBackend` with
/// that name.
pub fn backend_for_spec(spec: &ConnectionSpec) -> (r: Result<AnyBackend>)
    ensures
        spec.backend_name@ == crate::pg::BACKEND_NAME@ ==> (r matches Ok(AnyBackend::Pg(_))),
        spec.backend_name@ == crate::sqlite::BACKEND_NAME@ ==> (r matches Ok(AnyBackend::Sqlite(_))),
        !is_known_backend(spec.backend_name@) ==> (r matches Err(Error::UnknownBackend(n)) && n@
            == spec.backend_name@),
{
    match get_backend(spec.backend_name.as_str()) {
        Some(b) => Ok(b),
        None => Err(Error::UnknownBackend(spec.backend_name.clone())),
    }
}

} // verus!
