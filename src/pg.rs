//! The PostgreSQL backend: its upsert, and the native form of values and
//! rows that its driver exchanges.

use vstd::prelude::*;
use crate::adb::{Operation, ADB};
use crate::connmethods::Column;
use crate::db::{Backend, Row};
use crate::ddl::{create_migration_sql, Dialect};
use crate::error::{Error, ErrorModel, Result};
use crate::sql::{
    column_list, list_columns, list_placeholders, placeholder_list, sql_insert_with_placeholders,
    PlaceholderSource,
};
use crate::types::{value_fits, value_views, SqlType, SqlVal, SqlValRef, Value};

verus! {

/// The name under which this backend is known.
pub const BACKEND_NAME: &'static str = "pg";

/// `excluded.<column>` for each column, separated by `, `.
pub open spec fn excluded_list(cols: Seq<Column>) -> Seq<char>
    decreases cols.len(),
{
    if cols.len() == 0 {
        Seq::empty()
    } else if cols.len() == 1 {
        "excluded."@ + cols[0].name@
    } else {
        excluded_list(cols.drop_last()) + ", "@ + "excluded."@ + cols.last().name@
    }
}

pub open spec fn upsert_text(table: &str, cols: Seq<Column>, pk: Column) -> Seq<char> {
    "INSERT INTO "@ + table@ + " ("@ + column_list(cols) + ") VALUES ("@ + placeholder_list(true, 1, cols.len())
        + ")"@ + " ON CONFLICT ("@ + pk.name@ + ") DO UPDATE SET ("@ + column_list(cols) + ") = ("@
        + excluded_list(cols) + ")"@
}

/// Appends an insert that, on a conflict on the primary key, updates the
/// row that is there with the values given.
pub fn sql_insert_or_replace_with_placeholders(
    table: &str,
    columns: &[Column],
    pkcol: &Column,
    w: &mut String,
)
    requires
        columns@.len() < u64::MAX,
    ensures
        final(w)@ == old(w)@ + upsert_text(table, columns@, *pkcol),
{
    let ghost start = w@;
    w.append("INSERT INTO ");
    w.append(table);
    w.append(" (");
    list_columns(columns, w);
    w.append(") VALUES (");
    let mut pls = PlaceholderSource::numbered();
    list_placeholders(columns.len(), &mut pls, w);
    w.append(")");
    w.append(" ON CONFLICT (");
    w.append(pkcol.name);
    w.append(") DO UPDATE SET (");
    list_columns(columns, w);
    w.append(") = (");
    let ghost mid = w@;
    let mut i: usize = 0;
    while i < columns.len()
        invariant
            i <= columns@.len(),
            w@ == mid + excluded_list(columns@.subrange(0, i as int)),
        decreases columns@.len() - i,
    {
        let ghost p = columns@.subrange(0, i + 1);
        assert(p.drop_last() =~= columns@.subrange(0, i as int));
        if i > 0 {
            w.append(", ");
        }
        w.append("excluded.");
        w.append(columns[i].name);
        i += 1;
        proof {
            if i == 1 {
                assert(w@ =~= mid + excluded_list(p));
            }
        }
        assert(w@ =~= mid + excluded_list(columns@.subrange(0, i as int)));
    }
    assert(columns@.subrange(0, i as int) =~= columns@);
    w.append(")");
    assert(w@ =~= start + upsert_text(table, columns@, *pkcol));
}

/// The query that tells whether a table exists; its one parameter is the
/// table's name.
pub const HAS_TABLE_SQL: &'static str = "SELECT table_name FROM information_schema.tables WHERE table_name=$1;";

/// An insert with numbered markers that returns the new row's primary key.
pub fn insert_returning_pk_sql(table: &str, columns: &[Column], pkcol: &Column) -> (r: String)
    requires
        columns@.len() < u64::MAX,
    ensures
        r@ == "INSERT INTO "@ + table@ + " ("@ + column_list(columns@) + ") VALUES ("@ + placeholder_list(
            true,
            1,
            columns@.len(),
        ) + ")"@ + " RETURNING "@ + pkcol.name@,
{
    let mut w = String::new();
    let mut pls = PlaceholderSource::numbered();
    sql_insert_with_placeholders(table, columns, &mut pls, &mut w);
    w.append(" RETURNING ");
    w.append(pkcol.name);
    w
}

/// The PostgreSQL backend.
#[derive(Clone, Copy, Debug)]
pub struct PgBackend {}

impl PgBackend {
    pub fn new() -> PgBackend {
        PgBackend {}
    }
}

impl Backend for PgBackend {
    open spec fn dialect(&self) -> Dialect {
        Dialect::Pg
    }

    fn name(&self) -> &'static str {
        BACKEND_NAME
    }

    fn create_migration_sql(&self, current: &ADB, ops: &Vec<Operation>) -> Result<String> {
        create_migration_sql(Dialect::Pg, current, ops)
    }
}

/// A value as the PostgreSQL driver carries it. PostgreSQL has a native
/// type for each of the library's types.
#[derive(Debug)]
pub enum PgValue {
    Null,
    Bool(bool),
    Int4(i32),
    Int8(i64),
    Float8(u64),
    Text(String),
    Bytea(Vec<u8>),
    Timestamp(i64),
}

pub enum PgModel {
    Null,
    Bool(bool),
    Int4(i32),
    Int8(i64),
    Float8(u64),
    Text(Seq<char>),
    Bytea(Seq<u8>),
    Timestamp(i64),
}

impl View for PgValue {
    type V = PgModel;

    open spec fn view(&self) -> PgModel {
        match self {
            PgValue::Null => PgModel::Null,
            PgValue::Bool(b) => PgModel::Bool(*b),
            PgValue::Int4(i) => PgModel::Int4(*i),
            PgValue::Int8(i) => PgModel::Int8(*i),
            PgValue::Float8(f) => PgModel::Float8(*f),
            PgValue::Text(t) => PgModel::Text(t@),
            PgValue::Bytea(b) => PgModel::Bytea(b@),
            PgValue::Timestamp(t) => PgModel::Timestamp(*t),
        }
    }
}

/// The native form of a value: one native type per tag.
pub open spec fn encoded(v: Value) -> PgModel {
    match v {
        Value::Null => PgModel::Null,
        Value::Bool(b) => PgModel::Bool(b),
        Value::Int(i) => PgModel::Int4(i),
        Value::BigInt(i) => PgModel::Int8(i),
        Value::Real(r) => PgModel::Float8(r),
        Value::Text(t) => PgModel::Text(t),
        Value::Blob(b) => PgModel::Bytea(b),
        Value::Timestamp(t) => PgModel::Timestamp(t),
    }
}

/// The value a native value stands for.
pub open spec fn decoded(n: PgModel) -> Value {
    match n {
        PgModel::Null => Value::Null,
        PgModel::Bool(b) => Value::Bool(b),
        PgModel::Int4(i) => Value::Int(i),
        PgModel::Int8(i) => Value::BigInt(i),
        PgModel::Float8(r) => Value::Real(r),
        PgModel::Text(t) => Value::Text(t),
        PgModel::Bytea(b) => Value::Blob(b),
        PgModel::Timestamp(t) => Value::Timestamp(t),
    }
}

pub open spec fn type_text(t: SqlType) -> Seq<char> {
    match t {
        SqlType::Bool => "Bool"@,
        SqlType::Int => "Int"@,
        SqlType::BigInt => "BigInt"@,
        SqlType::Real => "Real"@,
        SqlType::Text => "Text"@,
        SqlType::Blob => "Blob"@,
        SqlType::Timestamp => "Timestamp"@,
    }
}

pub open spec fn kind_text(v: Value) -> Seq<char> {
    match v {
        Value::Null => "Null"@,
        Value::Bool(_) => "Bool"@,
        Value::Int(_) => "Int"@,
        Value::BigInt(_) => "BigInt"@,
        Value::Real(_) => "Real"@,
        Value::Text(_) => "Text"@,
        Value::Blob(_) => "Blob"@,
        Value::Timestamp(_) => "Timestamp"@,
    }
}

/// The description of a value that does not fit its column.
pub open spec fn mismatch_detail(v: Value, t: SqlType) -> Seq<char> {
    kind_text(v) + " is not compatible with expected column type "@ + type_text(t)
}

/// The native form of a value, to be bound to a placeholder.
pub fn encode(v: &SqlValRef) -> (r: PgValue)
    ensures
        r@ == encoded(v@),
{
    match v {
        SqlValRef::Null => PgValue::Null,
        SqlValRef::Bool(b) => PgValue::Bool(*b),
        SqlValRef::Int(i) => PgValue::Int4(*i),
        SqlValRef::BigInt(i) => PgValue::Int8(*i),
        SqlValRef::Real(r) => PgValue::Float8(*r),
        SqlValRef::Text(t) => PgValue::Text(String::from_str(t)),
        SqlValRef::Blob(b) => PgValue::Bytea(vstd::slice::slice_to_vec(b)),
        SqlValRef::Timestamp(t) => PgValue::Timestamp(*t),
    }
}

pub(crate) fn kind_name(v: &SqlVal) -> (r: &'static str)
    ensures
        r@ == kind_text(v@),
{
    match v {
        SqlVal::Null => "Null",
        SqlVal::Bool(_) => "Bool",
        SqlVal::Int(_) => "Int",
        SqlVal::BigInt(_) => "BigInt",
        SqlVal::Real(_) => "Real",
        SqlVal::Text(_) => "Text",
        SqlVal::Blob(_) => "Blob",
        SqlVal::Timestamp(_) => "Timestamp",
    }
}

pub(crate) fn sql_type_label(t: SqlType) -> (r: &'static str)
    ensures
        r@ == type_text(t),
{
    match t {
        SqlType::Bool => "Bool",
        SqlType::Int => "Int",
        SqlType::BigInt => "BigInt",
        SqlType::Real => "Real",
        SqlType::Text => "Text",
        SqlType::Blob => "Blob",
        SqlType::Timestamp => "Timestamp",
    }
}

/// The native forms of the values, in order.
pub open spec fn encoded_all(vs: Seq<SqlValRef>) -> Seq<PgModel> {
    vs.map_values(|v: SqlValRef| encoded(v@))
}

/// The parameters of a statement, one per value, in order: the i-th
/// parameter is bound to the i-th marker.
pub fn encode_all(values: &[SqlValRef]) -> (r: Vec<PgValue>)
    ensures
        native_views(r@) == encoded_all(values@),
{
    let mut r: Vec<PgValue> = Vec::new();
    let mut i: usize = 0;
    while i < values.len()
        invariant
            i <= values@.len(),
            native_views(r@) == encoded_all(values@.subrange(0, i as int)),
        decreases values@.len() - i,
    {
        let ghost before = native_views(r@);
        assert(before.len() == r@.len());
        let n = encode(&values[i]);
        let ghost sub = values@.subrange(0, i + 1);
        assert(sub[i as int] == values@[i as int]);
        assert(encoded_all(sub).len() == i + 1);
        assert(encoded_all(sub)[i as int] == n@);
        let ghost nv = n@;
        assert(encoded_all(sub) =~= encoded_all(values@.subrange(0, i as int)).push(nv));
        r.push(n);
        assert(native_views(r@) =~= before.push(nv));
        i += 1;
        assert(native_views(r@) =~= encoded_all(values@.subrange(0, i as int)));
    }
    assert(values@.subrange(0, i as int) =~= values@);
    r
}

/// The parameters of an update built by `sql_update_with_placeholders`:
/// the new values in column order, then the key, as its markers come.
pub fn update_params(values: &[SqlValRef], pk: &SqlValRef) -> (r: Vec<PgValue>)
    ensures
        native_views(r@) == encoded_all(values@).push(encoded(pk@)),
{
    let mut r = encode_all(values);
    let ghost before = native_views(r@);
    assert(before.len() == r@.len());
    r.push(encode(pk));
    assert(native_views(r@) =~= before.push(encoded(pk@)));
    r
}

/// The value of a native value read from column `col`; a value whose tag
/// does not fit the column's type is a `SqlResultTypeMismatch`. `Null`
/// fits every column.
pub fn sql_val_from_postgres(n: &PgValue, col: &Column) -> (r: Result<SqlVal>)
    ensures
        match decode_value(n@, *col) {
            Ok(v) => r matches Ok(x) && x@ == v,
            Err(e) => r matches Err(x) && x@ == e,
        },
{
    let v = match n {
        PgValue::Null => SqlVal::Null,
        PgValue::Bool(b) => SqlVal::Bool(*b),
        PgValue::Int4(i) => SqlVal::Int(*i),
        PgValue::Int8(i) => SqlVal::BigInt(*i),
        PgValue::Float8(r) => SqlVal::Real(*r),
        PgValue::Text(t) => SqlVal::Text(t.clone()),
        PgValue::Bytea(b) => SqlVal::Blob(b.clone()),
        PgValue::Timestamp(t) => SqlVal::Timestamp(*t),
    };
    assert(v@ == decoded(n@));
    if v.is_compatible(col.ty, true) {
        Ok(v)
    } else {
        let mut detail = String::from_str(kind_name(&v));
        detail.append(" is not compatible with expected column type ");
        detail.append(sql_type_label(col.ty));
        Err(Error::SqlResultTypeMismatch { col: String::from_str(col.name), detail })
    }
}

/// The value a native value read from column `col` stands for, or the
/// mismatch error that names the column.
pub open spec fn decode_value(n: PgModel, col: Column) -> core::result::Result<Value, ErrorModel> {
    if value_fits(decoded(n), col.ty, true) {
        Ok(decoded(n))
    } else {
        Err(ErrorModel::SqlResultTypeMismatch { col: col.name@, detail: mismatch_detail(decoded(n), col.ty) })
    }
}

/// The values of a row read from the columns `cols`: `BoundsError` where
/// there are not as many values as columns, else the error of the first
/// value that does not fit its column.
pub open spec fn decoded_row(ns: Seq<PgModel>, cols: Seq<Column>) -> core::result::Result<Seq<Value>, ErrorModel> {
    if ns.len() != cols.len() {
        Err(ErrorModel::BoundsError)
    } else {
        decoded_prefix(ns, cols)
    }
}

/// The values of the first `ns.len()` columns; the first error.
pub open spec fn decoded_prefix(ns: Seq<PgModel>, cols: Seq<Column>) -> core::result::Result<Seq<Value>, ErrorModel>
    decreases ns.len(),
{
    if ns.len() == 0 {
        Ok(Seq::empty())
    } else {
        match decoded_prefix(ns.drop_last(), cols) {
            Err(e) => Err(e),
            Ok(vs) => match decode_value(ns.last(), cols[ns.len() - 1]) {
                Err(e) => Err(e),
                Ok(v) => Ok(vs.push(v)),
            },
        }
    }
}

pub open spec fn native_views(ns: Seq<PgValue>) -> Seq<PgModel> {
    ns.map_values(|n: PgValue| n@)
}

/// A row from the native values the driver returned for `cols`:
/// `BoundsError` where their numbers differ, else the error of the first
/// value that does not fit its column.
pub fn row_from_postgres(natives: &Vec<PgValue>, cols: &[Column]) -> (r: Result<Row>)
    ensures
        match decoded_row(native_views(natives@), cols@) {
            Ok(vs) => r matches Ok(row) && row@ == vs,
            Err(e) => r matches Err(x) && x@ == e,
        },
{
    let ghost all = native_views(natives@);
    assert(all.len() == natives@.len());
    if natives.len() != cols.len() {
        return Err(Error::BoundsError);
    }
    let mut vals: Vec<SqlVal> = Vec::new();
    assert(value_views(vals@) =~= Seq::<Value>::empty());
    assert(all.subrange(0, 0) =~= Seq::<PgModel>::empty());
    let mut i: usize = 0;
    while i < natives.len()
        invariant
            i <= natives@.len(),
            natives@.len() == cols@.len(),
            all == native_views(natives@),
            decoded_prefix(all.subrange(0, i as int), cols@) == Ok::<Seq<Value>, ErrorModel>(value_views(vals@)),
        decreases natives@.len() - i,
    {
        let ghost p = all.subrange(0, i + 1);
        assert(p.drop_last() =~= all.subrange(0, i as int));
        assert(p.last() == natives@[i as int]@);
        let ghost before = value_views(vals@);
        assert(before.len() == vals@.len());
        match sql_val_from_postgres(&natives[i], &cols[i]) {
            Ok(v) => {
                vals.push(v);
                assert(value_views(vals@) =~= before.push(decoded(p.last())));
            },
            Err(e) => {
                proof {
                    assert(decoded_prefix(p, cols@) == Err::<Seq<Value>, ErrorModel>(e@));
                    lemma_row_prefix_err(all, cols@, i + 1, e@);
                }
                return Err(e);
            },
        }
        i += 1;
    }
    assert(all.subrange(0, i as int) =~= all);
    Ok(Row::new(vals))
}

proof fn lemma_row_prefix_err(ns: Seq<PgModel>, cols: Seq<Column>, n: int, e: ErrorModel)
    requires
        0 < n <= ns.len(),
        decoded_prefix(ns.subrange(0, n), cols) == Err::<Seq<Value>, ErrorModel>(e),
    ensures
        decoded_prefix(ns, cols) == Err::<Seq<Value>, ErrorModel>(e),
    decreases ns.len() - n,
{
    if n < ns.len() {
        let p = ns.subrange(0, n + 1);
        assert(p.drop_last() =~= ns.subrange(0, n));
        lemma_row_prefix_err(ns, cols, n + 1, e);
    } else {
        assert(ns.subrange(0, n) =~= ns);
    }
}

/// Encoding a value that fits a column and decoding it as read from that
/// column gives the value back; `Null` fits every column.
pub proof fn lemma_round_trip(v: Value, t: SqlType)
    requires
        value_fits(v, t, true),
    ensures
        value_fits(decoded(encoded(v)), t, true),
        decoded(encoded(v)) == v,
{
}

} // verus!
