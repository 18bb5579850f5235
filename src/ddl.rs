//! Schema DDL: the statements that carry out each schema operation, in
//! the dialect of an engine. A column change rebuilds its table, since not
//! every engine can alter a column in place.

use vstd::prelude::*;
use crate::adb::{
    apply_op, apply_ops, columns_replaced, find_table, lemma_stepped_absent, op_views,
    key_name, tables_stepped, without_column, AColumn, ATable, ColumnModel,
    DeferredModel, OpModel, Operation, TableModel, ADB,
};
use crate::error::{text_result, Error, ErrorModel, Result, TextOutcome};
use crate::text::{hex_text, int_text, nat_text, push_hex, push_int, push_nat, push_quoted, quoted_text};
use crate::types::{SqlType, SqlVal, Value};

verus! {

/// The SQL engines whose dialect the DDL is written in.
#[derive(Clone, Copy, Debug, PartialEq, Eq, Structural)]
pub enum Dialect {
    /// PostgreSQL: a native type per column type, identity by `SERIAL`.
    Pg,
    /// SQLite: integers, reals, text and blobs only; booleans and
    /// timestamps are integers, and an integer primary key is its own
    /// auto-increment.
    Sqlite,
}

/// The type of a column of type `ty` in dialect `d`; `None` where
/// auto-increment is asked for on a type that is not an integer.
pub open spec fn sql_type_name(d: Dialect, ty: SqlType, auto: bool) -> Option<Seq<char>> {
    if auto {
        match (d, ty) {
            (Dialect::Pg, SqlType::Int) => Some("SERIAL"@),
            (Dialect::Pg, SqlType::BigInt) => Some("BIGSERIAL"@),
            (Dialect::Sqlite, SqlType::Int) => Some("INTEGER"@),
            (Dialect::Sqlite, SqlType::BigInt) => Some("INTEGER"@),
            _ => None,
        }
    } else {
        Some(
            match d {
                Dialect::Pg => match ty {
                    SqlType::Bool => "BOOLEAN"@,
                    SqlType::Int => "INTEGER"@,
                    SqlType::BigInt => "BIGINT"@,
                    SqlType::Real => "DOUBLE PRECISION"@,
                    SqlType::Text => "TEXT"@,
                    SqlType::Timestamp => "TIMESTAMP"@,
                    SqlType::Blob => "BYTEA"@,
                },
                Dialect::Sqlite => match ty {
                    SqlType::Real => "REAL"@,
                    SqlType::Text => "TEXT"@,
                    SqlType::Blob => "BLOB"@,
                    _ => "INTEGER"@,
                },
            },
        )
    }
}

/// The type of a column, where it has one.
/// A type still deferred is `UnresolvedType` with its key's name;
/// auto-increment on a type that is not an integer is `InvalidAuto` with the
/// column's name.
pub open spec fn column_type(d: Dialect, c: ColumnModel) -> TextOutcome {
    match c.sqltype {
        DeferredModel::Known(t) => match sql_type_name(d, t, c.auto) {
            Some(n) => Ok(n),
            None => Err(ErrorModel::InvalidAuto(c.name)),
        },
        DeferredModel::Deferred(k) => Err(ErrorModel::UnresolvedType(key_name(k))),
    }
}

/// `NOT NULL` unless nullable, then `PRIMARY KEY` if the key.
pub open spec fn constraints_text(nullable: bool, pk: bool) -> Seq<char> {
    if !nullable && pk {
        "NOT NULL PRIMARY KEY"@
    } else if !nullable {
        "NOT NULL"@
    } else if pk {
        "PRIMARY KEY"@
    } else {
        Seq::empty()
    }
}

/// A column definition of a `CREATE TABLE` or `ADD COLUMN` statement.
/// The column's type error where it has no type.
pub open spec fn column_def(d: Dialect, c: ColumnModel) -> TextOutcome {
    match column_type(d, c) {
        Ok(t) => Ok(c.name + " "@ + t + " "@ + constraints_text(c.nullable, c.pk)),
        Err(e) => Err(e),
    }
}

/// The column definitions, separated by `,` and a line break; the error
/// of the first column that has none.
pub open spec fn column_defs(d: Dialect, cols: Seq<ColumnModel>) -> TextOutcome
    decreases cols.len(),
{
    if cols.len() == 0 {
        Ok(Seq::empty())
    } else {
        match column_defs(d, cols.drop_last()) {
            Err(e) => Err(e),
            Ok(a) => match column_def(d, cols.last()) {
                Err(e) => Err(e),
                Ok(b) => Ok(if cols.len() == 1 { b } else { a + ",\n"@ + b }),
            },
        }
    }
}

pub open spec fn create_table_text(d: Dialect, t: TableModel) -> TextOutcome {
    match column_defs(d, t.columns) {
        Ok(defs) => Ok("CREATE TABLE "@ + t.name + " (\n"@ + defs + "\n);"@),
        Err(e) => Err(e),
    }
}

pub open spec fn drop_table_text(name: Seq<char>) -> Seq<char> {
    "DROP TABLE "@ + name + ";"@
}

pub open spec fn remove_column_text(table: Seq<char>, name: Seq<char>) -> Seq<char> {
    "ALTER TABLE "@ + table + " DROP COLUMN "@ + name + ";"@
}

/// The value a column added to a table with rows starts with: its default,
/// else the zero value of its type, nullable or not.
/// A deferred type without a default is `UnresolvedType`.
pub open spec fn starting_value(c: ColumnModel) -> core::result::Result<Value, ErrorModel> {
    match c.default {
        Some(v) => Ok(v),
        None => match c.sqltype {
            DeferredModel::Known(t) => Ok(zero_value(t)),
            DeferredModel::Deferred(k) => Err(ErrorModel::UnresolvedType(key_name(k))),
        },
    }
}

pub open spec fn zero_value(t: SqlType) -> Value {
    match t {
        SqlType::Bool => Value::Bool(false),
        SqlType::Int => Value::Int(0),
        SqlType::BigInt => Value::BigInt(0),
        SqlType::Real => Value::Real(0),
        SqlType::Text => Value::Text(Seq::empty()),
        SqlType::Blob => Value::Blob(Seq::empty()),
        SqlType::Timestamp => Value::Timestamp(0),
    }
}

pub open spec fn sign_bit() -> nat {
    0x8000_0000_0000_0000
}

pub open spec fn exponent_unit() -> nat {
    0x10_0000_0000_0000
}

/// Not-a-number: PostgreSQL has one; SQLite stores it as `NULL`.
pub open spec fn nan_text(d: Dialect) -> Seq<char> {
    match d {
        Dialect::Pg => "'NaN'::DOUBLE PRECISION"@,
        Dialect::Sqlite => "NULL"@,
    }
}

/// An infinity: a quoted special value in PostgreSQL, an overflowing
/// literal in SQLite.
pub open spec fn infinity_text(d: Dialect, negative: bool) -> Seq<char> {
    match (d, negative) {
        (Dialect::Pg, true) => "'-Infinity'::DOUBLE PRECISION"@,
        (Dialect::Pg, false) => "'Infinity'::DOUBLE PRECISION"@,
        (Dialect::Sqlite, true) => "-9e999"@,
        (Dialect::Sqlite, false) => "9e999"@,
    }
}

/// What stands between the mantissa and the exponent of a real literal.
pub open spec fn power_text(d: Dialect) -> Seq<char> {
    match d {
        Dialect::Pg => " * POWER(2::DOUBLE PRECISION, "@,
        Dialect::Sqlite => " * POWER(2.0, "@,
    }
}

fn nan_str(d: Dialect) -> (r: &'static str)
    ensures
        r@ == nan_text(d),
{
    match d {
        Dialect::Pg => "'NaN'::DOUBLE PRECISION",
        Dialect::Sqlite => "NULL",
    }
}

fn infinity_str(d: Dialect, negative: bool) -> (r: &'static str)
    ensures
        r@ == infinity_text(d, negative),
{
    match (d, negative) {
        (Dialect::Pg, true) => "'-Infinity'::DOUBLE PRECISION",
        (Dialect::Pg, false) => "'Infinity'::DOUBLE PRECISION",
        (Dialect::Sqlite, true) => "-9e999",
        (Dialect::Sqlite, false) => "9e999",
    }
}

fn power_str(d: Dialect) -> (r: &'static str)
    ensures
        r@ == power_text(d),
{
    match d {
        Dialect::Pg => " * POWER(2::DOUBLE PRECISION, ",
        Dialect::Sqlite => " * POWER(2.0, ",
    }
}

/// The exact value of an IEEE-754 double, given by its bits: `m * 2^e`
/// for finite values, a special value otherwise.
pub open spec fn real_literal(d: Dialect, bits: u64) -> Seq<char> {
    let negative = bits as nat >= sign_bit();
    let expf = (bits as nat / exponent_unit()) % 0x800;
    let frac = bits as nat % exponent_unit();
    if expf == 0x7ff {
        if frac != 0 {
            nan_text(d)
        } else {
            infinity_text(d, negative)
        }
    } else if expf == 0 && frac == 0 {
        if negative {
            "-0.0"@
        } else {
            "0.0"@
        }
    } else {
        let m = if expf == 0 { frac } else { frac + exponent_unit() };
        let e = if expf == 0 { -1074int } else { expf - 1075 };
        "("@ + (if negative { "-"@ } else { Seq::empty() }) + nat_text(m) + power_text(d) + int_text(e) + "))"@
    }
}

/// A value written as an SQL literal.
pub open spec fn literal_text(d: Dialect, v: Value) -> Seq<char> {
    match v {
        Value::Null => "NULL"@,
        Value::Bool(b) => match d {
            Dialect::Pg => if b { "true"@ } else { "false"@ },
            Dialect::Sqlite => if b { "1"@ } else { "0"@ },
        },
        Value::Int(i) => int_text(i as int),
        Value::BigInt(i) => int_text(i as int),
        Value::Real(r) => real_literal(d, r),
        Value::Text(t) => quoted_text(t),
        Value::Blob(b) => "x'"@ + hex_text(b) + "'"@,
        Value::Timestamp(t) => match d {
            Dialect::Pg => "(TIMESTAMP 'epoch' + INTERVAL '"@ + int_text(t as int) + " microseconds')"@,
            Dialect::Sqlite => int_text(t as int),
        },
    }
}

/// The starting value's error first, then the definition's.
pub open spec fn add_column_text(d: Dialect, table: Seq<char>, c: ColumnModel) -> TextOutcome {
    match starting_value(c) {
        Err(e) => Err(e),
        Ok(v) => match column_def(d, c) {
            Err(e) => Err(e),
            Ok(def) => Ok(
                "ALTER TABLE "@ + table + " ADD COLUMN "@ + def + " DEFAULT "@ + literal_text(d, v) + ";"@,
            ),
        },
    }
}

/// The names of the columns, separated by `, `.
pub open spec fn column_names(cols: Seq<ColumnModel>) -> Seq<char>
    decreases cols.len(),
{
    if cols.len() == 0 {
        Seq::empty()
    } else if cols.len() == 1 {
        cols[0].name
    } else {
        column_names(cols.drop_last()) + ", "@ + cols.last().name
    }
}

pub open spec fn copy_table_text(old: TableModel, new: TableModel) -> Seq<char> {
    "INSERT INTO "@ + new.name + " SELECT "@ + column_names(new.columns) + " FROM "@ + old.name + ";"@
}

pub open spec fn tmp_name(name: Seq<char>) -> Seq<char> {
    name + "__butane_tmp"@
}

/// The table that a column change rebuilds `t` into, under its temporary
/// name: `new` in place of the column called like `old`, or without that
/// column when there is no `new`.
pub open spec fn rebuilt_table(t: TableModel, old: ColumnModel, new: Option<ColumnModel>) -> TableModel {
    TableModel {
        name: tmp_name(t.name),
        columns: match new {
            Some(c) => columns_replaced(t.columns, old.name, c),
            None => without_column(t.columns, old.name),
        },
    }
}

/// A column change on a backend that cannot alter a column in place:
/// create the rebuilt table, copy the rows, drop the old table, rename.
/// Nothing where the table does not exist; the error of creating the
/// rebuilt table where that fails.
pub open spec fn change_column_text(d: Dialect, 
    ts: Seq<TableModel>,
    table: Seq<char>,
    old: ColumnModel,
    new: Option<ColumnModel>,
) -> TextOutcome {
    match find_table(ts, table) {
        None => Ok(Seq::empty()),
        Some(t) => {
            let nt = rebuilt_table(t, old, new);
            match create_table_text(d, nt) {
                Ok(c) => Ok(
                    c + "\n"@ + copy_table_text(t, nt) + "\n"@ + drop_table_text(t.name) + "\n"@
                        + "ALTER TABLE "@ + nt.name + " RENAME TO "@ + table + ";"@,
                ),
                Err(e) => Err(e),
            }
        },
    }
}

/// The SQL of one operation against the schema `ts`, or its error.
pub open spec fn op_text(d: Dialect, ts: Seq<TableModel>, op: OpModel) -> TextOutcome {
    match op {
        OpModel::AddTable(t) => create_table_text(d, t),
        OpModel::RemoveTable(n) => Ok(drop_table_text(n)),
        OpModel::AddColumn(t, c) => add_column_text(d, t, c),
        OpModel::RemoveColumn(t, n) => Ok(remove_column_text(t, n)),
        OpModel::ChangeColumn(t, o, n) => change_column_text(d, ts, t, o, Some(n)),
    }
}

/// The SQL of a migration: each operation rendered against the schema that
/// the ones before it left, one per line; the error of the first operation
/// that fails.
pub open spec fn migration_text(d: Dialect, ts: Seq<TableModel>, ops: Seq<OpModel>) -> TextOutcome
    decreases ops.len(),
{
    if ops.len() == 0 {
        Ok(Seq::empty())
    } else {
        match migration_text(d, ts, ops.drop_last()) {
            Err(e) => Err(e),
            Ok(a) => match op_text(d, apply_ops(ts, ops.drop_last()), ops.last()) {
                Err(e) => Err(e),
                Ok(b) => Ok(if ops.len() == 1 { b } else { a + "\n"@ + b }),
            },
        }
    }
}

/// The type of a column in dialect `d`.
pub fn col_sqltype(d: Dialect, col: &AColumn) -> (r: Result<&'static str>)
    ensures
        match col@.sqltype {
            DeferredModel::Deferred(k) => r matches Err(x) && x@ == ErrorModel::UnresolvedType(key_name(k)),
            DeferredModel::Known(t) => match sql_type_name(d, t, col@.auto) {
                Some(n) => r matches Ok(s) && s@ == n,
                None => r matches Err(Error::InvalidAuto(c)) && c@ == col@.name,
            },
        },
{
    let ty = match col.sqltype() {
        Ok(t) => t,
        Err(e) => return Err(e),
    };
    if col.is_auto() {
        match (d, ty) {
            (Dialect::Pg, SqlType::Int) => Ok("SERIAL"),
            (Dialect::Pg, SqlType::BigInt) => Ok("BIGSERIAL"),
            (Dialect::Sqlite, SqlType::Int) => Ok("INTEGER"),
            (Dialect::Sqlite, SqlType::BigInt) => Ok("INTEGER"),
            _ => Err(Error::InvalidAuto(col.name().to_string())),
        }
    } else {
        Ok(
            match d {
                Dialect::Pg => match ty {
                    SqlType::Bool => "BOOLEAN",
                    SqlType::Int => "INTEGER",
                    SqlType::BigInt => "BIGINT",
                    SqlType::Real => "DOUBLE PRECISION",
                    SqlType::Text => "TEXT",
                    SqlType::Timestamp => "TIMESTAMP",
                    SqlType::Blob => "BYTEA",
                },
                Dialect::Sqlite => match ty {
                    SqlType::Real => "REAL",
                    SqlType::Text => "TEXT",
                    SqlType::Blob => "BLOB",
                    _ => "INTEGER",
                },
            },
        )
    }
}

/// The definition of a column: name, type and constraints.
pub fn define_column(d: Dialect, col: &AColumn) -> (r: Result<String>)
    ensures
        text_result(r, column_def(d, col@)),
{
    let ty = match col_sqltype(d, col) {
        Ok(t) => t,
        Err(e) => return Err(e),
    };
    let mut w = String::from_str(col.name());
    w.append(" ");
    w.append(ty);
    w.append(" ");
    if !col.nullable() && col.is_pk() {
        w.append("NOT NULL PRIMARY KEY");
    } else if !col.nullable() {
        w.append("NOT NULL");
    } else if col.is_pk() {
        w.append("PRIMARY KEY");
    }
    assert(w@ =~= column_def(d, col@)->Ok_0);
    Ok(w)
}

/// `CREATE TABLE` with one definition per column, in order.
pub fn create_table(d: Dialect, table: &ATable) -> (r: Result<String>)
    ensures
        text_result(r, create_table_text(d, table@)),
{
    let ghost cols = table@.columns;
    let mut defs = String::new();
    let mut i: usize = 0;
    while i < table.columns.len()
        invariant
            i <= table.columns@.len(),
            cols == table@.columns,
            column_defs(d, cols.subrange(0, i as int)) == Ok::<Seq<char>, ErrorModel>(defs@),
        decreases table.columns@.len() - i,
    {
        let ghost p = cols.subrange(0, i + 1);
        assert(p.drop_last() =~= cols.subrange(0, i as int));
        assert(p.last() == table.columns@[i as int]@);
        let def = match define_column(d, &table.columns[i]) {
            Ok(def) => def,
            Err(e) => {
                proof {
                    assert(column_defs(d, p) == Err::<Seq<char>, ErrorModel>(e@));
                    lemma_defs_prefix_err(d, cols, i + 1, e@);
                }
                return Err(e);
            },
        };
        if i > 0 {
            defs.append(",\n");
        }
        defs.append(def.as_str());
        i += 1;
        assert(column_defs(d, cols.subrange(0, i as int)) == Ok::<Seq<char>, ErrorModel>(defs@)) by {
            if i == 1 {
                assert(defs@ =~= def@);
            } else {
                assert(defs@ =~= column_defs(d, cols.subrange(0, i - 1))->Ok_0 + ",\n"@ + def@);
            }
        }
    }
    assert(cols.subrange(0, i as int) =~= cols);
    let mut w = String::from_str("CREATE TABLE ");
    w.append(table.name.as_str());
    w.append(" (\n");
    w.append(defs.as_str());
    w.append("\n);");
    Ok(w)
}

/// Once a prefix of the columns fails with `e`, every longer prefix fails
/// with `e`.
proof fn lemma_defs_prefix_err(d: Dialect, cols: Seq<ColumnModel>, n: int, e: ErrorModel)
    requires
        0 < n <= cols.len(),
        column_defs(d, cols.subrange(0, n)) == Err::<Seq<char>, ErrorModel>(e),
    ensures
        column_defs(d, cols) == Err::<Seq<char>, ErrorModel>(e),
    decreases cols.len() - n,
{
    if n < cols.len() {
        let p = cols.subrange(0, n + 1);
        assert(p.drop_last() =~= cols.subrange(0, n));
        lemma_defs_prefix_err(d, cols, n + 1, e);
    } else {
        assert(cols.subrange(0, n) =~= cols);
    }
}

pub fn drop_table(name: &str) -> (r: String)
    ensures
        r@ == drop_table_text(name@),
{
    let mut w = String::from_str("DROP TABLE ");
    w.append(name);
    w.append(";");
    w
}

pub fn remove_column(tbl_name: &str, name: &str) -> (r: String)
    ensures
        r@ == remove_column_text(tbl_name@, name@),
{
    let mut w = String::from_str("ALTER TABLE ");
    w.append(tbl_name);
    w.append(" DROP COLUMN ");
    w.append(name);
    w.append(";");
    w
}

/// The value a column added to a table with rows starts with.
pub fn column_default(col: &AColumn) -> (r: Result<SqlVal>)
    ensures
        match starting_value(col@) {
            Ok(v) => r matches Ok(x) && x@ == v,
            Err(e) => r matches Err(x) && x@ == e,
        },
{
    if let Some(v) = col.default() {
        return Ok(v.duplicate());
    }
    let ty = match col.sqltype() {
        Ok(t) => t,
        Err(e) => return Err(e),
    };
    let r = match ty {
        SqlType::Bool => SqlVal::Bool(false),
        SqlType::Int => SqlVal::Int(0),
        SqlType::BigInt => SqlVal::BigInt(0),
        SqlType::Real => SqlVal::Real(0),
        SqlType::Text => SqlVal::Text(String::new()),
        SqlType::Blob => SqlVal::Blob(Vec::new()),
        SqlType::Timestamp => SqlVal::Timestamp(0),
    };
    proof {
        if ty == SqlType::Text {
            assert(r@ =~= zero_value(ty));
        }
        if ty == SqlType::Blob {
            assert(r@ =~= zero_value(ty));
        }
    }
    Ok(r)
}

fn push_real_literal(d: Dialect, w: &mut String, bits: u64)
    ensures
        final(w)@ == old(w)@ + real_literal(d, bits),
{
    let negative = bits >= 0x8000_0000_0000_0000u64;
    let expf = (bits / 0x10_0000_0000_0000u64) % 0x800;
    let frac = bits % 0x10_0000_0000_0000u64;
    if expf == 0x7ff {
        if frac != 0 {
            w.append(nan_str(d));
        } else {
            w.append(infinity_str(d, negative));
        }
    } else if expf == 0 && frac == 0 {
        if negative {
            w.append("-0.0");
        } else {
            w.append("0.0");
        }
    } else {
        let m: u64 = if expf == 0 { frac } else { frac + 0x10_0000_0000_0000u64 };
        let e: i64 = if expf == 0 { -1074 } else { expf as i64 - 1075 };
        let ghost start = w@;
        w.append("(");
        if negative {
            w.append("-");
        }
        push_nat(w, m);
        w.append(power_str(d));
        push_int(w, e);
        w.append("))");
        assert(w@ =~= start + real_literal(d, bits));
    }
}

/// A value written as an SQL literal; text is quoted with its quotes
/// doubled.
pub fn sql_literal_value(d: Dialect, v: &SqlVal) -> (r: String)
    ensures
        r@ == literal_text(d, v@),
{
    let mut w = String::new();
    match v {
        SqlVal::Null => w.append("NULL"),
        SqlVal::Bool(b) => match d {
            Dialect::Pg => if *b {
                w.append("true")
            } else {
                w.append("false")
            },
            Dialect::Sqlite => if *b {
                w.append("1")
            } else {
                w.append("0")
            },
        },
        SqlVal::Int(i) => push_int(&mut w, *i as i64),
        SqlVal::BigInt(i) => push_int(&mut w, *i),
        SqlVal::Real(r) => push_real_literal(d, &mut w, *r),
        SqlVal::Text(t) => push_quoted(&mut w, t.as_str()),
        SqlVal::Blob(b) => {
            w.append("x'");
            push_hex(&mut w, b.as_slice());
            w.append("'");
        },
        SqlVal::Timestamp(t) => match d {
            Dialect::Pg => {
                w.append("(TIMESTAMP 'epoch' + INTERVAL '");
                push_int(&mut w, *t);
                w.append(" microseconds')");
            },
            Dialect::Sqlite => push_int(&mut w, *t),
        },
    }
    assert(w@ =~= literal_text(d, v@));
    w
}

/// `ALTER TABLE ... ADD COLUMN` with the column's starting value as default.
pub fn add_column(d: Dialect, tbl_name: &str, col: &AColumn) -> (r: Result<String>)
    ensures
        text_result(r, add_column_text(d, tbl_name@, col@)),
{
    let default = match column_default(col) {
        Ok(v) => v,
        Err(e) => return Err(e),
    };
    let def = match define_column(d, col) {
        Ok(d) => d,
        Err(e) => return Err(e),
    };
    let mut w = String::from_str("ALTER TABLE ");
    w.append(tbl_name);
    w.append(" ADD COLUMN ");
    w.append(def.as_str());
    w.append(" DEFAULT ");
    let lit = sql_literal_value(d, &default);
    w.append(lit.as_str());
    w.append(";");
    Ok(w)
}

/// `INSERT INTO <new> SELECT <columns of new> FROM <old>;`
pub fn copy_table(old: &ATable, new: &ATable) -> (r: String)
    ensures
        r@ == copy_table_text(old@, new@),
{
    let ghost cols = new@.columns;
    let mut names = String::new();
    let mut i: usize = 0;
    while i < new.columns.len()
        invariant
            i <= new.columns@.len(),
            cols == new@.columns,
            names@ == column_names(cols.subrange(0, i as int)),
        decreases new.columns@.len() - i,
    {
        let ghost p = cols.subrange(0, i + 1);
        assert(p.drop_last() =~= cols.subrange(0, i as int));
        assert(p.last() == new.columns@[i as int]@);
        if i > 0 {
            names.append(", ");
        }
        names.append(new.columns[i].name());
        i += 1;
        proof {
            if i == 1 {
                assert(names@ =~= column_names(p));
            }
        }
        assert(names@ =~= column_names(cols.subrange(0, i as int)));
    }
    assert(cols.subrange(0, i as int) =~= cols);
    let mut w = String::from_str("INSERT INTO ");
    w.append(new.name.as_str());
    w.append(" SELECT ");
    w.append(names.as_str());
    w.append(" FROM ");
    w.append(old.name.as_str());
    w.append(";");
    w
}

/// The name a table is rebuilt under.
pub fn tmp_table_name(name: &str) -> (r: String)
    ensures
        r@ == tmp_name(name@),
{
    let mut w = String::from_str(name);
    w.append("__butane_tmp");
    w
}

/// The operation that a column change makes on the snapshot.
pub open spec fn change_step(table: Seq<char>, old: ColumnModel, new: Option<ColumnModel>) -> OpModel {
    match new {
        Some(c) => OpModel::ChangeColumn(table, old, c),
        None => OpModel::RemoveColumn(table, old.name),
    }
}

pub open spec fn opt_column(c: Option<&AColumn>) -> Option<ColumnModel> {
    match c {
        Some(x) => Some(x@),
        None => None,
    }
}

/// Changes column `old_col` of table `tbl_name` into `new` (or removes it) by
/// rebuilding the table, and brings `current` up to date. A table that does
/// not exist is left alone: the result is empty.
pub fn change_column(d: Dialect, current: &mut ADB, tbl_name: &str, old_col: &AColumn, new: Option<&AColumn>) -> (r: Result<String>)
    ensures
        text_result(r, change_column_text(d, old(current)@, tbl_name@, old_col@, opt_column(new))),
        r is Ok ==> final(current)@ == tables_stepped(
            old(current)@,
            tbl_name@,
            change_step(tbl_name@, old_col@, opt_column(new)),
        ),
        r is Err ==> final(current)@ == old(current)@,
{
    let old_table = match current.get_table(tbl_name) {
        None => {
            proof {
                lemma_stepped_absent(current@, tbl_name@, change_step(tbl_name@, old_col@, opt_column(new)));
            }
            return Ok(String::new());
        },
        Some(t) => t.duplicate(),
    };
    let mut new_table = old_table.duplicate();
    new_table.name = tmp_table_name(old_table.name.as_str());
    match new {
        Some(col) => new_table.replace_column(old_col.name(), col.duplicate()),
        None => new_table.remove_column(old_col.name()),
    }
    assert(new_table@ == rebuilt_table(old_table@, old_col@, opt_column(new)));
    let create = match create_table(d, &new_table) {
        Ok(c) => c,
        Err(e) => return Err(e),
    };
    let mut w = create;
    w.append("\n");
    let copy = copy_table(&old_table, &new_table);
    w.append(copy.as_str());
    w.append("\n");
    let drop = drop_table(old_table.name.as_str());
    w.append(drop.as_str());
    w.append("\n");
    w.append("ALTER TABLE ");
    w.append(new_table.name.as_str());
    w.append(" RENAME TO ");
    w.append(tbl_name);
    w.append(";");
    let op = match new {
        Some(col) => Operation::ChangeColumn(String::from_str(tbl_name), old_col.duplicate(), col.duplicate()),
        None => Operation::RemoveColumn(String::from_str(tbl_name), String::from_str(old_col.name())),
    };
    current.transform_with(&op);
    Ok(w)
}

/// The SQL of one operation; `current` follows the operation so that the
/// next one sees its effect.
pub fn sql_for_op(d: Dialect, current: &mut ADB, op: &Operation) -> (r: Result<String>)
    ensures
        text_result(r, op_text(d, old(current)@, op@)),
        r is Ok ==> final(current)@ == apply_op(old(current)@, op@),
        r is Err ==> final(current)@ == old(current)@,
{
    let r = match op {
        Operation::AddTable(table) => create_table(d, table),
        Operation::RemoveTable(name) => Ok(drop_table(name.as_str())),
        Operation::AddColumn(tbl, col) => add_column(d, tbl.as_str(), col),
        Operation::RemoveColumn(tbl, name) => Ok(remove_column(tbl.as_str(), name.as_str())),
        Operation::ChangeColumn(tbl, from, to) => {
            return change_column(d, current, tbl.as_str(), from, Some(to));
        },
    };
    if r.is_ok() {
        current.transform_with(op);
    }
    r
}

/// The SQL of a migration: the operations rendered left to right, each
/// against the schema the ones before it left, one per line. `current`
/// itself is not changed.
pub fn create_migration_sql(d: Dialect, current: &ADB, ops: &Vec<Operation>) -> (r: Result<String>)
    ensures
        text_result(r, migration_text(d, current@, op_views(ops@))),
{
    let ghost start = current@;
    let ghost all = op_views(ops@);
    let mut snapshot = current.duplicate();
    let mut w = String::new();
    let mut i: usize = 0;
    while i < ops.len()
        invariant
            i <= ops@.len(),
            all == op_views(ops@),
            start == current@,
            snapshot@ == apply_ops(start, all.subrange(0, i as int)),
            migration_text(d, start, all.subrange(0, i as int)) == Ok::<Seq<char>, ErrorModel>(w@),
        decreases ops@.len() - i,
    {
        let ghost p = all.subrange(0, i + 1);
        assert(p.drop_last() =~= all.subrange(0, i as int));
        assert(p.last() == ops@[i as int]@);
        let ghost snap = snapshot@;
        let s = match sql_for_op(d, &mut snapshot, &ops[i]) {
            Ok(s) => s,
            Err(e) => {
                proof {
                    assert(op_text(d, snap, ops@[i as int]@) == Err::<Seq<char>, ErrorModel>(e@));
                    assert(migration_text(d, start, p) == Err::<Seq<char>, ErrorModel>(e@));
                    lemma_migration_prefix_err(d, start, all, i + 1, e@);
                }
                return Err(e);
            },
        };
        if i > 0 {
            w.append("\n");
        }
        let ghost before = w@;
        w.append(s.as_str());
        i += 1;
        assert(migration_text(d, start, all.subrange(0, i as int)) == Ok::<Seq<char>, ErrorModel>(w@)) by {
            if i == 1 {
                assert(w@ =~= s@);
            } else {
                assert(w@ =~= migration_text(d, start, all.subrange(0, i - 1))->Ok_0 + "\n"@ + s@);
            }
        }
    }
    assert(all.subrange(0, i as int) =~= all);
    Ok(w)
}

/// Once a prefix of a migration fails with `e`, every longer prefix fails
/// with `e`.
proof fn lemma_migration_prefix_err(d: Dialect, ts: Seq<TableModel>, ops: Seq<OpModel>, n: int, e: ErrorModel)
    requires
        0 < n <= ops.len(),
        migration_text(d, ts, ops.subrange(0, n)) == Err::<Seq<char>, ErrorModel>(e),
    ensures
        migration_text(d, ts, ops) == Err::<Seq<char>, ErrorModel>(e),
    decreases ops.len() - n,
{
    if n < ops.len() {
        let p = ops.subrange(0, n + 1);
        assert(p.drop_last() =~= ops.subrange(0, n));
        lemma_migration_prefix_err(d, ts, ops, n + 1, e);
    } else {
        assert(ops.subrange(0, n) =~= ops);
    }
}

proof fn lemma_replaced_shape(cols: Seq<ColumnModel>, name: Seq<char>, new: ColumnModel)
    ensures
        columns_replaced(cols, name, new).len() == cols.len(),
        forall|i: int|
            0 <= i < cols.len() && cols[i].name != name ==> #[trigger] columns_replaced(cols, name, new)[i]
                == cols[i],
        forall|i: int|
            0 <= i < cols.len() && cols[i].name == name ==> #[trigger] columns_replaced(cols, name, new)[i]
                == new,
    decreases cols.len(),
{
    if cols.len() > 0 {
        lemma_replaced_shape(cols.drop_last(), name, new);
        let r = columns_replaced(cols, name, new);
        assert forall|i: int| 0 <= i < cols.len() - 1 implies #[trigger] r[i] == columns_replaced(
            cols.drop_last(),
            name,
            new,
        )[i] && cols.drop_last()[i] == cols[i] by {}
    }
}

proof fn lemma_same_names(a: Seq<ColumnModel>, b: Seq<ColumnModel>)
    requires
        a.len() == b.len(),
        forall|i: int| 0 <= i < a.len() ==> #[trigger] a[i].name == b[i].name,
    ensures
        column_names(a) == column_names(b),
    decreases a.len(),
{
    if a.len() > 1 {
        lemma_same_names(a.drop_last(), b.drop_last());
        assert(a.last().name == b[b.len() - 1].name);
    } else if a.len() == 1 {
        assert(a[0].name == b[0].name);
    }
}

/// Changing a column by rebuild keeps the table's shape: the rebuilt table
/// has as many columns, in the same order; the column called like `old`
/// becomes `new` where it stands, and every other column stays exactly as
/// it was. Where the name does not change, the copy statement selects every
/// column of the old table under its own name, so every row is copied and
/// every value of a column that was not changed is copied unchanged.
pub proof fn lemma_rebuild_keeps_columns(t: TableModel, old: ColumnModel, new: ColumnModel)
    ensures
        rebuilt_table(t, old, Some(new)).columns.len() == t.columns.len(),
        forall|i: int|
            0 <= i < t.columns.len() && t.columns[i].name != old.name ==> #[trigger] rebuilt_table(
                t,
                old,
                Some(new),
            ).columns[i] == t.columns[i],
        forall|i: int|
            0 <= i < t.columns.len() && t.columns[i].name == old.name ==> #[trigger] rebuilt_table(
                t,
                old,
                Some(new),
            ).columns[i] == new,
        new.name == old.name ==> copy_table_text(t, rebuilt_table(t, old, Some(new))) == "INSERT INTO "@
            + tmp_name(t.name) + " SELECT "@ + column_names(t.columns) + " FROM "@ + t.name + ";"@,
{
    let nt = rebuilt_table(t, old, Some(new));
    lemma_replaced_shape(t.columns, old.name, new);
    if new.name == old.name {
        assert forall|i: int| 0 <= i < nt.columns.len() implies #[trigger] nt.columns[i].name
            == t.columns[i].name by {
            if t.columns[i].name == old.name {
                assert(nt.columns[i] == new);
            } else {
                assert(nt.columns[i] == t.columns[i]);
            }
        }
        lemma_same_names(nt.columns, t.columns);
    }
}

/// Rendering a migration in one piece gives the rendering of its first
/// part, a line break, and the rendering of its second part against the
/// schema the first part leaves: each operation sees the effect of the ones
/// before it.
#[verifier::rlimit(30)]
pub proof fn lemma_migration_text_split(d: Dialect, ts: Seq<TableModel>, first: Seq<OpModel>, second: Seq<OpModel>)
    requires
        first.len() > 0,
        second.len() > 0,
        migration_text(d, ts, first) is Ok,
        migration_text(d, apply_ops(ts, first), second) is Ok,
    ensures
        migration_text(d, ts, first + second) == Ok::<Seq<char>, ErrorModel>(
            migration_text(d, ts, first)->Ok_0 + "\n"@ + migration_text(d, apply_ops(ts, first), second)->Ok_0,
        ),
    decreases second.len(),
{
    let all = first + second;
    let mid = apply_ops(ts, first);
    let front = second.drop_last();
    assert(all.drop_last() =~= first + front);
    assert(all.last() == second.last());
    crate::adb::lemma_apply_ops_split(ts, first, front);
    let step = op_text(d, apply_ops(mid, front), second.last());
    assert(apply_ops(ts, all.drop_last()) == apply_ops(mid, front));
    let head = migration_text(d, ts, first)->Ok_0;
    if second.len() == 1 {
        assert(first + front =~= first);
        assert(front =~= Seq::<OpModel>::empty());
        assert(apply_ops(mid, front) == mid);
        assert(migration_text(d, mid, front) == Ok::<Seq<char>, ErrorModel>(Seq::<char>::empty()));
        assert(step is Ok);
        assert(migration_text(d, mid, second) == step);
        assert(migration_text(d, ts, all.drop_last()) == Ok::<Seq<char>, ErrorModel>(head));
        assert(migration_text(d, ts, all) == Ok::<Seq<char>, ErrorModel>(head + "\n"@ + step->Ok_0));
    } else {
        let tail = migration_text(d, mid, front)->Ok_0;
        assert(migration_text(d, mid, front) is Ok);
        assert(step is Ok);
        lemma_migration_text_split(d, ts, first, front);
        assert(migration_text(d, ts, first + front) == Ok::<Seq<char>, ErrorModel>(head + "\n"@ + tail));
        assert(migration_text(d, mid, second) == Ok::<Seq<char>, ErrorModel>(tail + "\n"@ + step->Ok_0));
        assert(migration_text(d, ts, all) == Ok::<Seq<char>, ErrorModel>(head + "\n"@ + tail + "\n"@ + step->Ok_0));
        assert(head + "\n"@ + tail + "\n"@ + step->Ok_0 =~= head + "\n"@ + (tail + "\n"@ + step->Ok_0));
    }
}

/// A column change that follows the addition of its table in one migration
/// is rendered against the table just added: it renders as it would on a
/// schema holding only that table.
pub proof fn lemma_change_sees_added_table(
    d: Dialect,
    ts: Seq<TableModel>,
    t: TableModel,
    old: ColumnModel,
    new: ColumnModel,
)
    ensures
        op_text(d, apply_op(ts, OpModel::AddTable(t)), OpModel::ChangeColumn(t.name, old, new))
            == change_column_text(d, seq![t], t.name, old, Some(new)),
        migration_text(d, ts, seq![OpModel::AddTable(t), OpModel::ChangeColumn(t.name, old, new)])
            == match create_table_text(d, t) {
            Err(e) => Err(e),
            Ok(c) => match change_column_text(d, seq![t], t.name, old, Some(new)) {
                Err(e) => Err(e),
                Ok(x) => Ok(c + "\n"@ + x),
            },
        },
{
    let after = apply_op(ts, OpModel::AddTable(t));
    assert(after.last() == t);
    assert(find_table(after, t.name) == Some(t));
    let single = seq![t];
    assert(single.last() == t);
    assert(find_table(single, t.name) == Some(t));
    let ops = seq![OpModel::AddTable(t), OpModel::ChangeColumn(t.name, old, new)];
    assert(ops.drop_last() =~= seq![OpModel::AddTable(t)]);
    let first = ops.drop_last();
    assert(first.drop_last() =~= Seq::<OpModel>::empty());
    assert(apply_ops(ts, first.drop_last()) == ts);
    assert(apply_ops(ts, first) == after);
    assert(first.last() == OpModel::AddTable(t));
    assert(migration_text(d, ts, first.drop_last()) == Ok::<Seq<char>, ErrorModel>(Seq::<char>::empty()));
    assert(migration_text(d, ts, first) == create_table_text(d, t));
    assert(ops.last() == OpModel::ChangeColumn(t.name, old, new));
}

} // verus!
