//! The abstract schema: tables and columns independent of any backend, and
//! the operations that turn one schema snapshot into the next.

use vstd::prelude::*;
use crate::error::{Error, ErrorModel, Result};
use crate::text::same_text;
use crate::types::{SqlType, SqlVal, Value};

verus! {

/// A reference to a type that is known only once the whole schema is read.
#[derive(Debug)]
pub enum TypeKey {
    /// The type of the primary key of the named table.
    PK(String),
    /// A user type, by name.
    CustomType(String),
}

pub enum TypeKeyModel {
    PK(Seq<char>),
    CustomType(Seq<char>),
}

/// The name a key refers to.
pub open spec fn key_name(k: TypeKeyModel) -> Seq<char> {
    match k {
        TypeKeyModel::PK(s) => s,
        TypeKeyModel::CustomType(s) => s,
    }
}

impl View for TypeKey {
    type V = TypeKeyModel;

    open spec fn view(&self) -> TypeKeyModel {
        match self {
            TypeKey::PK(s) => TypeKeyModel::PK(s@),
            TypeKey::CustomType(s) => TypeKeyModel::CustomType(s@),
        }
    }
}

/// A column type that is either known or still to be resolved.
#[derive(Debug)]
pub enum DeferredSqlType {
    Known(SqlType),
    Deferred(TypeKey),
}

pub enum DeferredModel {
    Known(SqlType),
    Deferred(TypeKeyModel),
}

impl View for DeferredSqlType {
    type V = DeferredModel;

    open spec fn view(&self) -> DeferredModel {
        match self {
            DeferredSqlType::Known(t) => DeferredModel::Known(*t),
            DeferredSqlType::Deferred(k) => DeferredModel::Deferred(k@),
        }
    }
}

impl TypeKey {
    pub fn duplicate(&self) -> (r: TypeKey)
        ensures
            r@ == self@,
    {
        match self {
            TypeKey::PK(s) => TypeKey::PK(s.clone()),
            TypeKey::CustomType(s) => TypeKey::CustomType(s.clone()),
        }
    }
}

impl DeferredSqlType {
    pub fn duplicate(&self) -> (r: DeferredSqlType)
        ensures
            r@ == self@,
    {
        match self {
            DeferredSqlType::Known(t) => DeferredSqlType::Known(*t),
            DeferredSqlType::Deferred(k) => DeferredSqlType::Deferred(k.duplicate()),
        }
    }
}

/// A column of the abstract schema.
#[derive(Debug)]
pub struct AColumn {
    name: String,
    sqltype: DeferredSqlType,
    nullable: bool,
    pk: bool,
    auto: bool,
    default: Option<SqlVal>,
}

pub struct ColumnModel {
    pub name: Seq<char>,
    pub sqltype: DeferredModel,
    pub nullable: bool,
    pub pk: bool,
    pub auto: bool,
    pub default: Option<Value>,
}

pub open spec fn opt_value(v: Option<SqlVal>) -> Option<Value> {
    match v {
        Some(x) => Some(x@),
        None => None,
    }
}

impl View for AColumn {
    type V = ColumnModel;

    closed spec fn view(&self) -> ColumnModel {
        ColumnModel {
            name: self.name@,
            sqltype: self.sqltype@,
            nullable: self.nullable,
            pk: self.pk,
            auto: self.auto,
            default: opt_value(self.default),
        }
    }
}

impl AColumn {
    pub fn new(
        name: String,
        sqltype: DeferredSqlType,
        nullable: bool,
        pk: bool,
        auto: bool,
        default: Option<SqlVal>,
    ) -> (r: AColumn)
        ensures
            r@ == (ColumnModel {
                name: name@,
                sqltype: sqltype@,
                nullable,
                pk,
                auto,
                default: opt_value(default),
            }),
    {
        AColumn { name, sqltype, nullable, pk, auto, default }
    }

    pub fn name(&self) -> (r: &str)
        ensures
            r@ == self@.name,
    {
        self.name.as_str()
    }

    pub fn nullable(&self) -> (r: bool)
        ensures
            r == self@.nullable,
    {
        self.nullable
    }

    pub fn is_pk(&self) -> (r: bool)
        ensures
            r == self@.pk,
    {
        self.pk
    }

    pub fn is_auto(&self) -> (r: bool)
        ensures
            r == self@.auto,
    {
        self.auto
    }

    pub fn typeid(&self) -> (r: &DeferredSqlType)
        ensures
            r@ == self@.sqltype,
    {
        &self.sqltype
    }

    pub fn default(&self) -> (r: &Option<SqlVal>)
        ensures
            opt_value(*r) == self@.default,
    {
        &self.default
    }

    /// The column's type, or `UnresolvedType` while it is still deferred.
    pub fn sqltype(&self) -> (r: Result<SqlType>)
        ensures
            match self@.sqltype {
                DeferredModel::Known(t) => r == Ok::<SqlType, Error>(t),
                DeferredModel::Deferred(k) => r matches Err(x) && x@ == ErrorModel::UnresolvedType(
                    key_name(k),
                ),
            },
    {
        match &self.sqltype {
            DeferredSqlType::Known(t) => Ok(*t),
            DeferredSqlType::Deferred(TypeKey::PK(s)) => Err(Error::UnresolvedType(s.clone())),
            DeferredSqlType::Deferred(TypeKey::CustomType(s)) => Err(Error::UnresolvedType(s.clone())),
        }
    }

    pub fn duplicate(&self) -> (r: AColumn)
        ensures
            r@ == self@,
    {
        let default = match &self.default {
            Some(v) => Some(v.duplicate()),
            None => None,
        };
        AColumn {
            name: self.name.clone(),
            sqltype: self.sqltype.duplicate(),
            nullable: self.nullable,
            pk: self.pk,
            auto: self.auto,
            default,
        }
    }
}

/// The models of a sequence of columns.
pub open spec fn col_views(v: Seq<AColumn>) -> Seq<ColumnModel> {
    v.map_values(|c: AColumn| c@)
}

/// Whether some column of `cols` is called `name`.
pub open spec fn has_column(cols: Seq<ColumnModel>, name: Seq<char>) -> bool {
    exists|i: int| 0 <= i < cols.len() && #[trigger] cols[i].name == name
}

/// `cols` without the columns called `name`, order kept.
pub open spec fn without_column(cols: Seq<ColumnModel>, name: Seq<char>) -> Seq<ColumnModel>
    decreases cols.len(),
{
    if cols.len() == 0 {
        Seq::empty()
    } else {
        let r = without_column(cols.drop_last(), name);
        if cols.last().name == name {
            r
        } else {
            r.push(cols.last())
        }
    }
}

/// `cols` with `col` appended in place of any column of the same name.
pub open spec fn with_column_added(cols: Seq<ColumnModel>, col: ColumnModel) -> Seq<ColumnModel> {
    without_column(cols, col.name).push(col)
}

/// `cols` with the column called `name` replaced by `col` where it stands;
/// the other columns as they are, and `cols` unchanged where no column is
/// called `name`.
pub open spec fn columns_replaced(cols: Seq<ColumnModel>, name: Seq<char>, col: ColumnModel) -> Seq<ColumnModel>
    decreases cols.len(),
{
    if cols.len() == 0 {
        Seq::empty()
    } else {
        let r = columns_replaced(cols.drop_last(), name, col);
        if cols.last().name == name {
            r.push(col)
        } else {
            r.push(cols.last())
        }
    }
}

/// A table of the abstract schema. Column order is the order of the
/// generated statements; columns are looked up by name.
#[derive(Debug)]
pub struct ATable {
    pub name: String,
    pub columns: Vec<AColumn>,
}

pub struct TableModel {
    pub name: Seq<char>,
    pub columns: Seq<ColumnModel>,
}

impl View for ATable {
    type V = TableModel;

    open spec fn view(&self) -> TableModel {
        TableModel { name: self.name@, columns: col_views(self.columns@) }
    }
}

fn columns_without(cols: &Vec<AColumn>, name: &str) -> (r: Vec<AColumn>)
    ensures
        col_views(r@) == without_column(col_views(cols@), name@),
{
    let mut r: Vec<AColumn> = Vec::new();
    let mut i: usize = 0;
    while i < cols.len()
        invariant
            i <= cols@.len(),
            col_views(r@) == without_column(col_views(cols@).subrange(0, i as int), name@),
        decreases cols@.len() - i,
    {
        let ghost before = col_views(r@);
        assert(before.len() == r@.len());
        let c = &cols[i];
        proof {
            let p = col_views(cols@).subrange(0, i + 1);
            assert(p.drop_last() =~= col_views(cols@).subrange(0, i as int));
            assert(p.last() == c@);
        }
        if !same_text(c.name.as_str(), name) {
            r.push(c.duplicate());
            assert(col_views(r@) =~= before.push(c@));
        }
        i += 1;
    }
    assert(col_views(cols@).subrange(0, cols@.len() as int) =~= col_views(cols@));
    r
}

impl ATable {
    /// An empty table.
    pub fn new(name: String) -> (r: ATable)
        ensures
            r@ == (TableModel { name: name@, columns: Seq::empty() }),
    {
        let r = ATable { name, columns: Vec::new() };
        assert(col_views(r.columns@) =~= Seq::empty());
        r
    }

    pub fn duplicate(&self) -> (r: ATable)
        ensures
            r@ == self@,
    {
        let mut columns: Vec<AColumn> = Vec::new();
        let mut i: usize = 0;
        while i < self.columns.len()
            invariant
                i <= self.columns@.len(),
                col_views(columns@) == col_views(self.columns@).subrange(0, i as int),
            decreases self.columns@.len() - i,
        {
            let ghost before = columns@;
            assert(col_views(columns@).len() == columns@.len());
            let d = self.columns[i].duplicate();
            columns.push(d);
            i += 1;
            assert(col_views(columns@) =~= col_views(self.columns@).subrange(0, i as int));
        }
        assert(col_views(self.columns@).subrange(0, i as int) =~= col_views(self.columns@));
        ATable { name: self.name.clone(), columns }
    }

    /// Removes the columns called `name`.
    pub fn remove_column(&mut self, name: &str)
        ensures
            final(self)@ == (TableModel {
                name: old(self)@.name,
                columns: without_column(old(self)@.columns, name@),
            }),
    {
        self.columns = columns_without(&self.columns, name);
    }

    /// Adds `col` at the end, in place of any column of the same name.
    pub fn add_column(&mut self, col: AColumn)
        ensures
            final(self)@ == (TableModel {
                name: old(self)@.name,
                columns: with_column_added(old(self)@.columns, col@),
            }),
    {
        let mut cols = columns_without(&self.columns, col.name.as_str());
        let ghost before = col_views(cols@);
        let ghost cv = col@;
        cols.push(col);
        assert(col_views(cols@) =~= before.push(cv));
        self.columns = cols;
    }

    /// Puts `col` in place of the column called `name`, where it stands.
    /// Nothing changes where no column is called `name`.
    pub fn replace_column(&mut self, name: &str, col: AColumn)
        ensures
            final(self)@ == (TableModel {
                name: old(self)@.name,
                columns: columns_replaced(old(self)@.columns, name@, col@),
            }),
    {
        let ghost cv = col@;
        let ghost olds = col_views(self.columns@);
        let mut cols: Vec<AColumn> = Vec::new();
        let mut i: usize = 0;
        while i < self.columns.len()
            invariant
                i <= self.columns@.len(),
                olds == col_views(self.columns@),
                cv == col@,
                col_views(cols@) == columns_replaced(olds.subrange(0, i as int), name@, cv),
            decreases self.columns@.len() - i,
        {
            let ghost before = col_views(cols@);
            assert(before.len() == cols@.len());
            let c = &self.columns[i];
            let ghost p = olds.subrange(0, i + 1);
            proof {
                assert(p.drop_last() =~= olds.subrange(0, i as int));
                assert(p.last() == c@);
            }
            if same_text(c.name.as_str(), name) {
                cols.push(col.duplicate());
            } else {
                cols.push(c.duplicate());
            }
            assert(col_views(cols@) =~= columns_replaced(p, name@, cv));
            i += 1;
        }
        assert(olds.subrange(0, i as int) =~= olds);
        self.columns = cols;
    }
}

/// One step of a migration.
#[derive(Debug)]
pub enum Operation {
    AddTable(ATable),
    RemoveTable(String),
    /// Table name and the column to add.
    AddColumn(String, AColumn),
    /// Table name and the name of the column to remove.
    RemoveColumn(String, String),
    /// Table name, the column as it was and the column as it becomes.
    ChangeColumn(String, AColumn, AColumn),
}

pub enum OpModel {
    AddTable(TableModel),
    RemoveTable(Seq<char>),
    AddColumn(Seq<char>, ColumnModel),
    RemoveColumn(Seq<char>, Seq<char>),
    ChangeColumn(Seq<char>, ColumnModel, ColumnModel),
}

impl View for Operation {
    type V = OpModel;

    open spec fn view(&self) -> OpModel {
        match self {
            Operation::AddTable(t) => OpModel::AddTable(t@),
            Operation::RemoveTable(n) => OpModel::RemoveTable(n@),
            Operation::AddColumn(t, c) => OpModel::AddColumn(t@, c@),
            Operation::RemoveColumn(t, c) => OpModel::RemoveColumn(t@, c@),
            Operation::ChangeColumn(t, o, n) => OpModel::ChangeColumn(t@, o@, n@),
        }
    }
}

/// The models of a sequence of tables.
pub open spec fn table_views(v: Seq<ATable>) -> Seq<TableModel> {
    v.map_values(|t: ATable| t@)
}

/// The models of a sequence of operations.
pub open spec fn op_views(v: Seq<Operation>) -> Seq<OpModel> {
    v.map_values(|o: Operation| o@)
}

/// `ts` without the tables called `name`, order kept.
pub open spec fn without_table(ts: Seq<TableModel>, name: Seq<char>) -> Seq<TableModel>
    decreases ts.len(),
{
    if ts.len() == 0 {
        Seq::empty()
    } else {
        let r = without_table(ts.drop_last(), name);
        if ts.last().name == name {
            r
        } else {
            r.push(ts.last())
        }
    }
}

/// The last table of `ts` called `name`.
pub open spec fn find_table(ts: Seq<TableModel>, name: Seq<char>) -> Option<TableModel>
    decreases ts.len(),
{
    if ts.len() == 0 {
        None
    } else if ts.last().name == name {
        Some(ts.last())
    } else {
        find_table(ts.drop_last(), name)
    }
}

/// What a column operation does to the table it names.
pub open spec fn table_step(t: TableModel, op: OpModel) -> TableModel {
    match op {
        OpModel::AddColumn(_, c) => TableModel {
            name: t.name,
            columns: with_column_added(t.columns, c),
        },
        OpModel::RemoveColumn(_, n) => TableModel { name: t.name, columns: without_column(t.columns, n) },
        OpModel::ChangeColumn(_, o, c) => TableModel {
            name: t.name,
            columns: columns_replaced(t.columns, o.name, c),
        },
        _ => t,
    }
}

/// `ts` with `table_step` applied to each table called `name`.
pub open spec fn tables_stepped(ts: Seq<TableModel>, name: Seq<char>, op: OpModel) -> Seq<TableModel>
    decreases ts.len(),
{
    if ts.len() == 0 {
        Seq::empty()
    } else {
        let r = tables_stepped(ts.drop_last(), name, op);
        if ts.last().name == name {
            r.push(table_step(ts.last(), op))
        } else {
            r.push(ts.last())
        }
    }
}

/// The schema after one operation. A table that is added replaces any
/// table of the same name; an operation on a table that is absent changes
/// nothing.
pub open spec fn apply_op(ts: Seq<TableModel>, op: OpModel) -> Seq<TableModel> {
    match op {
        OpModel::AddTable(t) => without_table(ts, t.name).push(t),
        OpModel::RemoveTable(n) => without_table(ts, n),
        OpModel::AddColumn(n, _) => tables_stepped(ts, n, op),
        OpModel::RemoveColumn(n, _) => tables_stepped(ts, n, op),
        OpModel::ChangeColumn(n, _, _) => tables_stepped(ts, n, op),
    }
}

/// The schema after the operations, applied left to right.
pub open spec fn apply_ops(ts: Seq<TableModel>, ops: Seq<OpModel>) -> Seq<TableModel>
    decreases ops.len(),
{
    if ops.len() == 0 {
        ts
    } else {
        apply_op(apply_ops(ts, ops.drop_last()), ops.last())
    }
}

/// Folding a migration over a snapshot in one pass gives the snapshot that
/// replaying its first part and then its second part gives.
pub proof fn lemma_apply_ops_split(ts: Seq<TableModel>, first: Seq<OpModel>, second: Seq<OpModel>)
    ensures
        apply_ops(ts, first + second) == apply_ops(apply_ops(ts, first), second),
    decreases second.len(),
{
    if second.len() == 0 {
        assert(first + second =~= first);
    } else {
        lemma_apply_ops_split(ts, first, second.drop_last());
        assert((first + second).drop_last() =~= first + second.drop_last());
        assert((first + second).last() == second.last());
    }
}

/// An operation on a table that is absent leaves the schema as it was.
pub proof fn lemma_stepped_absent(ts: Seq<TableModel>, name: Seq<char>, op: OpModel)
    requires
        find_table(ts, name) is None,
    ensures
        tables_stepped(ts, name, op) == ts,
    decreases ts.len(),
{
    if ts.len() > 0 {
        lemma_stepped_absent(ts.drop_last(), name, op);
        assert(ts.drop_last().push(ts.last()) =~= ts);
    }
}

impl Operation {
    pub fn duplicate(&self) -> (r: Operation)
        ensures
            r@ == self@,
    {
        match self {
            Operation::AddTable(t) => Operation::AddTable(t.duplicate()),
            Operation::RemoveTable(n) => Operation::RemoveTable(n.clone()),
            Operation::AddColumn(t, c) => Operation::AddColumn(t.clone(), c.duplicate()),
            Operation::RemoveColumn(t, c) => Operation::RemoveColumn(t.clone(), c.clone()),
            Operation::ChangeColumn(t, o, n) => Operation::ChangeColumn(
                t.clone(),
                o.duplicate(),
                n.duplicate(),
            ),
        }
    }
}

fn step_table(t: &mut ATable, op: &Operation)
    ensures
        final(t)@ == table_step(old(t)@, op@),
{
    match op {
        Operation::AddColumn(_, c) => t.add_column(c.duplicate()),
        Operation::RemoveColumn(_, n) => t.remove_column(n.as_str()),
        Operation::ChangeColumn(_, o, c) => t.replace_column(o.name(), c.duplicate()),
        _ => {},
    }
}

/// No two tables share a name.
pub open spec fn names_unique(ts: Seq<TableModel>) -> bool {
    forall|i: int, j: int| 0 <= i < j < ts.len() ==> #[trigger] ts[i].name != #[trigger] ts[j].name
}

proof fn lemma_without_table(ts: Seq<TableModel>, name: Seq<char>)
    ensures
        forall|i: int| 0 <= i < without_table(ts, name).len() ==> #[trigger] without_table(ts, name)[i].name != name,
        forall|i: int|
            0 <= i < without_table(ts, name).len() ==> exists|j: int|
                0 <= j < ts.len() && #[trigger] without_table(ts, name)[i] == ts[j],
        names_unique(ts) ==> names_unique(without_table(ts, name)),
    decreases ts.len(),
{
    if ts.len() > 0 {
        let d = ts.drop_last();
        lemma_without_table(d, name);
        let r = without_table(d, name);
        let w = without_table(ts, name);
        assert forall|i: int| 0 <= i < w.len() implies exists|j: int| 0 <= j < ts.len() && #[trigger] w[i] == ts[j] by {
            if i < r.len() {
                let j = choose|j: int| 0 <= j < d.len() && r[i] == d[j];
                assert(w[i] == ts[j]);
            } else {
                assert(w[i] == ts[ts.len() - 1]);
            }
        }
        if names_unique(ts) {
            assert(names_unique(d));
            if ts.last().name != name {
                assert forall|i: int, j: int| 0 <= i < j < w.len() implies #[trigger] w[i].name != #[trigger] w[j].name by {
                    if j == w.len() - 1 {
                        let k = choose|k: int| 0 <= k < d.len() && r[i] == d[k];
                        assert(d[k] == ts[k]);
                        assert(ts[k].name != ts[ts.len() - 1].name);
                    } else {
                        assert(r[i].name != r[j].name);
                    }
                }
            }
        }
    }
}

proof fn lemma_stepped_names(ts: Seq<TableModel>, name: Seq<char>, op: OpModel)
    ensures
        tables_stepped(ts, name, op).len() == ts.len(),
        forall|i: int| 0 <= i < ts.len() ==> #[trigger] tables_stepped(ts, name, op)[i].name == ts[i].name,
    decreases ts.len(),
{
    if ts.len() > 0 {
        lemma_stepped_names(ts.drop_last(), name, op);
        let r = tables_stepped(ts, name, op);
        assert forall|i: int| 0 <= i < ts.len() implies #[trigger] r[i].name == ts[i].name by {
            if i < ts.len() - 1 {
                assert(r[i] == tables_stepped(ts.drop_last(), name, op)[i]);
            }
        }
    }
}

proof fn lemma_stepped_unique(ts: Seq<TableModel>, name: Seq<char>, op: OpModel)
    requires
        names_unique(ts),
    ensures
        names_unique(tables_stepped(ts, name, op)),
{
    lemma_stepped_names(ts, name, op);
    let r = tables_stepped(ts, name, op);
    assert forall|i: int, j: int| 0 <= i < j < r.len() implies #[trigger] r[i].name != #[trigger] r[j].name by {
        assert(ts[i].name != ts[j].name);
    }
}

/// Each operation keeps the table names of a schema unique.
pub proof fn lemma_apply_op_unique(ts: Seq<TableModel>, op: OpModel)
    requires
        names_unique(ts),
    ensures
        names_unique(apply_op(ts, op)),
{
    match op {
        OpModel::AddTable(t) => {
            lemma_without_table(ts, t.name);
            let w = without_table(ts, t.name);
            let r = w.push(t);
            assert forall|i: int, j: int| 0 <= i < j < r.len() implies #[trigger] r[i].name != #[trigger] r[j].name by {
                if j == r.len() - 1 {
                    assert(w[i].name != t.name);
                } else {
                    assert(w[i].name != w[j].name);
                }
            }
        },
        OpModel::RemoveTable(n) => lemma_without_table(ts, n),
        OpModel::AddColumn(n, _) => {
            lemma_stepped_names(ts, n, op);
            let r = tables_stepped(ts, n, op);
            assert forall|i: int, j: int| 0 <= i < j < r.len() implies #[trigger] r[i].name != #[trigger] r[j].name by {
                assert(ts[i].name != ts[j].name);
            }
        },
        OpModel::RemoveColumn(n, _) => {
            lemma_stepped_names(ts, n, op);
            let r = tables_stepped(ts, n, op);
            assert forall|i: int, j: int| 0 <= i < j < r.len() implies #[trigger] r[i].name != #[trigger] r[j].name by {
                assert(ts[i].name != ts[j].name);
            }
        },
        OpModel::ChangeColumn(n, _, _) => {
            lemma_stepped_names(ts, n, op);
            let r = tables_stepped(ts, n, op);
            assert forall|i: int, j: int| 0 <= i < j < r.len() implies #[trigger] r[i].name != #[trigger] r[j].name by {
                assert(ts[i].name != ts[j].name);
            }
        },
    }
}

/// The abstract database: its tables, each under its own name.
#[derive(Debug)]
pub struct ADB {
    tables: Vec<ATable>,
}

impl View for ADB {
    type V = Seq<TableModel>;

    closed spec fn view(&self) -> Seq<TableModel> {
        table_views(self.tables@)
    }
}

impl ADB {
    #[verifier::type_invariant]
    spec fn unique_names(&self) -> bool {
        names_unique(table_views(self.tables@))
    }
}

fn tables_without(ts: &Vec<ATable>, name: &str) -> (r: Vec<ATable>)
    ensures
        table_views(r@) == without_table(table_views(ts@), name@),
{
    let mut r: Vec<ATable> = Vec::new();
    let mut i: usize = 0;
    while i < ts.len()
        invariant
            i <= ts@.len(),
            table_views(r@) == without_table(table_views(ts@).subrange(0, i as int), name@),
        decreases ts@.len() - i,
    {
        let ghost before = table_views(r@);
        assert(before.len() == r@.len());
        let t = &ts[i];
        proof {
            let p = table_views(ts@).subrange(0, i + 1);
            assert(p.drop_last() =~= table_views(ts@).subrange(0, i as int));
            assert(p.last() == t@);
        }
        if !same_text(t.name.as_str(), name) {
            r.push(t.duplicate());
            assert(table_views(r@) =~= before.push(t@));
        }
        i += 1;
    }
    assert(table_views(ts@).subrange(0, ts@.len() as int) =~= table_views(ts@));
    r
}

impl ADB {
    /// An empty schema.
    pub fn new() -> (r: ADB)
        ensures
            r@ == Seq::<TableModel>::empty(),
    {
        let r = ADB { tables: Vec::new() };
        assert(r@ =~= Seq::<TableModel>::empty());
        r
    }

    /// The tables, no two of them under one name.
    pub fn tables(&self) -> (r: &Vec<ATable>)
        ensures
            table_views(r@) == self@,
            names_unique(self@),
    {
        proof {
            use_type_invariant(self);
        }
        &self.tables
    }

    /// The table called `name`, if there is one.
    pub fn get_table(&self, name: &str) -> (r: Option<&ATable>)
        ensures
            match find_table(self@, name@) {
                Some(t) => r is Some && r->0@ == t,
                None => r is None,
            },
    {
        let mut found: Option<&ATable> = None;
        let mut i: usize = 0;
        while i < self.tables.len()
            invariant
                i <= self.tables@.len(),
                match find_table(table_views(self.tables@).subrange(0, i as int), name@) {
                    Some(t) => found is Some && found->0@ == t,
                    None => found is None,
                },
            decreases self.tables@.len() - i,
        {
            let t = &self.tables[i];
            proof {
                let p = table_views(self.tables@).subrange(0, i + 1);
                assert(p.drop_last() =~= table_views(self.tables@).subrange(0, i as int));
                assert(p.last() == t@);
            }
            if same_text(t.name.as_str(), name) {
                found = Some(t);
            }
            i += 1;
        }
        assert(table_views(self.tables@).subrange(0, i as int) =~= self@);
        found
    }

    /// Puts `table` in place of any table of the same name.
    pub fn replace_table(&mut self, table: ATable)
        ensures
            final(self)@ == without_table(old(self)@, table@.name).push(table@),
    {
        proof {
            use_type_invariant(&*self);
            lemma_apply_op_unique(self@, OpModel::AddTable(table@));
        }
        let mut ts = tables_without(&self.tables, table.name.as_str());
        let ghost before = table_views(ts@);
        assert(before.len() == ts@.len());
        let ghost tv = table@;
        ts.push(table);
        assert(table_views(ts@) =~= before.push(tv));
        self.tables = ts;
    }

    /// Removes the table called `name`.
    pub fn remove_table(&mut self, name: &str)
        ensures
            final(self)@ == without_table(old(self)@, name@),
    {
        proof {
            use_type_invariant(&*self);
            lemma_apply_op_unique(self@, OpModel::RemoveTable(name@));
        }
        self.tables = tables_without(&self.tables, name);
    }

    fn step_tables(&mut self, name: &str, op: &Operation)
        ensures
            final(self)@ == tables_stepped(old(self)@, name@, op@),
    {
        proof {
            use_type_invariant(&*self);
            lemma_stepped_unique(self@, name@, op@);
        }
        let ghost olds = self@;
        let mut r: Vec<ATable> = Vec::new();
        let mut i: usize = 0;
        while i < self.tables.len()
            invariant
                i <= self.tables@.len(),
                olds == table_views(self.tables@),
                table_views(r@) == tables_stepped(olds.subrange(0, i as int), name@, op@),
            decreases self.tables@.len() - i,
        {
            let ghost before = table_views(r@);
            assert(before.len() == r@.len());
            let mut t = self.tables[i].duplicate();
            proof {
                let p = olds.subrange(0, i + 1);
                assert(p.drop_last() =~= olds.subrange(0, i as int));
                assert(p.last() == t@);
            }
            if same_text(t.name.as_str(), name) {
                step_table(&mut t, op);
            }
            let ghost tv = t@;
            r.push(t);
            assert(table_views(r@) =~= before.push(tv));
            i += 1;
        }
        assert(olds.subrange(0, i as int) =~= olds);
        self.tables = r;
    }

    /// Applies one operation to the schema.
    pub fn transform_with(&mut self, op: &Operation)
        ensures
            final(self)@ == apply_op(old(self)@, op@),
    {
        match op {
            Operation::AddTable(t) => self.replace_table(t.duplicate()),
            Operation::RemoveTable(n) => self.remove_table(n.as_str()),
            Operation::AddColumn(n, _) => self.step_tables(n.as_str(), op),
            Operation::RemoveColumn(n, _) => self.step_tables(n.as_str(), op),
            Operation::ChangeColumn(n, _, _) => self.step_tables(n.as_str(), op),
        }
    }

    /// Applies the operations, left to right.
    pub fn transform_with_all(&mut self, ops: &Vec<Operation>)
        ensures
            final(self)@ == apply_ops(old(self)@, op_views(ops@)),
    {
        let ghost start = self@;
        let mut i: usize = 0;
        while i < ops.len()
            invariant
                i <= ops@.len(),
                self@ == apply_ops(start, op_views(ops@).subrange(0, i as int)),
            decreases ops@.len() - i,
        {
            self.transform_with(&ops[i]);
            proof {
                let p = op_views(ops@).subrange(0, i + 1);
                assert(p.drop_last() =~= op_views(ops@).subrange(0, i as int));
                assert(p.last() == ops@[i as int]@);
            }
            i += 1;
        }
        assert(op_views(ops@).subrange(0, i as int) =~= op_views(ops@));
    }

    pub fn duplicate(&self) -> (r: ADB)
        ensures
            r@ == self@,
    {
        proof {
            use_type_invariant(self);
        }
        let mut tables: Vec<ATable> = Vec::new();
        let mut i: usize = 0;
        while i < self.tables.len()
            invariant
                i <= self.tables@.len(),
                table_views(tables@) == table_views(self.tables@).subrange(0, i as int),
            decreases self.tables@.len() - i,
        {
            let ghost before = tables@;
            assert(table_views(tables@).len() == tables@.len());
            tables.push(self.tables[i].duplicate());
            i += 1;
            assert(table_views(tables@) =~= table_views(self.tables@).subrange(0, i as int));
        }
        assert(table_views(self.tables@).subrange(0, i as int) =~= table_views(self.tables@));
        ADB { tables }
    }
}

/// The type of the last primary-key column whose type is known.
pub open spec fn pk_type(cols: Seq<ColumnModel>) -> Option<SqlType>
    decreases cols.len(),
{
    if cols.len() == 0 {
        None
    } else {
        match cols.last().sqltype {
            DeferredModel::Known(t) if cols.last().pk => Some(t),
            _ => pk_type(cols.drop_last()),
        }
    }
}

/// The keys the tables define: each table's primary-key type, under the
/// table's name.
pub open spec fn table_key_types(ts: Seq<TableModel>) -> Seq<(TypeKeyModel, SqlType)>
    decreases ts.len(),
{
    if ts.len() == 0 {
        Seq::empty()
    } else {
        let r = table_key_types(ts.drop_last());
        match pk_type(ts.last().columns) {
            Some(t) => r.push((TypeKeyModel::PK(ts.last().name), t)),
            None => r,
        }
    }
}

/// Every key with its type: those of the tables, then the user types.
pub open spec fn declared_types(ts: Seq<TableModel>, custom: Seq<(Seq<char>, SqlType)>) -> Seq<(TypeKeyModel, SqlType)> {
    table_key_types(ts) + custom_keys(custom)
}

/// The user types, each under its name.
pub open spec fn custom_keys(custom: Seq<(Seq<char>, SqlType)>) -> Seq<(TypeKeyModel, SqlType)> {
    custom.map_values(|c: (Seq<char>, SqlType)| (TypeKeyModel::CustomType(c.0), c.1))
}

/// The type of `k` in `types`, the last entry winning.
pub open spec fn lookup_key(types: Seq<(TypeKeyModel, SqlType)>, k: TypeKeyModel) -> Option<SqlType>
    decreases types.len(),
{
    if types.len() == 0 {
        None
    } else if types.last().0 == k {
        Some(types.last().1)
    } else {
        lookup_key(types.drop_last(), k)
    }
}

/// The column with its type resolved; `UnresolvedType` with the key's
/// name where its key is not declared.
pub open spec fn resolve_column(c: ColumnModel, types: Seq<(TypeKeyModel, SqlType)>) -> core::result::Result<ColumnModel, ErrorModel> {
    match c.sqltype {
        DeferredModel::Known(_) => Ok(c),
        DeferredModel::Deferred(k) => match lookup_key(types, k) {
            Some(t) => Ok(ColumnModel { sqltype: DeferredModel::Known(t), ..c }),
            None => Err(ErrorModel::UnresolvedType(key_name(k))),
        },
    }
}

/// The columns resolved; the error of the first that cannot be.
pub open spec fn resolve_columns(cols: Seq<ColumnModel>, types: Seq<(TypeKeyModel, SqlType)>) -> core::result::Result<Seq<ColumnModel>, ErrorModel>
    decreases cols.len(),
{
    if cols.len() == 0 {
        Ok(Seq::empty())
    } else {
        match resolve_columns(cols.drop_last(), types) {
            Err(e) => Err(e),
            Ok(r) => match resolve_column(cols.last(), types) {
                Err(e) => Err(e),
                Ok(c) => Ok(r.push(c)),
            },
        }
    }
}

/// The tables resolved; the error of the first column, table by table,
/// that cannot be.
pub open spec fn resolve_tables(ts: Seq<TableModel>, types: Seq<(TypeKeyModel, SqlType)>) -> core::result::Result<Seq<TableModel>, ErrorModel>
    decreases ts.len(),
{
    if ts.len() == 0 {
        Ok(Seq::empty())
    } else {
        match resolve_tables(ts.drop_last(), types) {
            Err(e) => Err(e),
            Ok(r) => match resolve_columns(ts.last().columns, types) {
                Err(e) => Err(e),
                Ok(cols) => Ok(r.push(TableModel { name: ts.last().name, columns: cols })),
            },
        }
    }
}

pub open spec fn custom_views(v: Seq<(String, SqlType)>) -> Seq<(Seq<char>, SqlType)> {
    v.map_values(|c: (String, SqlType)| (c.0@, c.1))
}

impl TypeKey {
    fn same_key(&self, other: &TypeKey) -> (r: bool)
        ensures
            r == (self@ == other@),
    {
        match (self, other) {
            (TypeKey::PK(a), TypeKey::PK(b)) => same_text(a.as_str(), b.as_str()),
            (TypeKey::CustomType(a), TypeKey::CustomType(b)) => same_text(a.as_str(), b.as_str()),
            _ => false,
        }
    }
}

pub open spec fn key_views(v: Seq<(TypeKey, SqlType)>) -> Seq<(TypeKeyModel, SqlType)> {
    v.map_values(|e: (TypeKey, SqlType)| (e.0@, e.1))
}

fn find_key(types: &Vec<(TypeKey, SqlType)>, k: &TypeKey) -> (r: Option<SqlType>)
    ensures
        r == lookup_key(key_views(types@), k@),
{
    let ghost all = key_views(types@);
    let mut r: Option<SqlType> = None;
    let mut i: usize = 0;
    while i < types.len()
        invariant
            i <= types@.len(),
            all == key_views(types@),
            r == lookup_key(all.subrange(0, i as int), k@),
        decreases types@.len() - i,
    {
        let ghost p = all.subrange(0, i + 1);
        assert(p.drop_last() =~= all.subrange(0, i as int));
        assert(p.last() == (types@[i as int].0@, types@[i as int].1));
        if types[i].0.same_key(k) {
            r = Some(types[i].1);
        }
        i += 1;
    }
    assert(all.subrange(0, i as int) =~= all);
    r
}

fn table_pk_type(t: &ATable) -> (r: Option<SqlType>)
    ensures
        r == pk_type(t@.columns),
{
    let ghost cols = t@.columns;
    let mut r: Option<SqlType> = None;
    let mut i: usize = 0;
    while i < t.columns.len()
        invariant
            i <= t.columns@.len(),
            cols == t@.columns,
            r == pk_type(cols.subrange(0, i as int)),
        decreases t.columns@.len() - i,
    {
        let ghost p = cols.subrange(0, i + 1);
        assert(p.drop_last() =~= cols.subrange(0, i as int));
        assert(p.last() == t.columns@[i as int]@);
        let c = &t.columns[i];
        if c.pk {
            if let DeferredSqlType::Known(ty) = &c.sqltype {
                r = Some(*ty);
            }
        }
        i += 1;
    }
    assert(cols.subrange(0, i as int) =~= cols);
    r
}

fn unresolved_error(k: &TypeKey) -> (r: Error)
    ensures
        r@ == ErrorModel::UnresolvedType(key_name(k@)),
{
    match k {
        TypeKey::PK(s) => Error::UnresolvedType(s.clone()),
        TypeKey::CustomType(s) => Error::UnresolvedType(s.clone()),
    }
}

impl ADB {
    /// Gives every deferred column type its concrete type. The keys are
    /// gathered first: each table's primary-key type under the table's
    /// name, then the user types of `custom`. A key that none of them
    /// declares is an `UnresolvedType` error naming the first such key, and
    /// the schema is left as it was.
    pub fn resolve_types(&mut self, custom: &Vec<(String, SqlType)>) -> (r: Result<()>)
        ensures
            match resolve_tables(old(self)@, declared_types(old(self)@, custom_views(custom@))) {
                Ok(ts) => r is Ok && final(self)@ == ts,
                Err(e) => r matches Err(x) && x@ == e && final(self)@ == old(self)@,
            },
    {
        proof {
            use_type_invariant(&*self);
        }
        let ghost olds = self@;
        let mut types: Vec<(TypeKey, SqlType)> = Vec::new();
        let mut i: usize = 0;
        while i < self.tables.len()
            invariant
                i <= self.tables@.len(),
                olds == table_views(self.tables@),
                key_views(types@) == table_key_types(olds.subrange(0, i as int)),
            decreases self.tables@.len() - i,
        {
            let ghost p = olds.subrange(0, i + 1);
            assert(p.drop_last() =~= olds.subrange(0, i as int));
            assert(p.last() == self.tables@[i as int]@);
            let ghost before = key_views(types@);
            assert(before.len() == types@.len());
            let t = &self.tables[i];
            if let Some(ty) = table_pk_type(t) {
                types.push((TypeKey::PK(t.name.clone()), ty));
                assert(key_views(types@) =~= before.push((TypeKeyModel::PK(p.last().name), ty)));
            }
            i += 1;
        }
        assert(olds.subrange(0, i as int) =~= olds);
        let ghost tk = key_views(types@);
        let ghost cv = custom_views(custom@);
        let mut j: usize = 0;
        while j < custom.len()
            invariant
                j <= custom@.len(),
                cv == custom_views(custom@),
                key_views(types@) == tk + custom_keys(cv.subrange(0, j as int)),
            decreases custom@.len() - j,
        {
            let ghost before = key_views(types@);
            assert(before.len() == types@.len());
            let ghost e = (TypeKeyModel::CustomType(cv[j as int].0), cv[j as int].1);
            let name = custom[j].0.clone();
            assert(name@ == cv[j as int].0);
            types.push((TypeKey::CustomType(name), custom[j].1));
            assert(key_views(types@) =~= before.push(e));
            assert(custom_keys(cv.subrange(0, j + 1)) =~= custom_keys(cv.subrange(0, j as int)).push(e));
            j += 1;
            assert(key_views(types@) =~= tk + custom_keys(cv.subrange(0, j as int)));
        }
        assert(cv.subrange(0, j as int) =~= cv);
        let ghost all = key_views(types@);
        assert(all == declared_types(olds, cv));
        let mut out: Vec<ATable> = Vec::new();
        assert(table_views(out@) =~= Seq::<TableModel>::empty());
        assert(olds.subrange(0, 0) =~= Seq::<TableModel>::empty());
        let mut ti: usize = 0;
        while ti < self.tables.len()
            invariant
                ti <= self.tables@.len(),
                olds == table_views(self.tables@),
                olds == old(self)@,
                all == key_views(types@),
                all == declared_types(olds, custom_views(custom@)),
                resolve_tables(olds.subrange(0, ti as int), all) == Ok::<Seq<TableModel>, ErrorModel>(table_views(out@)),
            decreases self.tables@.len() - ti,
        {
            let ghost p = olds.subrange(0, ti + 1);
            assert(p.drop_last() =~= olds.subrange(0, ti as int));
            let t = &self.tables[ti];
            assert(p.last() == t@);
            let ghost tcols = t@.columns;
            let mut cols: Vec<AColumn> = Vec::new();
            assert(col_views(cols@) =~= Seq::<ColumnModel>::empty());
            assert(tcols.subrange(0, 0) =~= Seq::<ColumnModel>::empty());
            let mut ci: usize = 0;
            while ci < t.columns.len()
                invariant
                    ci <= t.columns@.len(),
                    tcols == t@.columns,
                    all == key_views(types@),
                    resolve_columns(tcols.subrange(0, ci as int), all) == Ok::<Seq<ColumnModel>, ErrorModel>(col_views(cols@)),
                    olds == table_views(self.tables@),
                    olds == old(self)@,
                    all == declared_types(olds, custom_views(custom@)),
                    ti < olds.len(),
                    p == olds.subrange(0, ti + 1),
                    p.drop_last() == olds.subrange(0, ti as int),
                    p.last().columns == tcols,
                    resolve_tables(olds.subrange(0, ti as int), all) == Ok::<Seq<TableModel>, ErrorModel>(table_views(out@)),
                decreases t.columns@.len() - ci,
            {
                let ghost q = tcols.subrange(0, ci + 1);
                assert(q.drop_last() =~= tcols.subrange(0, ci as int));
                let c = &t.columns[ci];
                assert(q.last() == c@);
                let ghost before = col_views(cols@);
                assert(before.len() == cols@.len());
                let resolved = match &c.sqltype {
                    DeferredSqlType::Known(_) => c.duplicate(),
                    DeferredSqlType::Deferred(k) => match find_key(&types, k) {
                        Some(ty) => {
                            let mut d = c.duplicate();
                            d.sqltype = DeferredSqlType::Known(ty);
                            d
                        },
                        None => {
                            let e = unresolved_error(k);
                            proof {
                                assert(resolve_columns(q, all) == Err::<Seq<ColumnModel>, ErrorModel>(e@));
                                lemma_columns_prefix_err(tcols, all, ci + 1, e@);
                                assert(resolve_tables(p, all) == Err::<Seq<TableModel>, ErrorModel>(e@));
                                lemma_tables_prefix_err(olds, all, ti + 1, e@);
                            }
                            return Err(e);
                        },
                    },
                };
                cols.push(resolved);
                ci += 1;
                assert(col_views(cols@) =~= before.push(resolve_column(q.last(), all)->Ok_0));
            }
            assert(tcols.subrange(0, ci as int) =~= tcols);
            let ghost before = table_views(out@);
            assert(before.len() == out@.len());
            out.push(ATable { name: t.name.clone(), columns: cols });
            ti += 1;
            assert(table_views(out@) =~= before.push(TableModel { name: p.last().name, columns: resolve_columns(tcols, all)->Ok_0 }));
        }
        assert(olds.subrange(0, ti as int) =~= olds);
        proof {
            lemma_resolve_names(olds, all);
        }
        self.tables = out;
        Ok(())
    }
}

proof fn lemma_resolve_names(ts: Seq<TableModel>, types: Seq<(TypeKeyModel, SqlType)>)
    requires
        resolve_tables(ts, types) is Ok,
    ensures
        resolve_tables(ts, types)->Ok_0.len() == ts.len(),
        forall|i: int| 0 <= i < ts.len() ==> #[trigger] resolve_tables(ts, types)->Ok_0[i].name == ts[i].name,
        names_unique(ts) ==> names_unique(resolve_tables(ts, types)->Ok_0),
    decreases ts.len(),
{
    if ts.len() > 0 {
        lemma_resolve_names(ts.drop_last(), types);
        let r = resolve_tables(ts, types)->Ok_0;
        let p = resolve_tables(ts.drop_last(), types)->Ok_0;
        assert forall|i: int| 0 <= i < ts.len() implies #[trigger] r[i].name == ts[i].name by {
            if i < ts.len() - 1 {
                assert(r[i] == p[i]);
            }
        }
        if names_unique(ts) {
            assert forall|i: int, j: int| 0 <= i < j < r.len() implies #[trigger] r[i].name != #[trigger] r[j].name by {
                assert(ts[i].name != ts[j].name);
            }
        }
    }
}

proof fn lemma_columns_prefix_err(cols: Seq<ColumnModel>, types: Seq<(TypeKeyModel, SqlType)>, n: int, e: ErrorModel)
    requires
        0 < n <= cols.len(),
        resolve_columns(cols.subrange(0, n), types) == Err::<Seq<ColumnModel>, ErrorModel>(e),
    ensures
        resolve_columns(cols, types) == Err::<Seq<ColumnModel>, ErrorModel>(e),
    decreases cols.len() - n,
{
    if n < cols.len() {
        let p = cols.subrange(0, n + 1);
        assert(p.drop_last() =~= cols.subrange(0, n));
        lemma_columns_prefix_err(cols, types, n + 1, e);
    } else {
        assert(cols.subrange(0, n) =~= cols);
    }
}

proof fn lemma_tables_prefix_err(ts: Seq<TableModel>, types: Seq<(TypeKeyModel, SqlType)>, n: int, e: ErrorModel)
    requires
        0 < n <= ts.len(),
        resolve_tables(ts.subrange(0, n), types) == Err::<Seq<TableModel>, ErrorModel>(e),
    ensures
        resolve_tables(ts, types) == Err::<Seq<TableModel>, ErrorModel>(e),
    decreases ts.len() - n,
{
    if n < ts.len() {
        let p = ts.subrange(0, n + 1);
        assert(p.drop_last() =~= ts.subrange(0, n));
        lemma_tables_prefix_err(ts, types, n + 1, e);
    } else {
        assert(ts.subrange(0, n) =~= ts);
    }
}

} // verus!
