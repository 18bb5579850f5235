//! Compiling queries and data statements into parameterised SQL. Literal
//! values never enter the text: each one becomes a placeholder, and the
//! values are handed back in placeholder order.

use vstd::prelude::*;
use crate::connmethods::Column;
use crate::query::{bool_literals, expr_literals, literal_count, BoolExpr, Expr, Order, OrderDirection};
use crate::text::{int_text, nat_text, push_int, push_nat};
use crate::types::{value_views, SqlVal, Value};

verus! {

/// Hands out the parameter markers of one statement: numbered (`$1`, `$2`,
/// ...) or positional (`?`).
#[derive(Debug)]
pub struct PlaceholderSource {
    numbered: bool,
    next: u64,
}

impl PlaceholderSource {
    pub closed spec fn is_numbered(&self) -> bool {
        self.numbered
    }

    /// The number of the next placeholder.
    pub closed spec fn next_number(&self) -> nat {
        self.next as nat
    }

    /// Markers `$1`, `$2`, ...
    pub fn numbered() -> (r: PlaceholderSource)
        ensures
            r.is_numbered(),
            r.next_number() == 1,
    {
        PlaceholderSource { numbered: true, next: 1 }
    }

    /// Markers `?`.
    pub fn positional() -> (r: PlaceholderSource)
        ensures
            !r.is_numbered(),
            r.next_number() == 1,
    {
        PlaceholderSource { numbered: false, next: 1 }
    }

    /// Appends the next marker to `w`.
    pub fn next_placeholder(&mut self, w: &mut String)
        requires
            old(self).next_number() < u64::MAX,
        ensures
            final(self).is_numbered() == old(self).is_numbered(),
            final(self).next_number() == old(self).next_number() + 1,
            final(w)@ == old(w)@ + placeholder_text(old(self).is_numbered(), old(self).next_number()),
    {
        if self.numbered {
            w.append("$");
            push_nat(w, self.next);
            assert(final(w)@ =~= old(w)@ + placeholder_text(true, old(self).next_number()));
        } else {
            w.append("?");
        }
        self.next = self.next + 1;
    }
}

/// The marker of placeholder number `k`.
pub open spec fn placeholder_text(numbered: bool, k: nat) -> Seq<char> {
    if numbered {
        "$"@ + nat_text(k)
    } else {
        "?"@
    }
}

/// The SQL text of the right-hand side of a comparison whose first
/// placeholder has number `k`.
pub open spec fn expr_text(x: Expr, numbered: bool, k: nat) -> Seq<char>
    decreases x,
{
    match x {
        Expr::Column(c) => c@,
        Expr::Val(_) => placeholder_text(numbered, k),
        Expr::Condition(b) => bool_text(*b, numbered, k),
    }
}

/// The SQL text of a condition whose first placeholder has number `k`.
pub open spec fn bool_text(e: BoolExpr, numbered: bool, k: nat) -> Seq<char>
    decreases e,
{
    match e {
        BoolExpr::True => "TRUE"@,
        BoolExpr::Eq(c, x) => c@ + " = "@ + expr_text(x, numbered, k),
        BoolExpr::Ne(c, x) => c@ + " <> "@ + expr_text(x, numbered, k),
        BoolExpr::Lt(c, x) => c@ + " < "@ + expr_text(x, numbered, k),
        BoolExpr::Gt(c, x) => c@ + " > "@ + expr_text(x, numbered, k),
        BoolExpr::Le(c, x) => c@ + " <= "@ + expr_text(x, numbered, k),
        BoolExpr::Ge(c, x) => c@ + " >= "@ + expr_text(x, numbered, k),
        BoolExpr::Like(c, x) => c@ + " LIKE "@ + expr_text(x, numbered, k),
        BoolExpr::And(a, b) => "("@ + bool_text(*a, numbered, k) + ") AND ("@ + bool_text(
            *b,
            numbered,
            k + literal_count(*a),
        ) + ")"@,
        BoolExpr::Or(a, b) => "("@ + bool_text(*a, numbered, k) + ") OR ("@ + bool_text(
            *b,
            numbered,
            k + literal_count(*a),
        ) + ")"@,
        BoolExpr::Not(a) => "NOT ("@ + bool_text(*a, numbered, k) + ")"@,
    }
}

fn write_expr(x: &Expr, values: &mut Vec<SqlVal>, pls: &mut PlaceholderSource, w: &mut String)
    requires
        old(pls).next_number() + expr_literals(*x).len() <= u64::MAX,
    ensures
        final(w)@ == old(w)@ + expr_text(*x, old(pls).is_numbered(), old(pls).next_number()),
        value_views(final(values)@) == value_views(old(values)@) + expr_literals(*x),
        final(pls).is_numbered() == old(pls).is_numbered(),
        final(pls).next_number() == old(pls).next_number() + expr_literals(*x).len(),
    decreases *x, 0nat,
{
    match x {
        Expr::Column(c) => {
            w.append(c);
            assert(value_views(values@) =~= value_views(old(values)@) + expr_literals(*x));
        },
        Expr::Val(v) => {
            pls.next_placeholder(w);
            let ghost before = value_views(values@);
            assert(before.len() == values@.len());
            values.push(v.duplicate());
            assert(value_views(values@) =~= before + expr_literals(*x));
        },
        Expr::Condition(b) => {
            sql_for_expr(b, values, pls, w);
        },
    }
}

fn write_comparison(
    c: &'static str,
    op: &'static str,
    x: &Expr,
    values: &mut Vec<SqlVal>,
    pls: &mut PlaceholderSource,
    w: &mut String,
)
    requires
        old(pls).next_number() + expr_literals(*x).len() <= u64::MAX,
    ensures
        final(w)@ == old(w)@ + c@ + op@ + expr_text(*x, old(pls).is_numbered(), old(pls).next_number()),
        value_views(final(values)@) == value_views(old(values)@) + expr_literals(*x),
        final(pls).is_numbered() == old(pls).is_numbered(),
        final(pls).next_number() == old(pls).next_number() + expr_literals(*x).len(),
    decreases *x, 1nat,
{
    w.append(c);
    w.append(op);
    write_expr(x, values, pls, w);
    assert(final(w)@ =~= old(w)@ + c@ + op@ + expr_text(*x, old(pls).is_numbered(), old(pls).next_number()));
}

/// Appends the SQL text of `e` to `w`, takes a placeholder from `pls` for
/// each literal and appends the literals to `values` in the same order.
pub fn sql_for_expr(e: &BoolExpr, values: &mut Vec<SqlVal>, pls: &mut PlaceholderSource, w: &mut String)
    requires
        old(pls).next_number() + literal_count(*e) <= u64::MAX,
    ensures
        final(w)@ == old(w)@ + bool_text(*e, old(pls).is_numbered(), old(pls).next_number()),
        value_views(final(values)@) == value_views(old(values)@) + bool_literals(*e),
        final(pls).is_numbered() == old(pls).is_numbered(),
        final(pls).next_number() == old(pls).next_number() + literal_count(*e),
    decreases *e, 0nat,
{
    let ghost numbered = pls.is_numbered();
    let ghost k = pls.next_number();
    match e {
        BoolExpr::True => {
            w.append("TRUE");
            assert(value_views(values@) =~= value_views(old(values)@) + bool_literals(*e));
        },
        BoolExpr::Eq(c, x) => write_comparison(c, " = ", x, values, pls, w),
        BoolExpr::Ne(c, x) => write_comparison(c, " <> ", x, values, pls, w),
        BoolExpr::Lt(c, x) => write_comparison(c, " < ", x, values, pls, w),
        BoolExpr::Gt(c, x) => write_comparison(c, " > ", x, values, pls, w),
        BoolExpr::Le(c, x) => write_comparison(c, " <= ", x, values, pls, w),
        BoolExpr::Ge(c, x) => write_comparison(c, " >= ", x, values, pls, w),
        BoolExpr::Like(c, x) => write_comparison(c, " LIKE ", x, values, pls, w),
        BoolExpr::And(a, b) => {
            w.append("(");
            sql_for_expr(a, values, pls, w);
            w.append(") AND (");
            sql_for_expr(b, values, pls, w);
            w.append(")");
            assert(final(w)@ =~= old(w)@ + bool_text(*e, numbered, k));
            assert(value_views(values@) =~= value_views(old(values)@) + bool_literals(*e));
        },
        BoolExpr::Or(a, b) => {
            w.append("(");
            sql_for_expr(a, values, pls, w);
            w.append(") OR (");
            sql_for_expr(b, values, pls, w);
            w.append(")");
            assert(final(w)@ =~= old(w)@ + bool_text(*e, numbered, k));
            assert(value_views(values@) =~= value_views(old(values)@) + bool_literals(*e));
        },
        BoolExpr::Not(a) => {
            w.append("NOT (");
            sql_for_expr(a, values, pls, w);
            w.append(")");
            assert(final(w)@ =~= old(w)@ + bool_text(*e, numbered, k));
        },
    }
}

/// The column names, separated by `, `.
pub open spec fn column_list(cols: Seq<Column>) -> Seq<char>
    decreases cols.len(),
{
    if cols.len() == 0 {
        Seq::empty()
    } else if cols.len() == 1 {
        cols[0].name@
    } else {
        column_list(cols.drop_last()) + ", "@ + cols.last().name@
    }
}

/// `n` markers from number `k` on, separated by `, `.
pub open spec fn placeholder_list(numbered: bool, k: nat, n: nat) -> Seq<char>
    decreases n,
{
    if n == 0 {
        Seq::empty()
    } else if n == 1 {
        placeholder_text(numbered, k)
    } else {
        placeholder_list(numbered, k, (n - 1) as nat) + ", "@ + placeholder_text(numbered, (k + n - 1) as nat)
    }
}

/// `col = marker` for each column, markers from number `k` on, separated
/// by `, `.
pub open spec fn assignment_list(cols: Seq<Column>, numbered: bool, k: nat) -> Seq<char>
    decreases cols.len(),
{
    if cols.len() == 0 {
        Seq::empty()
    } else {
        let last = cols.last().name@ + " = "@ + placeholder_text(numbered, (k + cols.len() - 1) as nat);
        if cols.len() == 1 {
            last
        } else {
            assignment_list(cols.drop_last(), numbered, k) + ", "@ + last
        }
    }
}

/// The text of one sort key.
pub open spec fn order_item(o: Order) -> Seq<char> {
    o.column@ + match o.direction {
        OrderDirection::Ascending => " ASC"@,
        OrderDirection::Descending => " DESC"@,
    }
}

/// The sort keys, separated by `, `.
pub open spec fn order_list(os: Seq<Order>) -> Seq<char>
    decreases os.len(),
{
    if os.len() == 0 {
        Seq::empty()
    } else if os.len() == 1 {
        order_item(os[0])
    } else {
        order_list(os.drop_last()) + ", "@ + order_item(os.last())
    }
}

/// Appends the column names, separated by `, `.
pub fn list_columns(columns: &[Column], w: &mut String)
    ensures
        final(w)@ == old(w)@ + column_list(columns@),
{
    let ghost start = w@;
    let mut i: usize = 0;
    while i < columns.len()
        invariant
            i <= columns@.len(),
            w@ == start + column_list(columns@.subrange(0, i as int)),
        decreases columns@.len() - i,
    {
        let ghost p = columns@.subrange(0, i + 1);
        assert(p.drop_last() =~= columns@.subrange(0, i as int));
        if i > 0 {
            w.append(", ");
        }
        w.append(columns[i].name);
        i += 1;
        proof {
            if i == 1 {
                assert(column_list(p) == p[0].name@);
                assert(column_list(columns@.subrange(0, 0)) == Seq::<char>::empty());
            }
        }
        assert(w@ =~= start + column_list(columns@.subrange(0, i as int)));
    }
    assert(columns@.subrange(0, i as int) =~= columns@);
}

/// Appends `n` markers taken from `pls`, separated by `, `.
pub(crate) fn list_placeholders(n: usize, pls: &mut PlaceholderSource, w: &mut String)
    requires
        old(pls).next_number() + n <= u64::MAX,
    ensures
        final(w)@ == old(w)@ + placeholder_list(old(pls).is_numbered(), old(pls).next_number(), n as nat),
        final(pls).is_numbered() == old(pls).is_numbered(),
        final(pls).next_number() == old(pls).next_number() + n,
{
    let ghost start = w@;
    let ghost k = pls.next_number();
    let mut i: usize = 0;
    while i < n
        invariant
            i <= n,
            k + n <= u64::MAX,
            pls.is_numbered() == old(pls).is_numbered(),
            pls.next_number() == k + i,
            w@ == start + placeholder_list(pls.is_numbered(), k, i as nat),
        decreases n - i,
    {
        if i > 0 {
            w.append(", ");
        }
        pls.next_placeholder(w);
        i += 1;
        assert(w@ =~= start + placeholder_list(pls.is_numbered(), k, i as nat));
    }
}

/// Appends `col = marker` for each column, separated by `, `.
fn list_assignments(columns: &[Column], pls: &mut PlaceholderSource, w: &mut String)
    requires
        old(pls).next_number() + columns@.len() <= u64::MAX,
    ensures
        final(w)@ == old(w)@ + assignment_list(columns@, old(pls).is_numbered(), old(pls).next_number()),
        final(pls).is_numbered() == old(pls).is_numbered(),
        final(pls).next_number() == old(pls).next_number() + columns@.len(),
{
    let ghost start = w@;
    let ghost k = pls.next_number();
    let mut i: usize = 0;
    while i < columns.len()
        invariant
            i <= columns@.len(),
            k + columns@.len() <= u64::MAX,
            pls.is_numbered() == old(pls).is_numbered(),
            pls.next_number() == k + i,
            w@ == start + assignment_list(columns@.subrange(0, i as int), pls.is_numbered(), k),
        decreases columns@.len() - i,
    {
        let ghost p = columns@.subrange(0, i + 1);
        assert(p.drop_last() =~= columns@.subrange(0, i as int));
        if i > 0 {
            w.append(", ");
        }
        w.append(columns[i].name);
        w.append(" = ");
        pls.next_placeholder(w);
        i += 1;
        assert(w@ =~= start + assignment_list(columns@.subrange(0, i as int), pls.is_numbered(), k));
    }
    assert(columns@.subrange(0, i as int) =~= columns@);
}

/// Appends `SELECT <columns> FROM <table>`.
pub fn sql_select(columns: &[Column], table: &str, w: &mut String)
    ensures
        final(w)@ == old(w)@ + "SELECT "@ + column_list(columns@) + " FROM "@ + table@,
{
    w.append("SELECT ");
    list_columns(columns, w);
    w.append(" FROM ");
    w.append(table);
}

/// Appends ` ORDER BY` and the sort keys, in priority order.
pub fn sql_order(order: &[Order], w: &mut String)
    ensures
        final(w)@ == old(w)@ + " ORDER BY "@ + order_list(order@),
{
    w.append(" ORDER BY ");
    let ghost start = w@;
    let mut i: usize = 0;
    while i < order.len()
        invariant
            i <= order@.len(),
            w@ == start + order_list(order@.subrange(0, i as int)),
        decreases order@.len() - i,
    {
        let ghost p = order@.subrange(0, i + 1);
        assert(p.drop_last() =~= order@.subrange(0, i as int));
        if i > 0 {
            w.append(", ");
        }
        let o = order[i];
        w.append(o.column);
        match o.direction {
            OrderDirection::Ascending => w.append(" ASC"),
            OrderDirection::Descending => w.append(" DESC"),
        }
        i += 1;
        proof {
            if i == 1 {
                assert(order@.subrange(0, 0) =~= Seq::<Order>::empty());
            }
        }
        assert(w@ =~= start + order_list(order@.subrange(0, i as int)));
    }
    assert(order@.subrange(0, i as int) =~= order@);
}

/// Appends ` LIMIT <limit>`.
pub fn sql_limit(limit: i32, w: &mut String)
    ensures
        final(w)@ == old(w)@ + " LIMIT "@ + int_text(limit as int),
{
    w.append(" LIMIT ");
    push_int(w, limit as i64);
}

/// Appends ` OFFSET <offset>`.
pub fn sql_offset(offset: i32, w: &mut String)
    ensures
        final(w)@ == old(w)@ + " OFFSET "@ + int_text(offset as int),
{
    w.append(" OFFSET ");
    push_int(w, offset as i64);
}

/// Appends `INSERT INTO <table> (<columns>) VALUES (<markers>)`.
pub fn sql_insert_with_placeholders(
    table: &str,
    columns: &[Column],
    pls: &mut PlaceholderSource,
    w: &mut String,
)
    requires
        old(pls).next_number() + columns@.len() <= u64::MAX,
    ensures
        final(w)@ == old(w)@ + "INSERT INTO "@ + table@ + " ("@ + column_list(columns@) + ") VALUES ("@
            + placeholder_list(old(pls).is_numbered(), old(pls).next_number(), columns@.len()) + ")"@,
        final(pls).is_numbered() == old(pls).is_numbered(),
        final(pls).next_number() == old(pls).next_number() + columns@.len(),
{
    w.append("INSERT INTO ");
    w.append(table);
    w.append(" (");
    list_columns(columns, w);
    w.append(") VALUES (");
    list_placeholders(columns.len(), pls, w);
    w.append(")");
}

/// Appends `UPDATE <table> SET <col> = <marker>, ... WHERE <pk> = <marker>`;
/// the key's marker comes after those of the columns.
pub fn sql_update_with_placeholders(
    table: &str,
    pkcol: &Column,
    columns: &[Column],
    pls: &mut PlaceholderSource,
    w: &mut String,
)
    requires
        old(pls).next_number() + columns@.len() + 1 <= u64::MAX,
    ensures
        final(w)@ == old(w)@ + "UPDATE "@ + table@ + " SET "@ + assignment_list(
            columns@,
            old(pls).is_numbered(),
            old(pls).next_number(),
        ) + " WHERE "@ + pkcol.name@ + " = "@ + placeholder_text(
            old(pls).is_numbered(),
            old(pls).next_number() + columns@.len(),
        ),
        final(pls).is_numbered() == old(pls).is_numbered(),
        final(pls).next_number() == old(pls).next_number() + columns@.len() + 1,
{
    w.append("UPDATE ");
    w.append(table);
    w.append(" SET ");
    list_assignments(columns, pls, w);
    w.append(" WHERE ");
    w.append(pkcol.name);
    w.append(" = ");
    pls.next_placeholder(w);
}

/// The text of a query, with the parameters of its filter.
pub open spec fn query_text(
    table: &str,
    columns: Seq<Column>,
    expr: Option<BoolExpr>,
    limit: Option<i32>,
    offset: Option<i32>,
    order: Option<Seq<Order>>,
    numbered: bool,
) -> Seq<char> {
    "SELECT "@ + column_list(columns) + " FROM "@ + table@ + match expr {
        Some(e) => " WHERE "@ + bool_text(e, numbered, 1),
        None => Seq::empty(),
    } + match order {
        Some(os) => " ORDER BY "@ + order_list(os),
        None => Seq::empty(),
    } + match limit {
        Some(l) => " LIMIT "@ + int_text(l as int),
        None => Seq::empty(),
    } + match offset {
        Some(o) => " OFFSET "@ + int_text(o as int),
        None => Seq::empty(),
    }
}

/// The SQL of a query and its parameters: columns and table, then the
/// filter, the sort keys, the limit and the offset, each only where given.
pub fn query_sql(
    table: &str,
    columns: &[Column],
    expr: Option<&BoolExpr>,
    limit: Option<i32>,
    offset: Option<i32>,
    order: Option<&[Order]>,
    mut pls: PlaceholderSource,
) -> (r: (String, Vec<SqlVal>))
    requires
        pls.next_number() == 1,
        match expr {
            Some(e) => literal_count(*e) < u64::MAX,
            None => true,
        },
    ensures
        r.0@ == query_text(
            table,
            columns@,
            match expr {
                Some(e) => Some(*e),
                None => None,
            },
            limit,
            offset,
            match order {
                Some(os) => Some(os@),
                None => None,
            },
            pls.is_numbered(),
        ),
        value_views(r.1@) == match expr {
            Some(e) => bool_literals(*e),
            None => Seq::<Value>::empty(),
        },
{
    let ghost numbered = pls.is_numbered();
    let mut w = String::new();
    let mut values: Vec<SqlVal> = Vec::new();
    sql_select(columns, table, &mut w);
    let ghost a = w@;
    if let Some(e) = expr {
        w.append(" WHERE ");
        sql_for_expr(e, &mut values, &mut pls, &mut w);
    } else {
        assert(value_views(values@) =~= Seq::<Value>::empty());
    }
    let ghost b = w@;
    if let Some(os) = order {
        sql_order(os, &mut w);
    }
    let ghost c = w@;
    if let Some(l) = limit {
        sql_limit(l, &mut w);
    }
    let ghost d = w@;
    if let Some(o) = offset {
        sql_offset(o, &mut w);
    }
    assert(w@ =~= query_text(
        table,
        columns@,
        match expr {
            Some(e) => Some(*e),
            None => None,
        },
        limit,
        offset,
        match order {
            Some(os) => Some(os@),
            None => None,
        },
        numbered,
    ));
    (w, values)
}

/// The SQL that deletes the rows of `table` matching `expr`, and its
/// parameters.
pub fn delete_where_sql(table: &str, expr: &BoolExpr, mut pls: PlaceholderSource) -> (r: (String, Vec<SqlVal>))
    requires
        pls.next_number() == 1,
        literal_count(*expr) < u64::MAX,
    ensures
        r.0@ == "DELETE FROM "@ + table@ + " WHERE "@ + bool_text(*expr, pls.is_numbered(), 1),
        value_views(r.1@) == bool_literals(*expr),
{
    let mut w = String::new();
    let mut values: Vec<SqlVal> = Vec::new();
    w.append("DELETE FROM ");
    w.append(table);
    w.append(" WHERE ");
    assert(value_views(values@) =~= Seq::<Value>::empty());
    sql_for_expr(expr, &mut values, &mut pls, &mut w);
    assert(value_views(values@) =~= bool_literals(*expr));
    (w, values)
}

/// A piece of the text of a condition: fixed text, or a marker.
pub enum Piece {
    Fixed(Seq<char>),
    Marker,
}

/// The text of the pieces, the markers numbered from `k` on.
pub open spec fn render(ps: Seq<Piece>, numbered: bool, k: nat) -> Seq<char>
    decreases ps.len(),
{
    if ps.len() == 0 {
        Seq::empty()
    } else {
        match ps[0] {
            Piece::Fixed(t) => t + render(ps.drop_first(), numbered, k),
            Piece::Marker => placeholder_text(numbered, k) + render(ps.drop_first(), numbered, k + 1),
        }
    }
}

/// The number of markers among the pieces.
pub open spec fn marker_count(ps: Seq<Piece>) -> nat
    decreases ps.len(),
{
    if ps.len() == 0 {
        0
    } else {
        (if ps[0] is Marker { 1nat } else { 0nat }) + marker_count(ps.drop_first())
    }
}

/// The pieces of the text of a right-hand side.
pub open spec fn expr_pieces(x: Expr) -> Seq<Piece>
    decreases x,
{
    match x {
        Expr::Column(c) => seq![Piece::Fixed(c@)],
        Expr::Val(_) => seq![Piece::Marker],
        Expr::Condition(b) => bool_pieces(*b),
    }
}

/// The pieces of the text of a condition: column names, operators and
/// parentheses are fixed; each literal is a marker.
pub open spec fn bool_pieces(e: BoolExpr) -> Seq<Piece>
    decreases e,
{
    match e {
        BoolExpr::True => seq![Piece::Fixed("TRUE"@)],
        BoolExpr::Eq(c, x) => seq![Piece::Fixed(c@ + " = "@)] + expr_pieces(x),
        BoolExpr::Ne(c, x) => seq![Piece::Fixed(c@ + " <> "@)] + expr_pieces(x),
        BoolExpr::Lt(c, x) => seq![Piece::Fixed(c@ + " < "@)] + expr_pieces(x),
        BoolExpr::Gt(c, x) => seq![Piece::Fixed(c@ + " > "@)] + expr_pieces(x),
        BoolExpr::Le(c, x) => seq![Piece::Fixed(c@ + " <= "@)] + expr_pieces(x),
        BoolExpr::Ge(c, x) => seq![Piece::Fixed(c@ + " >= "@)] + expr_pieces(x),
        BoolExpr::Like(c, x) => seq![Piece::Fixed(c@ + " LIKE "@)] + expr_pieces(x),
        BoolExpr::And(a, b) => seq![Piece::Fixed("("@)] + bool_pieces(*a) + seq![Piece::Fixed(") AND ("@)]
            + bool_pieces(*b) + seq![Piece::Fixed(")"@)],
        BoolExpr::Or(a, b) => seq![Piece::Fixed("("@)] + bool_pieces(*a) + seq![Piece::Fixed(") OR ("@)]
            + bool_pieces(*b) + seq![Piece::Fixed(")"@)],
        BoolExpr::Not(a) => seq![Piece::Fixed("NOT ("@)] + bool_pieces(*a) + seq![Piece::Fixed(")"@)],
    }
}

proof fn lemma_render_append(a: Seq<Piece>, b: Seq<Piece>, numbered: bool, k: nat)
    ensures
        render(a + b, numbered, k) == render(a, numbered, k) + render(b, numbered, k + marker_count(a)),
        marker_count(a + b) == marker_count(a) + marker_count(b),
    decreases a.len(),
{
    if a.len() == 0 {
        assert(a + b =~= b);
    } else {
        assert((a + b).drop_first() =~= a.drop_first() + b);
        assert((a + b)[0] == a[0]);
        match a[0] {
            Piece::Fixed(_) => lemma_render_append(a.drop_first(), b, numbered, k),
            Piece::Marker => lemma_render_append(a.drop_first(), b, numbered, k + 1),
        }
    }
}

proof fn lemma_render_one(p: Piece, numbered: bool, k: nat)
    ensures
        render(seq![p], numbered, k) == match p {
            Piece::Fixed(t) => t,
            Piece::Marker => placeholder_text(numbered, k),
        },
        marker_count(seq![p]) == if p is Marker { 1nat } else { 0nat },
{
    let s = seq![p];
    assert(s.drop_first() =~= Seq::<Piece>::empty());
    assert(s[0] == p);
    assert(render(Seq::<Piece>::empty(), numbered, k) == Seq::<char>::empty());
    assert(render(Seq::<Piece>::empty(), numbered, k + 1) == Seq::<char>::empty());
    assert(marker_count(Seq::<Piece>::empty()) == 0);
    match p {
        Piece::Fixed(t) => assert(render(s, numbered, k) =~= t),
        Piece::Marker => assert(render(s, numbered, k) =~= placeholder_text(numbered, k)),
    }
}

proof fn lemma_expr_pieces(x: Expr, numbered: bool, k: nat)
    ensures
        render(expr_pieces(x), numbered, k) == expr_text(x, numbered, k),
        marker_count(expr_pieces(x)) == expr_literals(x).len(),
    decreases x, 0nat,
{
    match x {
        Expr::Column(c) => lemma_render_one(Piece::Fixed(c@), numbered, k),
        Expr::Val(_) => lemma_render_one(Piece::Marker, numbered, k),
        Expr::Condition(b) => lemma_placeholders_match_parameters(*b, numbered, k),
    }
}

proof fn lemma_comparison_pieces(c: &str, op: Seq<char>, x: Expr, numbered: bool, k: nat)
    ensures
        render(seq![Piece::Fixed(c@ + op)] + expr_pieces(x), numbered, k) == c@ + op + expr_text(x, numbered, k),
        marker_count(seq![Piece::Fixed(c@ + op)] + expr_pieces(x)) == expr_literals(x).len(),
    decreases x, 1nat,
{
    lemma_render_append(seq![Piece::Fixed(c@ + op)], expr_pieces(x), numbered, k);
    lemma_render_one(Piece::Fixed(c@ + op), numbered, k);
    lemma_expr_pieces(x, numbered, k);
}

proof fn lemma_wrapped_pieces(
    open: Seq<char>,
    a: Seq<Piece>,
    mid: Seq<char>,
    b: Seq<Piece>,
    close: Seq<char>,
    numbered: bool,
    k: nat,
)
    ensures
        render(seq![Piece::Fixed(open)] + a + seq![Piece::Fixed(mid)] + b + seq![Piece::Fixed(close)], numbered, k)
            == open + render(a, numbered, k) + mid + render(b, numbered, k + marker_count(a)) + close,
        marker_count(seq![Piece::Fixed(open)] + a + seq![Piece::Fixed(mid)] + b + seq![Piece::Fixed(close)])
            == marker_count(a) + marker_count(b),
{
    let head = seq![Piece::Fixed(open)];
    let middle = seq![Piece::Fixed(mid)];
    let tail = seq![Piece::Fixed(close)];
    lemma_render_one(Piece::Fixed(open), numbered, k);
    lemma_render_one(Piece::Fixed(mid), numbered, k + marker_count(a));
    lemma_render_one(Piece::Fixed(close), numbered, k + marker_count(a) + marker_count(b));
    lemma_render_append(head, a, numbered, k);
    lemma_render_append(head + a, middle, numbered, k);
    lemma_render_append(head + a + middle, b, numbered, k);
    lemma_render_append(head + a + middle + b, tail, numbered, k);
    assert(render(head + a + middle + b + tail, numbered, k) =~= open + render(a, numbered, k) + mid + render(
        b,
        numbered,
        k + marker_count(a),
    ) + close);
}

/// The text a condition compiles to is fixed text (column names,
/// operators, parentheses) with exactly one marker per literal: `n`
/// literals give `n` markers, numbered one after the other from the first
/// one free, left to right, while the parameters are those `n` literals in
/// the same order (see `sql_for_expr`). The i-th marker stands for the
/// i-th parameter.
pub proof fn lemma_placeholders_match_parameters(e: BoolExpr, numbered: bool, k: nat)
    ensures
        render(bool_pieces(e), numbered, k) == bool_text(e, numbered, k),
        marker_count(bool_pieces(e)) == literal_count(e),
        literal_count(e) == bool_literals(e).len(),
    decreases e, 0nat,
{
    match e {
        BoolExpr::True => lemma_render_one(Piece::Fixed("TRUE"@), numbered, k),
        BoolExpr::Eq(c, x) => lemma_comparison_pieces(c, " = "@, x, numbered, k),
        BoolExpr::Ne(c, x) => lemma_comparison_pieces(c, " <> "@, x, numbered, k),
        BoolExpr::Lt(c, x) => lemma_comparison_pieces(c, " < "@, x, numbered, k),
        BoolExpr::Gt(c, x) => lemma_comparison_pieces(c, " > "@, x, numbered, k),
        BoolExpr::Le(c, x) => lemma_comparison_pieces(c, " <= "@, x, numbered, k),
        BoolExpr::Ge(c, x) => lemma_comparison_pieces(c, " >= "@, x, numbered, k),
        BoolExpr::Like(c, x) => lemma_comparison_pieces(c, " LIKE "@, x, numbered, k),
        BoolExpr::And(a, b) => {
            lemma_placeholders_match_parameters(*a, numbered, k);
            lemma_placeholders_match_parameters(*b, numbered, k + literal_count(*a));
            lemma_wrapped_pieces("("@, bool_pieces(*a), ") AND ("@, bool_pieces(*b), ")"@, numbered, k);
        },
        BoolExpr::Or(a, b) => {
            lemma_placeholders_match_parameters(*a, numbered, k);
            lemma_placeholders_match_parameters(*b, numbered, k + literal_count(*a));
            lemma_wrapped_pieces("("@, bool_pieces(*a), ") OR ("@, bool_pieces(*b), ")"@, numbered, k);
        },
        BoolExpr::Not(a) => {
            lemma_placeholders_match_parameters(*a, numbered, k);
            let head = seq![Piece::Fixed("NOT ("@)];
            let tail = seq![Piece::Fixed(")"@)];
            lemma_render_one(Piece::Fixed("NOT ("@), numbered, k);
            lemma_render_one(Piece::Fixed(")"@), numbered, k + literal_count(*a));
            lemma_render_append(head, bool_pieces(*a), numbered, k);
            lemma_render_append(head + bool_pieces(*a), tail, numbered, k);
        },
    }
}

} // verus!
