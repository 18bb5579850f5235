//! Backend-independent query expressions.

use vstd::prelude::*;
use crate::types::{SqlVal, Value};

verus! {

/// The right-hand side of a comparison.
#[derive(Debug)]
pub enum Expr {
    Column(&'static str),
    Val(SqlVal),
    Condition(Box<BoolExpr>),
}

/// A boolean condition over the columns of a table.
#[derive(Debug)]
pub enum BoolExpr {
    True,
    Eq(&'static str, Expr),
    Ne(&'static str, Expr),
    Lt(&'static str, Expr),
    Gt(&'static str, Expr),
    Le(&'static str, Expr),
    Ge(&'static str, Expr),
    Like(&'static str, Expr),
    And(Box<BoolExpr>, Box<BoolExpr>),
    Or(Box<BoolExpr>, Box<BoolExpr>),
    Not(Box<BoolExpr>),
}

#[derive(Clone, Copy, Debug, PartialEq, Eq, Structural)]
pub enum OrderDirection {
    Ascending,
    Descending,
}

/// One sort key of a query; a list of them sorts by the first, then the next.
#[derive(Clone, Copy, Debug)]
pub struct Order {
    pub direction: OrderDirection,
    pub column: &'static str,
}

/// The literal values of an expression, left to right.
pub open spec fn expr_literals(x: Expr) -> Seq<Value>
    decreases x,
{
    match x {
        Expr::Column(_) => Seq::empty(),
        Expr::Val(v) => seq![v@],
        Expr::Condition(b) => bool_literals(*b),
    }
}

/// The literal values of a condition, left to right.
pub open spec fn bool_literals(e: BoolExpr) -> Seq<Value>
    decreases e,
{
    match e {
        BoolExpr::True => Seq::empty(),
        BoolExpr::Eq(_, x) => expr_literals(x),
        BoolExpr::Ne(_, x) => expr_literals(x),
        BoolExpr::Lt(_, x) => expr_literals(x),
        BoolExpr::Gt(_, x) => expr_literals(x),
        BoolExpr::Le(_, x) => expr_literals(x),
        BoolExpr::Ge(_, x) => expr_literals(x),
        BoolExpr::Like(_, x) => expr_literals(x),
        BoolExpr::And(a, b) => bool_literals(*a) + bool_literals(*b),
        BoolExpr::Or(a, b) => bool_literals(*a) + bool_literals(*b),
        BoolExpr::Not(a) => bool_literals(*a),
    }
}

/// The number of literal values in a condition.
pub open spec fn literal_count(e: BoolExpr) -> nat {
    bool_literals(e).len()
}

} // verus!
