//! The column handle and the uniform set of operations a connection offers.

use vstd::prelude::*;
use crate::db::Row;
use crate::error::{Error, ErrorModel, Result};
use crate::query::{BoolExpr, Expr, Order};
use crate::types::{value_fits, SqlType, SqlVal, SqlValRef, Value};

verus! {

/// A column of a table as queries name it.
#[derive(Clone, Copy, Debug)]
pub struct Column {
    pub name: &'static str,
    pub ty: SqlType,
}

impl Column {
    pub fn new(name: &'static str, ty: SqlType) -> (r: Column)
        ensures
            r.name == name,
            r.ty == ty,
    {
        Column { name, ty }
    }

    pub fn name(&self) -> (r: &'static str)
        ensures
            r == self.name,
    {
        self.name
    }

    pub fn ty(&self) -> (r: SqlType)
        ensures
            r == self.ty,
    {
        self.ty
    }
}

/// The operations of a connection, and of a transaction on it. Values
/// travel as parameters, never as SQL text.
pub trait ConnectionMethods {
    /// Runs SQL as it is.
    fn execute(&self, sql: &str) -> Result<()>;

    /// The rows of `table` that match `expr`, with the given columns, sort
    /// keys, limit and offset.
    fn query(
        &self,
        table: &str,
        columns: &[Column],
        expr: Option<&BoolExpr>,
        limit: Option<i32>,
        offset: Option<i32>,
        sort: Option<&[Order]>,
    ) -> Result<Vec<Row>>;

    /// Inserts a row and returns its primary key.
    fn insert_returning_pk(
        &self,
        table: &str,
        columns: &[Column],
        pkcol: &Column,
        values: &[SqlValRef<'_>],
    ) -> Result<SqlVal>;

    /// Like `insert_returning_pk` but with no return value.
    fn insert_only(&self, table: &str, columns: &[Column], values: &[SqlValRef<'_>]) -> Result<()>;

    /// Inserts unless there is a conflict on the primary key column, in
    /// which case the row that is there is updated.
    fn insert_or_replace(
        &self,
        table: &str,
        columns: &[Column],
        pkcol: &Column,
        values: &[SqlValRef<'_>],
    ) -> Result<()>;

    /// Sets `columns` to `values` in the row whose key is `pk`.
    fn update(
        &self,
        table: &str,
        pkcol: Column,
        pk: SqlValRef<'_>,
        columns: &[Column],
        values: &[SqlValRef<'_>],
    ) -> Result<()>;

    /// Deletes the row whose key is `pk`.
    fn delete(&self, table: &str, pkcol: &'static str, pk: SqlVal) -> Result<()> {
        match self.delete_where(table, BoolExpr::Eq(pkcol, Expr::Val(pk))) {
            Ok(_) => Ok(()),
            Err(e) => Err(e),
        }
    }

    /// Deletes the rows that match `expr`, and says how many.
    fn delete_where(&self, table: &str, expr: BoolExpr) -> Result<usize>;

    /// Whether the database has a table of this name.
    fn has_table(&self, table: &str) -> Result<bool>;
}

/// A live connection to a database of one backend.
pub trait BackendConnection: ConnectionMethods {
    fn backend_name(&self) -> &'static str;

    /// Whether the connection is closed; a closed connection fails every
    /// operation.
    fn is_closed(&self) -> bool;
}

/// A type that hands out the connection methods of what it wraps.
pub trait ConnectionMethodWrapper {
    type Wrapped: ConnectionMethods;

    fn wrapped_connection_methods(&self) -> Result<&Self::Wrapped>;
}

/// A row as a backend returns it.
pub trait BackendRow {
    /// The row's values, in column order.
    spec fn row_values(&self) -> Seq<Value>;

    /// The value at `idx`, which must fit `ty`: `BoundsError` past the end,
    /// `CannotConvertSqlVal` for a value of another type.
    fn get(&self, idx: usize, ty: SqlType) -> (r: Result<SqlValRef<'_>>)
        ensures
            idx >= self.row_values().len() ==> (r matches Err(x) && x@ == ErrorModel::BoundsError),
            idx < self.row_values().len() && value_fits(self.row_values()[idx as int], ty, true) ==> (r matches Ok(
                v,
            ) && v@ == self.row_values()[idx as int]),
            idx < self.row_values().len() && !value_fits(self.row_values()[idx as int], ty, true) ==> (r matches Err(
                x,
            ) && x@ == ErrorModel::CannotConvertSqlVal(ty)),
    ;

    fn len(&self) -> (r: usize)
        ensures
            r == self.row_values().len(),
    ;

    fn is_empty(&self) -> (r: bool)
        ensures
            r == (self.row_values().len() == 0),
    {
        self.len() == 0
    }
}

impl BackendRow for Row {
    open spec fn row_values(&self) -> Seq<Value> {
        self@
    }

    fn get(&self, idx: usize, ty: SqlType) -> Result<SqlValRef<'_>> {
        match Row::get(self, idx) {
            Ok(v) => if v.is_compatible(ty, true) {
                Ok(v.as_ref())
            } else {
                Err(Error::CannotConvertSqlVal(ty))
            },
            Err(e) => Err(e),
        }
    }

    fn len(&self) -> usize {
        Row::len(self)
    }
}

/// Rows held in memory, handed out one at a time.
#[derive(Debug)]
pub struct VecRows<T> {
    rows: Vec<T>,
    idx: usize,
}

impl<T> VecRows<T> {
    pub closed spec fn spec_rows(&self) -> Seq<T> {
        self.rows@
    }

    /// How many rows `next` has handed out.
    pub closed spec fn spec_taken(&self) -> nat {
        self.idx as nat
    }

    #[verifier::type_invariant]
    spec fn wf(&self) -> bool {
        self.idx <= self.rows@.len()
    }

    pub fn new(rows: Vec<T>) -> (r: VecRows<T>)
        ensures
            r.spec_rows() == rows@,
            r.spec_taken() == 0,
    {
        VecRows { rows, idx: 0 }
    }

    /// Advances to the next row and returns it; `None` once all are out.
    pub fn next(&mut self) -> (r: Option<&T>)
        ensures
            final(self).spec_taken() <= final(self).spec_rows().len(),
            final(self).spec_rows() == old(self).spec_rows(),
            old(self).spec_taken() < old(self).spec_rows().len() ==> final(self).spec_taken()
                == old(self).spec_taken() + 1 && r == Some(&old(self).spec_rows()[old(self).spec_taken() as int]),
            old(self).spec_taken() == old(self).spec_rows().len() ==> final(self).spec_taken()
                == old(self).spec_taken() && r is None,
    {
        proof {
            use_type_invariant(&*self);
        }
        if self.idx < self.rows.len() {
            let i = self.idx;
            self.idx = self.idx + 1;
            Some(&self.rows[i])
        } else {
            None
        }
    }

    /// The row that `next` returned last.
    pub fn current(&self) -> (r: Option<&T>)
        ensures
            self.spec_taken() > 0 ==> r == Some(&self.spec_rows()[self.spec_taken() - 1]),
            self.spec_taken() == 0 ==> r is None,
    {
        proof {
            use_type_invariant(self);
        }
        if self.idx > 0 {
            Some(&self.rows[self.idx - 1])
        } else {
            None
        }
    }
}

/// Rows of a result, handed out one at a time, forward only.
pub trait BackendRows {
    type Row: BackendRow;

    /// Advances to the next row and returns it.
    fn next(&mut self) -> Result<Option<&Self::Row>>;

    /// The row that `next` returned last.
    fn current(&self) -> Option<&Self::Row>;
}

impl<T: BackendRow> BackendRows for VecRows<T> {
    type Row = T;

    fn next(&mut self) -> Result<Option<&T>> {
        Ok(VecRows::next(self))
    }

    fn current(&self) -> Option<&T> {
        VecRows::current(self)
    }
}

/// Whether a transaction has ended. A transaction ends once, by commit or
/// by rollback; one that is dropped before it ends is rolled back.
#[derive(Debug)]
pub struct TransactionState {
    finished: bool,
}

impl TransactionState {
    pub closed spec fn is_finished(&self) -> bool {
        self.finished
    }

    /// A transaction that has just begun.
    pub fn begin() -> (r: TransactionState)
        ensures
            !r.is_finished(),
    {
        TransactionState { finished: false }
    }

    /// Ends the transaction, for a commit or a rollback; a transaction
    /// that has already ended is an `Internal` error.
    pub fn finish(&mut self) -> (r: Result<()>)
        ensures
            final(self).is_finished(),
            !old(self).is_finished() ==> r is Ok,
            old(self).is_finished() ==> r matches Err(Error::Internal),
    {
        if self.finished {
            Err(Error::Internal)
        } else {
            self.finished = true;
            Ok(())
        }
    }

    /// Whether dropping the transaction now must roll it back: exactly
    /// when it has not ended.
    pub fn rollback_on_drop(&self) -> (r: bool)
        ensures
            r == !self.is_finished(),
    {
        !self.finished
    }
}

} // verus!
