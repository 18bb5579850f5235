//! Errors returned by the library.

use vstd::prelude::*;
use crate::types::SqlType;

verus! {

/// Every failure the library reports.
#[derive(Debug)]
pub enum Error {
    /// A connection names a backend that is not known.
    UnknownBackend(String),
    /// The connection was closed.
    ConnectionClosed,
    /// A value read back does not fit the type requested for its column.
    SqlResultTypeMismatch { col: String, detail: String },
    /// Auto-increment was asked for on a column that is not an integer.
    InvalidAuto(String),
    /// A row or column index is out of range.
    BoundsError,
    /// The object looked for does not exist.
    NoSuchObject,
    /// A handle was used after it had been consumed.
    Internal,
    /// A column's type refers to a type that is never defined.
    UnresolvedType(String),
    /// A value was read as a type it does not hold.
    CannotConvertSqlVal(SqlType),
    /// An error reported by the database driver.
    Backend(String),
}

pub type Result<T> = core::result::Result<T, Error>;

/// The mathematical value of an `Error`.
pub enum ErrorModel {
    UnknownBackend(Seq<char>),
    ConnectionClosed,
    SqlResultTypeMismatch { col: Seq<char>, detail: Seq<char> },
    InvalidAuto(Seq<char>),
    BoundsError,
    NoSuchObject,
    Internal,
    UnresolvedType(Seq<char>),
    CannotConvertSqlVal(SqlType),
    Backend(Seq<char>),
}

impl View for Error {
    type V = ErrorModel;

    open spec fn view(&self) -> ErrorModel {
        match self {
            Error::UnknownBackend(s) => ErrorModel::UnknownBackend(s@),
            Error::ConnectionClosed => ErrorModel::ConnectionClosed,
            Error::SqlResultTypeMismatch { col, detail } => ErrorModel::SqlResultTypeMismatch {
                col: col@,
                detail: detail@,
            },
            Error::InvalidAuto(s) => ErrorModel::InvalidAuto(s@),
            Error::BoundsError => ErrorModel::BoundsError,
            Error::NoSuchObject => ErrorModel::NoSuchObject,
            Error::Internal => ErrorModel::Internal,
            Error::UnresolvedType(s) => ErrorModel::UnresolvedType(s@),
            Error::CannotConvertSqlVal(t) => ErrorModel::CannotConvertSqlVal(*t),
            Error::Backend(s) => ErrorModel::Backend(s@),
        }
    }
}

/// A text, or the error in place of it.
pub type TextOutcome = core::result::Result<Seq<char>, ErrorModel>;

/// `r` is the text or the error that `expected` gives.
pub open spec fn text_result(r: Result<String>, expected: TextOutcome) -> bool {
    match expected {
        Ok(t) => r matches Ok(s) && s@ == t,
        Err(e) => r matches Err(x) && x@ == e,
    }
}

} // verus!
