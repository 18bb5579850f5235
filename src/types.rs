//! Scalar SQL types and the values exchanged with a backend.

use vstd::prelude::*;

verus! {

/// The closed set of column types.
#[derive(Clone, Copy, Debug, PartialEq, Eq, Structural)]
pub enum SqlType {
    Bool,
    /// 32-bit signed integer.
    Int,
    /// 64-bit signed integer.
    BigInt,
    /// Double precision floating point.
    Real,
    Text,
    Blob,
    Timestamp,
}

/// An owned column value. A `Real` holds the IEEE-754 bit pattern of its
/// double, a `Timestamp` the microseconds since 1970-01-01T00:00:00.
#[derive(Debug)]
pub enum SqlVal {
    Null,
    Bool(bool),
    Int(i32),
    BigInt(i64),
    Real(u64),
    Text(String),
    Blob(Vec<u8>),
    Timestamp(i64),
}

/// The mathematical value of a `SqlVal`.
pub enum Value {
    Null,
    Bool(bool),
    Int(i32),
    BigInt(i64),
    Real(u64),
    Text(Seq<char>),
    Blob(Seq<u8>),
    Timestamp(i64),
}

impl View for SqlVal {
    type V = Value;

    open spec fn view(&self) -> Value {
        match self {
            SqlVal::Null => Value::Null,
            SqlVal::Bool(b) => Value::Bool(*b),
            SqlVal::Int(i) => Value::Int(*i),
            SqlVal::BigInt(i) => Value::BigInt(*i),
            SqlVal::Real(r) => Value::Real(*r),
            SqlVal::Text(t) => Value::Text(t@),
            SqlVal::Blob(b) => Value::Blob(b@),
            SqlVal::Timestamp(t) => Value::Timestamp(*t),
        }
    }
}

/// Whether a value of tag `v` may be stored in a column of type `ty`;
/// `Null` fits every type when `null_ok` holds.
pub open spec fn value_fits(v: Value, ty: SqlType, null_ok: bool) -> bool {
    match v {
        Value::Null => null_ok,
        Value::Bool(_) => ty == SqlType::Bool,
        Value::Int(_) => ty == SqlType::Int,
        Value::BigInt(_) => ty == SqlType::BigInt,
        Value::Real(_) => ty == SqlType::Real,
        Value::Text(_) => ty == SqlType::Text,
        Value::Blob(_) => ty == SqlType::Blob,
        Value::Timestamp(_) => ty == SqlType::Timestamp,
    }
}

impl SqlVal {
    /// A copy of the value.
    pub fn duplicate(&self) -> (r: SqlVal)
        ensures
            r@ == self@,
    {
        match self {
            SqlVal::Null => SqlVal::Null,
            SqlVal::Bool(b) => SqlVal::Bool(*b),
            SqlVal::Int(i) => SqlVal::Int(*i),
            SqlVal::BigInt(i) => SqlVal::BigInt(*i),
            SqlVal::Real(r) => SqlVal::Real(*r),
            SqlVal::Text(t) => SqlVal::Text(t.clone()),
            SqlVal::Blob(b) => SqlVal::Blob(b.clone()),
            SqlVal::Timestamp(t) => SqlVal::Timestamp(*t),
        }
    }

    /// Whether the value may be stored in a column of type `ty`.
    pub fn is_compatible(&self, ty: SqlType, null_ok: bool) -> (r: bool)
        ensures
            r == value_fits(self@, ty, null_ok),
    {
        match self {
            SqlVal::Null => null_ok,
            SqlVal::Bool(_) => ty == SqlType::Bool,
            SqlVal::Int(_) => ty == SqlType::Int,
            SqlVal::BigInt(_) => ty == SqlType::BigInt,
            SqlVal::Real(_) => ty == SqlType::Real,
            SqlVal::Text(_) => ty == SqlType::Text,
            SqlVal::Blob(_) => ty == SqlType::Blob,
            SqlVal::Timestamp(_) => ty == SqlType::Timestamp,
        }
    }
}

} // verus!

verus! {

/// The models of a sequence of values.
pub open spec fn value_views(v: Seq<SqlVal>) -> Seq<Value> {
    v.map_values(|x: SqlVal| x@)
}

} // verus!

verus! {

/// A borrowed column value: text and bytes are not copied.
#[derive(Clone, Copy, Debug)]
pub enum SqlValRef<'a> {
    Null,
    Bool(bool),
    Int(i32),
    BigInt(i64),
    Real(u64),
    Text(&'a str),
    Blob(&'a [u8]),
    Timestamp(i64),
}

impl<'a> View for SqlValRef<'a> {
    type V = Value;

    open spec fn view(&self) -> Value {
        match self {
            SqlValRef::Null => Value::Null,
            SqlValRef::Bool(b) => Value::Bool(*b),
            SqlValRef::Int(i) => Value::Int(*i),
            SqlValRef::BigInt(i) => Value::BigInt(*i),
            SqlValRef::Real(r) => Value::Real(*r),
            SqlValRef::Text(t) => Value::Text(t@),
            SqlValRef::Blob(b) => Value::Blob(b@),
            SqlValRef::Timestamp(t) => Value::Timestamp(*t),
        }
    }
}

impl<'a> SqlValRef<'a> {
    /// An owned copy of the value.
    pub fn into_owned(&self) -> (r: SqlVal)
        ensures
            r@ == self@,
    {
        match self {
            SqlValRef::Null => SqlVal::Null,
            SqlValRef::Bool(b) => SqlVal::Bool(*b),
            SqlValRef::Int(i) => SqlVal::Int(*i),
            SqlValRef::BigInt(i) => SqlVal::BigInt(*i),
            SqlValRef::Real(r) => SqlVal::Real(*r),
            SqlValRef::Text(t) => SqlVal::Text(String::from_str(t)),
            SqlValRef::Blob(b) => {
                let v = vstd::slice::slice_to_vec(b);
                SqlVal::Blob(v)
            },
            SqlValRef::Timestamp(t) => SqlVal::Timestamp(*t),
        }
    }
}

impl SqlVal {
    /// A borrowed view of the value.
    pub fn as_ref(&self) -> (r: SqlValRef<'_>)
        ensures
            r@ == self@,
    {
        match self {
            SqlVal::Null => SqlValRef::Null,
            SqlVal::Bool(b) => SqlValRef::Bool(*b),
            SqlVal::Int(i) => SqlValRef::Int(*i),
            SqlVal::BigInt(i) => SqlValRef::BigInt(*i),
            SqlVal::Real(r) => SqlValRef::Real(*r),
            SqlVal::Text(t) => SqlValRef::Text(t.as_str()),
            SqlVal::Blob(b) => SqlValRef::Blob(b.as_slice()),
            SqlVal::Timestamp(t) => SqlValRef::Timestamp(*t),
        }
    }

    /// The value of an `Int` or a `BigInt`.
    pub fn integer(&self) -> (r: crate::error::Result<i64>)
        ensures
            match self@ {
                Value::Int(i) => r == Ok::<i64, crate::error::Error>(i as i64),
                Value::BigInt(i) => r == Ok::<i64, crate::error::Error>(i),
                _ => r matches Err(crate::error::Error::CannotConvertSqlVal(SqlType::BigInt)),
            },
    {
        match self {
            SqlVal::Int(i) => Ok(*i as i64),
            SqlVal::BigInt(i) => Ok(*i),
            _ => Err(crate::error::Error::CannotConvertSqlVal(SqlType::BigInt)),
        }
    }

    /// The value of a `Bool`.
    pub fn bool(&self) -> (r: crate::error::Result<bool>)
        ensures
            match self@ {
                Value::Bool(b) => r == Ok::<bool, crate::error::Error>(b),
                _ => r matches Err(crate::error::Error::CannotConvertSqlVal(SqlType::Bool)),
            },
    {
        match self {
            SqlVal::Bool(b) => Ok(*b),
            _ => Err(crate::error::Error::CannotConvertSqlVal(SqlType::Bool)),
        }
    }

    /// The bits of a `Real`.
    pub fn real_bits(&self) -> (r: crate::error::Result<u64>)
        ensures
            match self@ {
                Value::Real(b) => r == Ok::<u64, crate::error::Error>(b),
                _ => r matches Err(crate::error::Error::CannotConvertSqlVal(SqlType::Real)),
            },
    {
        match self {
            SqlVal::Real(b) => Ok(*b),
            _ => Err(crate::error::Error::CannotConvertSqlVal(SqlType::Real)),
        }
    }
}

} // verus!
