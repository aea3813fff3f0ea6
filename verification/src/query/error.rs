//! Errors of the query layer.

use vstd::prelude::*;
use vstd::string::StringExecFns;
use crate::text::owned;

verus! {

/// What can go wrong when an operator is built or applied.
#[derive(Debug, Clone, Copy, PartialEq, Eq, Structural)]
pub enum OpError {
    /// A field expects one type and received another.
    WrongType,
    /// The operand does not support the operator.
    UnsupportedOperation,
    /// A range whose lower bound is not below or equal to its upper bound.
    EmptyRange,
}

impl OpError {
    /// The message of the error.
    pub open spec fn message(&self) -> Seq<char> {
        match *self {
            OpError::WrongType => "wrong type"@,
            OpError::UnsupportedOperation => "unsupported operation"@,
            OpError::EmptyRange => "empty range"@,
        }
    }

    /// The message of the error.
    pub fn to_string(&self) -> (r: String)
        ensures
            r@ == self.message(),
    {
        match self {
            OpError::WrongType => owned("wrong type"),
            OpError::UnsupportedOperation => owned("unsupported operation"),
            OpError::EmptyRange => owned("empty range"),
        }
    }
}

/// Errors raised while a filter is read or compiled.
#[derive(Debug)]
pub enum Error {
    /// A malformed ontology field path.
    BadField { field: String },
    /// An operator that cannot be applied.
    OpError(OpError),
}

impl Error {
    /// The message of the error.
    pub open spec fn message(&self) -> Seq<char> {
        match *self {
            Error::BadField { field } => "bad field `"@ + field@ + "`"@,
            Error::OpError(e) => e.message(),
        }
    }

    /// The message of the error.
    pub fn to_string(&self) -> (r: String)
        ensures
            r@ == self.message(),
    {
        match self {
            Error::BadField { field } => {
                owned("bad field `").concat(field.as_str()).concat("`")
            },
            Error::OpError(e) => e.to_string(),
        }
    }
}

impl From<OpError> for Error {
    fn from(e: OpError) -> (r: Error) {
        Error::OpError(e)
    }
}

impl vstd::std_specs::convert::FromSpecImpl<OpError> for Error {
    open spec fn obeys_from_spec() -> bool {
        true
    }

    open spec fn from_spec(e: OpError) -> Error {
        Error::OpError(e)
    }
}

} // verus!
