//! Errors of reading and writing chunks.

use vstd::prelude::*;
use vstd::string::StringExecFns;
use crate::text::owned;

verus! {

/// What can go wrong when a chunk is read or written.
#[derive(Debug)]
pub enum Error {
    /// The name of a serialization format that does not exist.
    UnkownFormat(String),
    /// A batch whose schema is not the one the writer was made for.
    SchemaMismatch,
    /// More rows than a chunk can count.
    TooManyRows,
}

impl Error {
    /// The message of the error.
    pub open spec fn message(&self) -> Seq<char> {
        match *self {
            Error::UnkownFormat(name) => "unknown format `"@ + name@ + "`"@,
            Error::SchemaMismatch => "schema mismatch"@,
            Error::TooManyRows => "too many rows"@,
        }
    }

    /// The message of the error.
    pub fn to_string(&self) -> (r: String)
        ensures
            r@ == self.message(),
    {
        match self {
            Error::UnkownFormat(name) => owned("unknown format `").concat(name.as_str()).concat(
                "`",
            ),
            Error::SchemaMismatch => owned("schema mismatch"),
            Error::TooManyRows => owned("too many rows"),
        }
    }
}

} // verus!
