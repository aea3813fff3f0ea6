//! Errors of the operations on the catalog and the store.

use vstd::prelude::*;
use vstd::string::StringExecFns;
use crate::text::owned;

verus! {

/// What an operation on the catalog and the store can fail with.
#[derive(Debug)]
pub enum FacadeError {
    NotFound(String),
    MissingMetadataField(String),
    ReadError { src: String, msg: String },
    WriteError { dst: String, msg: String },
    /// An error of the object store, by its message.
    StoreError(String),
    DataSerializationError(crate::rw::error::Error),
    /// An error of the metadata, by its message.
    MetadataError(String),
    /// An error of the catalog, by its message.
    RepositoryError(String),
    SequenceLocked,
    ConcurrencyError(String),
    QueryError(crate::query::error::Error),
    TopicLocked,
    TopicUnlocked,
    Unimplemented,
    Unauthorized,
    /// A topic with data and without a serialization format.
    MissingSerializationFormat(String),
}

impl FacadeError {
    /// The message of the error.
    pub open spec fn message(&self) -> Seq<char> {
        match *self {
            FacadeError::NotFound(what) => "unable to find data: "@ + what@,
            FacadeError::MissingMetadataField(field) => "missing metadata field `"@ + field@ + "`"@,
            FacadeError::ReadError { src, msg } => "error reading "@ + src@ + ": "@ + msg@,
            FacadeError::WriteError { dst, msg } => "error writing to "@ + dst@ + " data: "@ + msg@,
            FacadeError::StoreError(msg) => "store error :: "@ + msg@,
            FacadeError::DataSerializationError(e) => "data serialization error :: "@ + e.message(),
            FacadeError::MetadataError(msg) => "metadata error :: "@ + msg@,
            FacadeError::RepositoryError(msg) => "repository error :: "@ + msg@,
            FacadeError::SequenceLocked => "sequence locked, unable to perform modifications"@,
            FacadeError::ConcurrencyError(msg) => "concurrecy error :: "@ + msg@,
            FacadeError::QueryError(e) => "query error :: "@ + e.message(),
            FacadeError::TopicLocked => "topic locked, unable to perform modifications"@,
            FacadeError::TopicUnlocked =>
                "topic unlocked, unable to perform the requested operation over an unlocked topic"@,
            FacadeError::Unimplemented => "unimplemented"@,
            FacadeError::Unauthorized => "unauthorized"@,
            FacadeError::MissingSerializationFormat(topic) => "missing serialization format for topic `"@
                + topic@ + "`"@,
        }
    }

    /// The message of the error.
    pub fn to_string(&self) -> (r: String)
        ensures
            r@ == self.message(),
    {
        match self {
            FacadeError::NotFound(what) => owned("unable to find data: ").concat(what.as_str()),
            FacadeError::MissingMetadataField(field) => owned("missing metadata field `").concat(
                field.as_str(),
            ).concat("`"),
            FacadeError::ReadError { src, msg } => owned("error reading ").concat(
                src.as_str(),
            ).concat(": ").concat(msg.as_str()),
            FacadeError::WriteError { dst, msg } => owned("error writing to ").concat(
                dst.as_str(),
            ).concat(" data: ").concat(msg.as_str()),
            FacadeError::StoreError(msg) => owned("store error :: ").concat(msg.as_str()),
            FacadeError::DataSerializationError(e) => owned(
                "data serialization error :: ",
            ).concat(e.to_string().as_str()),
            FacadeError::MetadataError(msg) => owned("metadata error :: ").concat(msg.as_str()),
            FacadeError::RepositoryError(msg) => owned("repository error :: ").concat(
                msg.as_str(),
            ),
            FacadeError::SequenceLocked => owned(
                "sequence locked, unable to perform modifications",
            ),
            FacadeError::ConcurrencyError(msg) => owned("concurrecy error :: ").concat(
                msg.as_str(),
            ),
            FacadeError::QueryError(e) => owned("query error :: ").concat(
                e.to_string().as_str(),
            ),
            FacadeError::TopicLocked => owned("topic locked, unable to perform modifications"),
            FacadeError::TopicUnlocked => owned(
                "topic unlocked, unable to perform the requested operation over an unlocked topic",
            ),
            FacadeError::Unimplemented => owned("unimplemented"),
            FacadeError::Unauthorized => owned("unauthorized"),
            FacadeError::MissingSerializationFormat(topic) => owned(
                "missing serialization format for topic `",
            ).concat(topic.as_str()).concat("`"),
        }
    }
}

impl From<crate::rw::error::Error> for FacadeError {
    fn from(e: crate::rw::error::Error) -> (r: FacadeError) {
        FacadeError::DataSerializationError(e)
    }
}

impl vstd::std_specs::convert::FromSpecImpl<crate::rw::error::Error> for FacadeError {
    open spec fn obeys_from_spec() -> bool {
        true
    }

    open spec fn from_spec(e: crate::rw::error::Error) -> FacadeError {
        FacadeError::DataSerializationError(e)
    }
}

impl From<crate::query::error::Error> for FacadeError {
    fn from(e: crate::query::error::Error) -> (r: FacadeError) {
        FacadeError::QueryError(e)
    }
}

impl vstd::std_specs::convert::FromSpecImpl<crate::query::error::Error> for FacadeError {
    open spec fn obeys_from_spec() -> bool {
        true
    }

    open spec fn from_spec(e: crate::query::error::Error) -> FacadeError {
        FacadeError::QueryError(e)
    }
}

} // verus!
