//! Errors that the server answers a request with.

use vstd::prelude::*;
use vstd::string::StringExecFns;
use crate::repo::facades::facade_error::FacadeError;
use crate::text::owned;

verus! {

/// What a request can fail with.
#[derive(Debug)]
pub enum ServerError {
    SequenceAlreadyExists(String),
    TopicAlreadyExists(String),
    SequenceLocked,
    /// The key of a request is not the identifier of the resource.
    BadKey,
    /// The key of a request spells no identifier; with the reason.
    InvalidKey(String),
    /// A ticket that is not text; with the reason.
    BadTicket(String),
    UnsupportedDescriptor,
    Facade(FacadeError),
}

impl ServerError {
    /// The message of the error.
    pub open spec fn message(&self) -> Seq<char> {
        match *self {
            ServerError::SequenceAlreadyExists(name) => "sequence `"@ + name@ + "` already exists"@,
            ServerError::TopicAlreadyExists(name) => "topic `"@ + name@ + "` already exists"@,
            ServerError::SequenceLocked => "sequence locked"@,
            ServerError::BadKey => "bad key"@,
            ServerError::InvalidKey(reason) => "invalid key: "@ + reason@,
            ServerError::BadTicket(reason) => "bad ticket: "@ + reason@,
            ServerError::UnsupportedDescriptor => "unsupported descriptor"@,
            ServerError::Facade(e) => e.message(),
        }
    }

    /// The message of the error.
    pub fn to_string(&self) -> (r: String)
        ensures
            r@ == self.message(),
    {
        match self {
            ServerError::SequenceAlreadyExists(name) => owned("sequence `").concat(
                name.as_str(),
            ).concat("` already exists"),
            ServerError::TopicAlreadyExists(name) => owned("topic `").concat(
                name.as_str(),
            ).concat("` already exists"),
            ServerError::SequenceLocked => owned("sequence locked"),
            ServerError::BadKey => owned("bad key"),
            ServerError::InvalidKey(reason) => owned("invalid key: ").concat(reason.as_str()),
            ServerError::BadTicket(reason) => owned("bad ticket: ").concat(reason.as_str()),
            ServerError::UnsupportedDescriptor => owned("unsupported descriptor"),
            ServerError::Facade(e) => e.to_string(),
        }
    }
}

impl From<FacadeError> for ServerError {
    fn from(e: FacadeError) -> (r: ServerError) {
        ServerError::Facade(e)
    }
}

impl vstd::std_specs::convert::FromSpecImpl<FacadeError> for ServerError {
    open spec fn obeys_from_spec() -> bool {
        true
    }

    open spec fn from_spec(e: FacadeError) -> ServerError {
        ServerError::Facade(e)
    }
}

} // verus!
