//! What the actions decide.
//!
//! An action reads what it needs from the catalog, decides whether it may
//! go on, and acts. The reading and the acting are the caller's; the
//! deciding is here, one handler for each kind of resource.

use vstd::prelude::*;
use crate::server::errors::ServerError;
use crate::types::resource::{uuid_of_text, Uuid};

pub mod query;
pub mod sequence;
pub mod topic;

verus! {

/// What every action works with: the store, the catalog and the
/// time-series engine.
#[derive(Debug)]
pub struct ActionContext<S, R, E> {
    pub store: S,
    pub repo: R,
    pub ts_engine: E,
}

impl<S, R, E> ActionContext<S, R, E> {
    /// The context of the three handles.
    pub fn new(store: S, repo: R, ts_engine: E) -> (r: ActionContext<S, R, E>)
        ensures
            r.store == store,
            r.repo == repo,
            r.ts_engine == ts_engine,
    {
        ActionContext { store, repo, ts_engine }
    }
}

/// Whether the key that was received is the identifier of the resource.
pub fn key_matches(expected: Uuid, received: Uuid) -> (r: Result<(), ServerError>)
    ensures
        r is Ok <==> expected == received,
        r matches Err(e) ==> e is BadKey,
{
    if expected.as_u128() == received.as_u128() {
        Ok(())
    } else {
        Err(ServerError::BadKey)
    }
}

/// The identifier that a key spells.
pub fn read_key(key: &str) -> (r: Result<Uuid, ServerError>)
    ensures
        match r {
            Ok(id) => uuid_of_text(key@) == Some(id.bits),
            Err(e) => uuid_of_text(key@) is None && e is InvalidKey,
        },
{
    match Uuid::parse_str(key) {
        Ok(id) => Ok(id),
        Err(reason) => Err(ServerError::InvalidKey(reason)),
    }
}

/// Checks the key of a request against the identifier of the resource: a
/// key that spells no identifier is invalid, one that spells another is
/// bad.
pub fn check_key(expected: Uuid, key: &str) -> (r: Result<(), ServerError>)
    ensures
        match uuid_of_text(key@) {
            Some(bits) => if bits == expected.bits {
                r is Ok
            } else {
                r matches Err(e) && e is BadKey
            },
            None => r matches Err(e) && e is InvalidKey,
        },
{
    match read_key(key) {
        Ok(received) => key_matches(expected, received),
        Err(e) => Err(e),
    }
}

/// Refuses to change a locked sequence.
pub fn ensure_unlocked(locked: bool) -> (r: Result<(), ServerError>)
    ensures
        r is Ok <==> !locked,
        r matches Err(e) ==> e is SequenceLocked,
{
    if locked {
        Err(ServerError::SequenceLocked)
    } else {
        Ok(())
    }
}

} // verus!
