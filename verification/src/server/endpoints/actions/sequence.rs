//! What the actions on sequences decide.

use vstd::prelude::*;
use crate::server::endpoints::actions::{check_key, ensure_unlocked};
use crate::server::errors::ServerError;
use crate::text::owned;
use crate::types::resource::{uuid_of_text, Uuid};

verus! {

/// The actions on sequences.
#[derive(Debug)]
pub struct SequenceActionHandler;

impl SequenceActionHandler {
    /// Admits the creation of a sequence that does not exist yet.
    pub fn create(exists: bool, name: &str) -> (r: Result<(), ServerError>)
        ensures
            r is Ok <==> !exists,
            r matches Err(e) ==> e matches ServerError::SequenceAlreadyExists(n) && n@ == name@,
    {
        if exists {
            Err(ServerError::SequenceAlreadyExists(owned(name)))
        } else {
            Ok(())
        }
    }

    /// Admits the deletion of a sequence that is not locked.
    pub fn delete(locked: bool) -> (r: Result<(), ServerError>)
        ensures
            r is Ok <==> !locked,
            r matches Err(e) ==> e is SequenceLocked,
    {
        ensure_unlocked(locked)
    }

    /// Admits the abort of a sequence: it must not be locked, and the key
    /// must be its identifier. The lock is looked at first.
    pub fn abort(locked: bool, uuid: Uuid, key: &str) -> (r: Result<(), ServerError>)
        ensures
            locked ==> (r matches Err(e) && e is SequenceLocked),
            !locked ==> match uuid_of_text(key@) {
                Some(bits) => if bits == uuid.bits {
                    r is Ok
                } else {
                    r matches Err(e) && e is BadKey
                },
                None => r matches Err(e) && e is InvalidKey,
            },
    {
        match ensure_unlocked(locked) {
            Ok(()) => check_key(uuid, key),
            Err(e) => Err(e),
        }
    }

    /// Admits the locking of a sequence: the key must be its identifier.
    pub fn finalize(uuid: Uuid, key: &str) -> (r: Result<(), ServerError>)
        ensures
            match uuid_of_text(key@) {
                Some(bits) => if bits == uuid.bits {
                    r is Ok
                } else {
                    r matches Err(e) && e is BadKey
                },
                None => r matches Err(e) && e is InvalidKey,
            },
    {
        check_key(uuid, key)
    }
}

} // verus!
