//! What the actions on topics decide.

use vstd::prelude::*;
use crate::repo::facades::facade_error::FacadeError;
use crate::server::endpoints::actions::{ensure_unlocked, read_key};
use crate::server::errors::ServerError;
use crate::text::owned;
use crate::types::resource::{
    is_under, uuid_of_text, SequenceResourceLocator, TopicResourceLocator, Uuid,
};

verus! {

/// The actions on topics.
#[derive(Debug)]
pub struct TopicActionHandler;

impl TopicActionHandler {
    /// Admits the creation of a topic that does not exist yet, and reads
    /// the key of the sequence that it is to belong to.
    pub fn create(exists: bool, name: &str, sequence_key: &str) -> (r: Result<Uuid, ServerError>)
        ensures
            exists ==> (match r {
                Err(ServerError::TopicAlreadyExists(n)) => n@ == name@,
                _ => false,
            }),
            !exists ==> match r {
                Ok(id) => uuid_of_text(sequence_key@) == Some(id.bits),
                Err(e) => uuid_of_text(sequence_key@) is None && e is InvalidKey,
            },
    {
        if exists {
            return Err(ServerError::TopicAlreadyExists(owned(name)));
        }
        read_key(sequence_key)
    }

    /// Admits the deletion of a topic that is not locked.
    pub fn delete(locked: bool) -> (r: Result<(), ServerError>)
        ensures
            r is Ok <==> !locked,
            r matches Err(e) ==> e is SequenceLocked,
    {
        ensure_unlocked(locked)
    }

    /// Admits a topic into a sequence: the topic must lie under the
    /// sequence, and the sequence must not be locked. The place is looked at
    /// first.
    pub fn authorize(
        topic: &TopicResourceLocator,
        sequence: &SequenceResourceLocator,
        sequence_locked: bool,
    ) -> (r: Result<(), FacadeError>)
        ensures
            r is Ok <==> is_under(topic.name@, sequence.name@) && !sequence_locked,
            !is_under(topic.name@, sequence.name@) ==> (r matches Err(e) && e is Unauthorized),
            is_under(topic.name@, sequence.name@) && sequence_locked ==> (r matches Err(e) && e
                is SequenceLocked),
    {
        if !topic.is_child_of(sequence) {
            Err(FacadeError::Unauthorized)
        } else if sequence_locked {
            Err(FacadeError::SequenceLocked)
        } else {
            Ok(())
        }
    }
}

} // verus!
