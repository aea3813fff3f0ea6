//! The record of a topic.

use vstd::prelude::*;
use crate::repo::sql_models::records::UNREGISTERED;
use crate::rw::error::Error;
use crate::rw::format::{format_named, Format};
use crate::text::owned;
use crate::types::resource::{ResourceId, Uuid};
use crate::types::timestamp::Timestamp;

verus! {

/// A topic as the catalog stores it.
#[derive(Debug, Clone)]
pub struct TopicRecord {
    pub topic_id: i32,
    pub topic_uuid: Uuid,
    pub locator_name: String,
    pub sequence_id: i32,
    pub ontology_tag: Option<String>,
    pub locked: bool,
    pub serialization_format: Option<String>,
    /// The user metadata as JSON text. It is kept for the queries of the
    /// catalog and is not handed out.
    pub user_metadata: Option<String>,
    /// The time of creation, in milliseconds since the Unix epoch.
    pub creation_unix_tstamp: i64,
}

/// The text of an optional string.
pub open spec fn text_of(s: Option<String>) -> Option<Seq<char>> {
    match s {
        Some(t) => Some(t@),
        None => None,
    }
}

impl From<TopicRecord> for ResourceId {
    fn from(value: TopicRecord) -> (r: ResourceId) {
        ResourceId { id: value.topic_id, uuid: value.topic_uuid }
    }
}

impl vstd::std_specs::convert::FromSpecImpl<TopicRecord> for ResourceId {
    open spec fn obeys_from_spec() -> bool {
        true
    }

    open spec fn from_spec(value: TopicRecord) -> ResourceId {
        ResourceId { id: value.topic_id, uuid: value.topic_uuid }
    }
}

impl TopicRecord {
    /// Whether the record is that of a topic just made: not stored, not
    /// locked, without tag, format or metadata.
    pub open spec fn is_fresh(&self, name: Seq<char>, sequence_id: i32, created: Timestamp) -> bool {
        &&& self.topic_id == UNREGISTERED
        &&& self.sequence_id == sequence_id
        &&& self.locator_name@ == name
        &&& !self.locked
        &&& self.ontology_tag is None
        &&& self.serialization_format is None
        &&& self.user_metadata is None
        &&& self.creation_unix_tstamp == created.millis
    }

    /// The record of a new topic of the sequence, made at `created`, with a
    /// fresh random identifier.
    pub fn new(name: &str, sequence_id: i32, created: Timestamp) -> (r: TopicRecord)
        ensures
            r.is_fresh(name@, sequence_id, created),
            r.topic_uuid.is_random(),
    {
        TopicRecord::with_uuid(name, sequence_id, created, Uuid::new_v4())
    }

    /// The record of a new topic of the sequence, made at `created`, with
    /// the identifier `uuid`.
    pub fn with_uuid(name: &str, sequence_id: i32, created: Timestamp, uuid: Uuid) -> (r:
        TopicRecord)
        ensures
            r.is_fresh(name@, sequence_id, created),
            r.topic_uuid == uuid,
    {
        TopicRecord {
            topic_id: UNREGISTERED,
            topic_uuid: uuid,
            sequence_id,
            locator_name: owned(name),
            locked: false,
            ontology_tag: None,
            serialization_format: None,
            user_metadata: None,
            creation_unix_tstamp: created.as_i64(),
        }
    }

    /// The record with the ontology tag set.
    pub fn with_ontology_tag(self, ontology_tag: &str) -> (r: TopicRecord)
        ensures
            text_of(r.ontology_tag) == Some(ontology_tag@),
            r == (TopicRecord { ontology_tag: r.ontology_tag, ..self }),
    {
        let mut this = self;
        this.ontology_tag = Some(owned(ontology_tag));
        this
    }

    /// The record with the name of the serialization format set.
    pub fn with_serialization_format(self, serialization_format: &str) -> (r: TopicRecord)
        ensures
            text_of(r.serialization_format) == Some(serialization_format@),
            r == (TopicRecord { serialization_format: r.serialization_format, ..self }),
    {
        let mut this = self;
        this.serialization_format = Some(owned(serialization_format));
        this
    }

    /// The record with the user metadata set, as JSON text.
    pub fn with_user_metadata(self, user_metadata: String) -> (r: TopicRecord)
        ensures
            r == (TopicRecord { user_metadata: Some(user_metadata), ..self }),
    {
        let mut this = self;
        this.user_metadata = Some(user_metadata);
        this
    }

    /// Whether the topic is locked.
    pub fn is_locked(&self) -> (r: bool)
        ensures
            r == self.locked,
    {
        self.locked
    }

    /// The serialization format, where one is set; an error where the name
    /// that is stored names no format.
    pub fn try_serialization_format(&self) -> (r: Result<Option<Format>, Error>)
        ensures
            match self.serialization_format {
                None => r == Ok::<Option<Format>, Error>(None),
                Some(name) => match format_named(name@) {
                    Some(f) => r == Ok::<Option<Format>, Error>(Some(f)),
                    None => match r {
                        Err(Error::UnkownFormat(n)) => n@ == name@,
                        _ => false,
                    },
                },
            },
    {
        match &self.serialization_format {
            None => Ok(None),
            Some(name) => match Format::from_str(name.as_str()) {
                Ok(f) => Ok(Some(f)),
                Err(e) => Err(e),
            },
        }
    }

    /// Whether the name that is stored, if any, names a format.
    pub open spec fn format_known(&self) -> bool {
        match self.serialization_format {
            None => true,
            Some(name) => format_named(name@) is Some,
        }
    }

    /// The serialization format, where one is set. The name that is stored
    /// must name a format.
    pub fn serialization_format(&self) -> (r: Option<Format>)
        requires
            self.format_known(),
        ensures
            match self.serialization_format {
                None => r is None,
                Some(name) => r == format_named(name@),
            },
    {
        match self.try_serialization_format() {
            Ok(f) => f,
            Err(_) => None,
        }
    }

    /// The time of creation.
    pub fn creation_timestamp(&self) -> (r: Timestamp)
        ensures
            r.millis == self.creation_unix_tstamp,
    {
        Timestamp::from(self.creation_unix_tstamp)
    }
}

} // verus!
