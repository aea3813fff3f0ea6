//! Records of chunks, columns, sequences and column statistics.

use vstd::prelude::*;
use crate::text::{lex_lt, str_lt};
use crate::types::float::Float;
use crate::types::resource::Uuid;

verus! {

/// The number of a record that the catalog has not stored yet.
pub const UNREGISTERED: i32 = -1;

/// A chunk: one columnar file of a topic.
#[derive(Debug, Clone)]
pub struct Chunk {
    pub chunk_id: i32,
    pub chunk_uuid: Uuid,
    pub topic_id: i32,
    pub data_file: String,
    pub size_bytes: i64,
    pub row_count: i64,
}

impl Chunk {
    /// A chunk of the topic that is not stored yet, with a fresh identifier
    /// and no size yet.
    pub fn new(topic_id: i32, datafile: &str) -> (r: Chunk)
        ensures
            r.chunk_id == UNREGISTERED,
            r.chunk_uuid.is_random(),
            r.topic_id == topic_id,
            r.data_file@ == datafile@,
            r.size_bytes == 0,
            r.row_count == 0,
    {
        Chunk {
            chunk_id: UNREGISTERED,
            chunk_uuid: Uuid::new_v4(),
            topic_id,
            data_file: crate::text::owned(datafile),
            size_bytes: 0,
            row_count: 0,
        }
    }

    /// The path of the data file.
    pub fn data_file(&self) -> (r: &str)
        ensures
            r@ == self.data_file@,
    {
        self.data_file.as_str()
    }
}

/// A column of an ontology: one for each pair of column name and ontology
/// tag.
#[derive(Debug, Clone)]
pub struct Column {
    pub column_id: i32,
    pub column_name: String,
    pub ontology_tag: String,
}

/// A sequence.
#[derive(Debug, Clone)]
pub struct SequenceRecord {
    pub sequence_id: i32,
    pub sequence_uuid: Uuid,
    pub locator_name: String,
    pub locked: bool,
    pub creation_unix_tstamp: i64,
}

/// The extrema of a numeric column in a chunk.
#[derive(Debug, Clone, Copy)]
pub struct ColumnChunkNumeric {
    pub column_id: i32,
    pub chunk_id: i32,
    pub min_value: Float,
    pub max_value: Float,
    pub has_null: bool,
    pub has_nan: bool,
}

impl ColumnChunkNumeric {
    /// The record of the extrema of a column in a chunk.
    pub fn new(
        column_id: i32,
        chunk_id: i32,
        min_value: Float,
        max_value: Float,
        has_null: bool,
        has_nan: bool,
    ) -> (r: ColumnChunkNumeric)
        ensures
            r.column_id == column_id,
            r.chunk_id == chunk_id,
            r.min_value == min_value,
            r.max_value == max_value,
            r.has_null == has_null,
            r.has_nan == has_nan,
    {
        ColumnChunkNumeric { column_id, chunk_id, min_value, max_value, has_null, has_nan }
    }
}

/// The extrema of a text column in a chunk: the minimum is not above the
/// maximum in lexicographic order.
#[derive(Debug, Clone)]
pub struct ColumnChunkLiteral {
    pub column_id: i32,
    pub chunk_id: i32,
    pub min_value: String,
    pub max_value: String,
    pub has_null: bool,
}

/// A minimum that lies above the maximum.
#[derive(Debug, Clone, Copy, PartialEq, Eq, Structural)]
pub struct BadRange;

impl ColumnChunkLiteral {
    /// Whether the minimum is not above the maximum.
    pub open spec fn ordered(&self) -> bool {
        !lex_lt(self.max_value@, self.min_value@)
    }

    /// The record of the extrema of a column in a chunk; an error where the
    /// minimum lies above the maximum.
    pub fn try_new(column_id: i32, chunk_id: i32, min_value: String, max_value: String, has_null: bool)
        -> (r: Result<ColumnChunkLiteral, BadRange>)
        ensures
            r is Ok <==> !lex_lt(max_value@, min_value@),
            r matches Ok(c) ==> c.column_id == column_id && c.chunk_id == chunk_id && c.min_value
                == min_value && c.max_value == max_value && c.has_null == has_null && c.ordered(),
    {
        if str_lt(max_value.as_str(), min_value.as_str()) {
            Err(BadRange)
        } else {
            Ok(ColumnChunkLiteral { column_id, chunk_id, min_value, max_value, has_null })
        }
    }
}

/// The size and the number of rows of all the chunks of a topic.
#[derive(Debug, Clone, Copy, PartialEq, Eq, Structural)]
pub struct TopicStats {
    pub total_size_bytes: i64,
    pub total_row_count: i64,
}

impl Default for TopicStats {
    fn default() -> (r: TopicStats)
        ensures
            r.total_size_bytes == 0,
            r.total_row_count == 0,
    {
        TopicStats { total_size_bytes: 0, total_row_count: 0 }
    }
}

} // verus!
