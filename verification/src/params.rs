//! Constants and the settings an operator can change.

use vstd::prelude::*;

verus! {

/// The name of the column that holds the timestamp of a record.
pub const ARROW_SCHEMA_COLUMN_NAME_TIMESTAMP: &'static str = "timestamp";

/// The extension of chunk files, without the dot.
pub const PARQUET: &'static str = "parquet";

/// The settings an operator can change.
#[derive(Debug, Clone, Copy, PartialEq, Eq, Structural)]
pub struct Configurables {
    /// How many chunk files one query reads at a time: at least one.
    pub max_concurrent_chunk_queries: usize,
    /// The size in bytes that a message of a data stream aims at: positive.
    pub target_message_size_in_bytes: usize,
}

impl Configurables {
    /// Whether the settings are within their ranges.
    pub open spec fn valid(&self) -> bool {
        self.max_concurrent_chunk_queries >= 1 && self.target_message_size_in_bytes > 0
    }

    /// The settings, where they are within their ranges.
    pub fn try_new(max_concurrent_chunk_queries: usize, target_message_size_in_bytes: usize) -> (r:
        Option<Configurables>)
        ensures
            r is Some <==> max_concurrent_chunk_queries >= 1 && target_message_size_in_bytes > 0,
            r matches Some(c) ==> c.valid() && c.max_concurrent_chunk_queries
                == max_concurrent_chunk_queries && c.target_message_size_in_bytes
                == target_message_size_in_bytes,
    {
        if max_concurrent_chunk_queries >= 1 && target_message_size_in_bytes > 0 {
            Some(Configurables { max_concurrent_chunk_queries, target_message_size_in_bytes })
        } else {
            None
        }
    }
}

} // verus!
