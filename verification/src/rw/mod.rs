//! Chunk serialization formats and their encoding policies.

pub mod chunk_writer;
pub mod error;
pub mod format;
pub mod writer;
