//! The decisions of the operations that span the catalog and the store.

pub mod facade_chunk;
pub mod facade_error;
pub mod facade_query;
