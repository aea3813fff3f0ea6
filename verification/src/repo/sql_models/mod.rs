//! The records of the catalog and what is computed around its queries.

pub mod pg_queries;
pub mod records;
pub mod topic_record;
