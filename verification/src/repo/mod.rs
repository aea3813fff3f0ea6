//! The catalog: its records, what is asked of it, and the decisions of the
//! operations that span the catalog and the store.

pub mod facades;
pub mod sql_models;
