//! What is computed before and after the queries of the catalog.

pub mod condition;
pub mod data_catalog;
pub mod group;
