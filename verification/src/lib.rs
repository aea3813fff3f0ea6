//! Metadata-indexed columnar store for time-series sensor data: the filter
//! algebra, the column statistics model, the catalog planner and the
//! decisions of the write and query pipelines.

pub mod params;
pub mod query;
pub mod repo;
pub mod rw;
pub mod server;
pub mod text;
pub mod traits;
pub mod types;
