//! Plain data shared by the query and write paths.

pub mod chunk;
pub mod float;
pub mod groups;
pub mod resource;
pub mod timestamp;
