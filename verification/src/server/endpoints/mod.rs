//! The endpoints: actions, data retrieval and listing.

pub mod actions;
pub mod do_get;
pub mod list_flights;
