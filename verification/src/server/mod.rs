//! What the endpoints of the server decide before and after they act.

pub mod endpoints;
pub mod errors;
