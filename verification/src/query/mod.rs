//! Search and filtering: values, operators, expressions and filters, and what
//! the catalog and the row-level reader make of them.

pub mod builder;
pub mod catalog;
pub mod error;
pub mod filter;
pub mod timeseries_gw;
