//! Personal-finance transactions read from delimited exports, and a store
//! that holds the loaded set and answers totals over it.
pub mod amount;
pub mod ingest;
pub mod laws;
pub mod store;
pub mod transaction;
