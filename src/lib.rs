//! A named, ordered list of text records kept in a key-value store, with
//! idempotent creation, identifier-based upsert and removal, and reset.

pub mod record;
pub mod list;
pub mod store;
pub mod operations;
pub mod laws;
