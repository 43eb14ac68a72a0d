//! An embedded data store: named collections of schema-less records, held in
//! memory, changed through create, read, update and delete operations, and
//! written to and read from a snapshot on request.

pub mod error;
pub mod laws;
pub mod parse;
pub mod schema;
pub mod storage;
