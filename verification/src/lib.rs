//! A persistent hierarchical note store.
//!
//! The library covers the versioned schema-migration ledger that evolves the
//! on-disk relational layout idempotently, the adjacency-list tree of spaces
//! and nodes with cascading deletes, the attachment store that couples blob
//! files to metadata rows, and the schema doctor that diagnoses and repairs
//! known schema drift. The embedded relational engine is reached through a
//! small set of trusted wrappers; everything around them is verified.

pub mod attach;
pub mod codec;
pub mod config;
pub mod db;
pub mod doctor;
pub mod migrate;
pub mod mime;
pub mod tree;
pub mod weburl;
