//! Verified core of an archive-bundle ingestion and retrieval service.
//!
//! The library validates uploaded files against a registry of file-type
//! descriptors (extension, content type, magic number, size), detects the
//! storage key and container format of a stored bundle, plans the safe
//! extraction of zip archives, encodes extraction results for a key-value
//! cache, and drives the cache-backed retrieval and health-check flows as
//! verified state machines.  All I/O (object store, cache, relational store,
//! filesystem) is performed by an unverified shell that executes the actions
//! these state machines emit.

pub mod text;
pub mod file_types;
pub mod errors;
pub mod validate;
pub mod archive;
pub mod extract;
pub mod codec;
pub mod zip_store;
pub mod retrieve;
pub mod health;
pub mod config;
