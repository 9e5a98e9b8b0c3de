//! Verified core of a PR documentation manager.
//!
//! A *PR doc* is a small structured metadata file, one per change request,
//! tracking release notes and audience classification.  This crate holds the
//! document model and validation pipeline: deriving a record's canonical
//! filename from its PR number and title, generating and parsing record
//! content, checking a batch of files for schema conformance and identity
//! collisions, and aggregating a directory of records into a validated
//! collection.  All text is handled as bytes; the thin I/O shell around this
//! library converts to and from strings and the filesystem.

pub mod common;
pub mod doc_filename;
pub mod docfile;
pub mod generate;
pub mod loader;
pub mod opts;
pub mod report;
pub mod validator;
pub mod schema;
pub mod title;
