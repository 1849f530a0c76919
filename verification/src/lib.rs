//! A verified core for a document-management backend.
//!
//! Documents live in a flat key/value blob namespace. A document's primary
//! content is stored under its id; an optional attachment is stored under a
//! companion key formed from the id, a separator and the attachment's
//! filename. On top of that namespace this crate provides the key naming
//! scheme, a text/binary content classifier, an in-memory blob store, and
//! the repository operations that assemble documents from blobs.

pub mod classify;
pub mod document;
pub mod keys;
pub mod laws;
pub mod repo;
pub mod store;
