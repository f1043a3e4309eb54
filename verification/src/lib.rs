//! A verified core for an image upload service.
//!
//! Inbound bytes are classified by content signature alone, stored in a blob
//! store under a generated identifier, and recorded in a metadata store. The
//! write protocol keeps the two stores consistent in the face of either write
//! failing: a blob is written before its metadata record becomes visible, and
//! a deletion removes the record before the blob, so the only inconsistency
//! either can leave behind is an unreferenced blob, never a record whose
//! bytes are missing.

pub mod assoc;
pub mod config;
pub mod encoding;
pub mod engine;
pub mod error;
pub mod image_type;
pub mod laws;
pub mod store;
