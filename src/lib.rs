//! Synchronisation and deduplication engine for a mirrored image directory.
//!
//! The client side plans how a local directory converges to a remote catalog;
//! the server side admits uploads and keeps at most one stored copy of any content.

pub mod catalog;
pub mod config;
pub mod digest;
pub mod index;
pub mod plan;
pub mod text;
pub mod upload;
