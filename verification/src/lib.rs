//! Undelete for versioned object-store buckets.
//!
//! In a versioned bucket a deleted object is not gone: a *delete marker*
//! becomes its latest version. Removing that marker makes the most recent real
//! version current again. This crate holds the decisions of a tool that walks
//! the paginated version listing of a bucket, removes every delete marker that
//! is the latest version of its key, and then walks the listing a second time
//! to report the keys that are still marked as deleted.
//!
//! Nothing here performs a request. The caller owns the storage client: it is
//! told which request to make next and hands back what the store answered.

pub mod cli;
pub mod journey;
pub mod laws;
pub mod listing;
pub mod orchestrator;
pub mod pass;
pub mod report;
pub mod scanner;
pub mod target;
pub mod trace;
pub mod walk;
