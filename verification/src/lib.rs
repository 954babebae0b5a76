//! Planning core of an incremental, chronologically ordered archive of
//! per-version build artifacts.
//!
//! The crate decides which artifact kinds of a version are stale, assembles
//! the content tree of a version from the reusable part of its previous tree
//! and freshly produced files, and lays out the linear chain of commits and
//! tags. It never touches a store or a file itself: callers hand in what they
//! read and carry out what the crate returns.

pub mod artifact;
pub mod chain;
pub mod error;
pub mod index;
pub mod ledger;
pub mod metadata;
pub mod parchment;
pub mod path;
pub mod plan;
pub mod producer;
pub mod run;
pub mod tree;
pub mod version;
