//! A dotfile synchronizer's decisions, separated from the work they cause.
//!
//! The crate turns a mapping of sources inside a repository to destinations
//! outside it into filesystem operations, one at a time, and says of each
//! run what it reports. It touches no file itself: a caller carries out each
//! [`filesystem::Operation`] and hands back the [`filesystem::Reply`].

pub mod batch;
mod encoding;
pub mod error;
pub mod filesystem;
pub mod git;
pub mod laws;
pub mod mapping;
pub mod path;
pub mod play;
pub mod reconcile;
pub mod startup;
pub mod tree;
