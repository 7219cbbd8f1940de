//! Synchronizes integration-package artifacts from a tenant's management API
//! to local storage.
//!
//! The core of the library is the package selection resolver (an ordered list
//! of include/exclude rules folded over a package catalog), together with the
//! pure parts of the retrieval pipeline: URL construction, authorization
//! header construction, catalog indexing, and zip-safe extraction planning.
//! The surrounding I/O (HTTP, filesystem, terminal) lives outside the library.

pub mod archive;
pub mod auth;
pub mod catalog;
pub mod config;
pub mod errors;
pub mod idset;
pub mod jsonval;
pub mod paths;
pub mod plan;
pub mod pattern;
pub mod resolve;
pub mod responses;
pub mod urls;
