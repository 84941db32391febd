//! Storage core of a small media-metadata service.
//!
//! The crate holds the decisions of the service's storage layer, free of any
//! network access: how a creation failure is classified and retried while the
//! backing table and bucket are provisioned, how a record is written to and
//! read back from an attribute map, how a paginated scan is accumulated, and
//! how backend failures are mapped onto a closed set of typed errors. A driver
//! performs each request against the real backend and hands the outcome back.
//!
//! The same decisions run against two backends in memory, on which every
//! answer is determined; the laws that relate the operations to one another
//! are proved there.

pub mod text;
pub mod models;
pub mod backend;
pub mod errors;
pub mod config;
pub mod startup;
pub mod repositories;
pub mod storage;
pub mod handlers;
pub mod domain;
pub mod memory;
pub mod in_memory;
pub mod laws;
