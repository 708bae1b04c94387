//! A container image registry engine: content-addressed blob storage,
//! resumable uploads, manifests and tags, with the wire rules of the
//! Registry v2 HTTP API.
pub mod error;
pub mod digest;
pub mod validate;
pub mod number;
pub mod range;
pub mod model;
pub mod registry;
pub mod uploads;
pub mod blobs;
pub mod manifests;
pub mod paging;
pub mod catalog;
pub mod laws;
pub mod protocol;
pub mod auth;
pub mod config;
pub mod types;
pub mod access;
