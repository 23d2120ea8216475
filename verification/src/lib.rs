//! Client library for the Carris Metropolitana real-time arrivals API.
//!
//! The crate holds the verified core shared by a standard-environment HTTP
//! backend and a resource-constrained embedded backend: the wire-format
//! codec, the record types, URL construction, the bounded body buffer of the
//! embedded client, and the stop-list cache logic. The I/O itself — sockets,
//! TLS, the filesystem — stays with the callers, which hand the core plain
//! bytes and take plain values back.

pub mod cache;
pub mod client_embedded;
pub mod client_std;
pub mod config;
pub mod decode;
pub mod display;
pub mod encode;
pub mod json;
pub mod num;
pub mod types;
