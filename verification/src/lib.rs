//! An HTTP echo service as a library: a request is captured into a snapshot
//! (method, URL, origin, query arguments, headers with their duplicates), its
//! body is decoded or its credentials are validated as the route asks, and the
//! answer is a JSON document that reflects what was received.
//!
//! Every function here is verified. What the crates `axum`, `axum-auth`,
//! `form_urlencoded` and `serde_json` compute is reached through a few
//! functions whose contracts are assumed; each of them says so in its
//! documentation.

pub mod error;
pub mod text;
pub mod string_map;
pub mod headers;
pub mod header_map;
pub mod urlencoded;
pub mod snapshot;
pub mod json;
pub mod body;
pub mod auth;
pub mod response;
pub mod reply;
pub mod handlers;
pub mod service;
