//! Core model of an inbound HTTP request: a cheaply clonable handle over
//! shared, mostly immutable wire data, with cached derived views (query
//! map, cookie list, connection info), a take-once body stream, and URL
//! generation from named path templates.
pub mod error;
pub mod strutil;
pub mod headers;
pub mod cookies;
pub mod query;
pub mod payload;
pub mod conninfo;
pub mod router;
pub mod extensions;
pub mod request;
pub mod urlgen;
