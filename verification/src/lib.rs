//! An in-memory key-value engine with string, hash and list values,
//! per-key expiration and wildcard key lookup.
//!
//! The engine is a mapping from keys to entries; an entry owns one value
//! and an optional absolute expiration instant, measured in milliseconds.
//! Expiration is lazy: an expired entry lingers until an operation
//! observes it. Every operation is specified against a mathematical model
//! of the mapping (`model`), and the laws that relate operations to each
//! other are proved in `laws`.

pub mod assoc;
pub mod clock;
pub mod config;
pub mod laws;
pub mod model;
pub mod pattern;
pub mod server;
pub mod store;
pub mod text;
