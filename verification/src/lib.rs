//! A deterministic keyed record store with notification events.
//!
//! The engine derives one storage address per owning identity under a
//! namespace tag, keeps one key/value record per address, decodes
//! binary payloads into the same record shape, and appends a
//! structured event to a publication log after every successful
//! mutation. A small query surface returns fixed example data in
//! three different shapes.

pub mod address;
pub mod bytes_ops;
pub mod codec;
pub mod engine;
pub mod errors;
pub mod events;
pub mod query;
pub mod records;
