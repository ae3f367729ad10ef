//! A structured validator: coercion of untyped, JSON-like tree values into
//! strict domain types, with a path-addressable report of every failure
//! found in a single pass.

pub mod api;
pub mod distill;
pub mod domain;
pub mod error;
pub mod laws;
pub mod value;
