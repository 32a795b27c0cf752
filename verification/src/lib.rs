//! Presentation layer of a CQL shell.
//!
//! A query result arrives as typed cells; this crate renders a single cell
//! as human-readable text (with type-specific quoting, nesting, null and
//! duration rules) and lays a whole result set out as an aligned ASCII
//! table. Both components are pure: they consume plain values and return
//! the finished text, and every function is verified against a
//! specification of the exact output.

pub mod fmt;
pub mod table;
pub mod text;
pub mod value;
