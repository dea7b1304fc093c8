//! A declarative engine for reading structured values out of binary data.
//!
//! A [`schema::Schema`] describes the layout of a family of types by directives:
//! byte order, counts, magic values, conditions, offsets, padding, assertions and
//! mapping. [`reader::read_value`] follows such a description over a
//! [`io::Reader`] and yields a [`value::Value`], or an [`error::Error`] that
//! carries the position at which the failing step began.
//!
//! The modules, from the ground up:
//!
//! - [`endian`], [`io`], [`options`], [`error`], [`value`] and [`trace`] hold
//!   what a read works with: byte orders, the byte source with its cursor, the
//!   options handed from field to field, and what a read ends in.
//! - [`expr`], [`directive`] and [`schema`] hold the description of types;
//!   [`tokens`] takes names and source text for it from Rust tokens.
//! - [`model`] says what reading means, as mathematical functions.
//! - [`skips`], [`planner`], [`reader`], [`resolver`] and [`punctuated`] read,
//!   and are proved to read what the model says.
//! - [`laws`] and [`observer`] prove what holds of every read: a failed
//!   attempt at a variant leaves the cursor where it was, the first variant
//!   that matches is chosen, assertions run right after their field, padding
//!   is never negative, and the trace changes nothing.

pub mod directive;
pub mod endian;
pub mod error;
pub mod expr;
pub mod io;
pub mod laws;
pub mod model;
pub mod observer;
pub mod options;
pub mod planner;
pub mod punctuated;
pub mod reader;
pub mod resolver;
pub mod schema;
pub mod skips;
pub mod tokens;
pub mod trace;
pub mod value;
