//! A runtime value and object model for a small, dynamically typed,
//! ECMAScript-like language.
//!
//! The crate provides the tagged value type that an interpreter's executor
//! passes around, the heap of object records those values point into, the
//! property/prototype resolution algorithms, and the coercion and comparison
//! rules that give the language its semantics.

pub mod access;
pub mod array;
pub mod coerce;
pub mod construct;
pub mod heap;
pub mod laws;
pub mod num;
pub mod object;
pub mod resolve;
pub mod text;
pub mod value;
