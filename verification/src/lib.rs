//! Structural digests of JSON value trees.
//!
//! The digest of a tree does not depend on the order in which an object's
//! properties are listed, but it does depend on the order of an array's
//! elements, on the kind of every value and on the nesting.

pub mod blake3;
pub mod double;
pub mod engine;
pub mod hash;
pub mod laws;
pub mod sha256;
pub mod sha512;
pub mod value;
