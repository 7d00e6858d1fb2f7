//! Wire encoding of results and errors, and runtime resolution of union types.
pub mod error;
pub mod position;
pub mod registry;
pub mod union;
pub mod value;
