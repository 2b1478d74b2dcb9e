//! The values that the parsers build.

pub mod literal;
pub mod schema;
