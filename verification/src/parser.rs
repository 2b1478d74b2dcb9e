//! Recursive-descent parsers for literals and expressions.
//!
//! The grammar is stated by specification functions on a sequence of
//! characters and a position; the executable parsers return what those
//! functions say.

pub mod basis;
pub mod outcome;
pub mod remark;
pub mod literal;
pub mod operator;
pub mod expression;
pub mod order;
