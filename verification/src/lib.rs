//! Front end for EXPRESS (ISO 10303-11): a literal and expression parser that
//! keeps the remarks it passes, the legalization of a parsed document into a
//! representation in which every reference is bound, and the naming of the
//! holders that are derived for the types generated from it.
//!
//! Every executable function states its result over the specification
//! functions that stand beside it.

pub mod ast;
pub mod holder;
pub mod parser;
pub mod semantics;
