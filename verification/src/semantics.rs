//! Legalization: from a parsed document to a representation in which every
//! reference to a type or an entity is bound to its declaration.

pub mod entity;
pub mod error;
pub mod function;
pub mod ir;
pub mod legalize;
pub mod namespace;
pub mod schema;
pub mod scope;
pub mod type_decl;
pub mod type_ref;
