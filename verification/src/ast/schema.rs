//! A parsed document, as it stands before its references are bound.

use vstd::prelude::*;

verus! {

/// The types that the language itself defines.
#[derive(Debug, Clone, Copy, PartialEq, Eq, Structural)]
pub enum SimpleType {
    Number,
    Real,
    Integer,
    Logical,
    Boolean,
    String,
    Binary,
}

/// The type of an attribute or of a function's result: a simple type, the
/// name of a declared type or entity, or such a name with the schema that
/// declares it.
#[derive(Debug, Clone, PartialEq, Eq)]
pub enum ParameterType {
    Simple(SimpleType),
    Named(String),
    Qualified { schema: String, name: String },
}

/// What a type declaration stands for: a simple type, another declared type
/// or entity, or one of a list of them.
#[derive(Debug, Clone, PartialEq, Eq)]
pub enum UnderlyingType {
    Simple(SimpleType),
    Reference(String),
    Select(Vec<String>),
}

/// `TYPE name = underlying_type; END_TYPE;`
#[derive(Debug, Clone, PartialEq, Eq)]
pub struct TypeDecl {
    pub name: String,
    pub underlying_type: UnderlyingType,
}

/// One attribute of an entity.
#[derive(Debug, Clone, PartialEq, Eq)]
pub struct Attribute {
    pub name: String,
    pub ty: ParameterType,
    pub optional: bool,
}

/// `ENTITY name; attributes END_ENTITY;`
#[derive(Debug, Clone, PartialEq, Eq)]
pub struct Entity {
    pub name: String,
    pub attributes: Vec<Attribute>,
}

/// `FUNCTION name : return_type; ... END_FUNCTION;`
#[derive(Debug, Clone, PartialEq, Eq)]
pub struct Function {
    pub name: String,
    pub return_type: ParameterType,
}

/// `SCHEMA name; declarations END_SCHEMA;`
#[derive(Debug, Clone, PartialEq, Eq)]
pub struct Schema {
    pub name: String,
    pub types: Vec<TypeDecl>,
    pub entities: Vec<Entity>,
    pub functions: Vec<Function>,
}

/// The schemas of one document, in the order in which they stand.
#[derive(Debug, Clone, PartialEq, Eq)]
pub struct SyntaxTree {
    pub schemas: Vec<Schema>,
}

} // verus!
