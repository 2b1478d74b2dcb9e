//! The errors of legalization.

use super::scope::Scope;
use vstd::prelude::*;

verus! {

/// Why a document could not be legalized.
#[derive(Debug, Clone, PartialEq, Eq)]
pub enum SemanticError {
    /// `name` is referred to in `scope`, and neither that scope nor a scope
    /// around it declares a type or an entity of that name.
    TypeNotFound { name: String, scope: Scope },
    /// `scope` declares `name` twice.
    DuplicateDeclaration { name: String, scope: Scope },
}

/// What a [`SemanticError`] holds, as a mathematical value.
pub enum SemanticErrorView {
    TypeNotFound { name: Seq<char>, scope: Seq<Seq<char>> },
    DuplicateDeclaration { name: Seq<char>, scope: Seq<Seq<char>> },
}

impl View for SemanticError {
    type V = SemanticErrorView;

    open spec fn view(&self) -> SemanticErrorView {
        match self {
            SemanticError::TypeNotFound { name, scope } => SemanticErrorView::TypeNotFound {
                name: name@,
                scope: scope@,
            },
            SemanticError::DuplicateDeclaration {
                name,
                scope,
            } => SemanticErrorView::DuplicateDeclaration { name: name@, scope: scope@ },
        }
    }
}

} // verus!
