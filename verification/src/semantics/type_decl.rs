//! Type declarations.

use super::error::{SemanticError, SemanticErrorView};
use super::legalize::{legalized_all, Legalize};
use super::namespace::{Declared, Namespace};
use super::scope::Scope;
use super::type_ref::{
    all_bound, bind, bind_all, lemma_bind_all_is_bound, lemma_bind_is_bound, type_refs_view,
    TypeRef, TypeRefView,
};
use crate::ast::schema;
use crate::ast::schema::SimpleType;
use vstd::prelude::*;

verus! {

/// What a declared type stands for, with its references bound.
#[derive(Debug, Clone, PartialEq, Eq)]
pub enum UnderlyingType {
    Simple(SimpleType),
    Reference(TypeRef),
    Select(Vec<TypeRef>),
}

/// What an [`UnderlyingType`] holds, as a mathematical value.
pub enum UnderlyingTypeView {
    Simple(SimpleType),
    Reference(TypeRefView),
    Select(Seq<TypeRefView>),
}

impl View for UnderlyingType {
    type V = UnderlyingTypeView;

    open spec fn view(&self) -> UnderlyingTypeView {
        match self {
            UnderlyingType::Simple(t) => UnderlyingTypeView::Simple(*t),
            UnderlyingType::Reference(r) => UnderlyingTypeView::Reference(r@),
            UnderlyingType::Select(refs) => UnderlyingTypeView::Select(type_refs_view(refs@)),
        }
    }
}

impl UnderlyingTypeView {
    /// True when every reference is bound.
    pub open spec fn bound_in(self, names: Seq<Declared>) -> bool {
        match self {
            UnderlyingTypeView::Simple(_) => true,
            UnderlyingTypeView::Reference(r) => r.bound_in(names),
            UnderlyingTypeView::Select(refs) => all_bound(refs, names),
        }
    }
}

/// The legalized type declarations are as many as the declarations, and each
/// has every reference bound.
pub proof fn lemma_type_decls_are_bound(
    names: Seq<Declared>,
    scope: Seq<Seq<char>>,
    items: Seq<schema::TypeDecl>,
)
    ensures
        legalized_all::<TypeDecl>(names, scope, items) matches Ok(nodes) ==> nodes.len()
            == items.len() && forall|i: int|
            0 <= i < nodes.len() ==> (#[trigger] nodes[i]).underlying_type.bound_in(names),
        legalized_all::<TypeDecl>(names, scope, items) matches Err(e) ==> e is TypeNotFound,
    decreases items.len(),
{
    if items.len() > 0 {
        lemma_type_decls_are_bound(names, scope, items.drop_last());
        let inner = scope.push(items.last().name@);
        match items.last().underlying_type {
            schema::UnderlyingType::Simple(_) => {},
            schema::UnderlyingType::Reference(name) => {
                lemma_bind_is_bound(names, inner, name@);
            },
            schema::UnderlyingType::Select(select) => {
                lemma_bind_all_is_bound(names, inner, select@);
            },
        }
    }
}

impl Legalize for UnderlyingType {
    type Input = schema::UnderlyingType;

    open spec fn legalized(
        names: Seq<Declared>,
        scope: Seq<Seq<char>>,
        syn: schema::UnderlyingType,
    ) -> Result<UnderlyingTypeView, SemanticErrorView> {
        match syn {
            schema::UnderlyingType::Simple(t) => Ok(UnderlyingTypeView::Simple(t)),
            schema::UnderlyingType::Reference(name) => match bind(names, scope, name@) {
                Ok(r) => Ok(UnderlyingTypeView::Reference(r)),
                Err(e) => Err(e),
            },
            schema::UnderlyingType::Select(items) => match bind_all(names, scope, items@) {
                Ok(refs) => Ok(UnderlyingTypeView::Select(refs)),
                Err(e) => Err(e),
            },
        }
    }

    fn legalize(ns: &Namespace, scope: &Scope, syn: &schema::UnderlyingType) -> (r: Result<
        UnderlyingType,
        SemanticError,
    >) {
        match syn {
            schema::UnderlyingType::Simple(t) => Ok(UnderlyingType::Simple(*t)),
            schema::UnderlyingType::Reference(name) => match TypeRef::lookup(ns, scope, name) {
                Ok(r) => Ok(UnderlyingType::Reference(r)),
                Err(e) => Err(e),
            },
            schema::UnderlyingType::Select(items) => match TypeRef::lookup_all(ns, scope, items) {
                Ok(refs) => Ok(UnderlyingType::Select(refs)),
                Err(e) => Err(e),
            },
        }
    }
}

/// A type declaration whose references are bound.
#[derive(Debug, Clone, PartialEq, Eq)]
pub struct TypeDecl {
    pub name: String,
    pub underlying_type: UnderlyingType,
}

/// What a [`TypeDecl`] holds, as a mathematical value.
pub struct TypeDeclView {
    pub name: Seq<char>,
    pub underlying_type: UnderlyingTypeView,
}

impl View for TypeDecl {
    type V = TypeDeclView;

    open spec fn view(&self) -> TypeDeclView {
        TypeDeclView { name: self.name@, underlying_type: self.underlying_type@ }
    }
}

impl Legalize for TypeDecl {
    type Input = schema::TypeDecl;

    /// What the declaration refers to is looked for from the declaration's
    /// own scope outwards.
    open spec fn legalized(
        names: Seq<Declared>,
        scope: Seq<Seq<char>>,
        syn: schema::TypeDecl,
    ) -> Result<TypeDeclView, SemanticErrorView> {
        match UnderlyingType::legalized(names, scope.push(syn.name@), syn.underlying_type) {
            Ok(underlying_type) => Ok(TypeDeclView { name: syn.name@, underlying_type }),
            Err(e) => Err(e),
        }
    }

    fn legalize(ns: &Namespace, scope: &Scope, syn: &schema::TypeDecl) -> (r: Result<
        TypeDecl,
        SemanticError,
    >) {
        let inner = scope.pushed(syn.name.as_str());
        match UnderlyingType::legalize(ns, &inner, &syn.underlying_type) {
            Ok(underlying_type) => Ok(TypeDecl { name: syn.name.clone(), underlying_type }),
            Err(e) => Err(e),
        }
    }
}

} // verus!
