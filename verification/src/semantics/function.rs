//! Functions.

use super::error::{SemanticError, SemanticErrorView};
use super::legalize::{legalized_all, Legalize};
use super::namespace::{Declared, Namespace};
use super::scope::Scope;
use super::type_ref::{lemma_type_is_bound, TypeRef, TypeRefView};
use crate::ast::schema;
use vstd::prelude::*;

verus! {

/// A function whose result type is bound.
#[derive(Debug, Clone, PartialEq, Eq)]
pub struct Function {
    pub name: String,
    pub return_type: TypeRef,
}

/// What a [`Function`] holds, as a mathematical value.
pub struct FunctionView {
    pub name: Seq<char>,
    pub return_type: TypeRefView,
}

impl View for Function {
    type V = FunctionView;

    open spec fn view(&self) -> FunctionView {
        FunctionView { name: self.name@, return_type: self.return_type@ }
    }
}

/// The legalized functions are as many as the functions, and each has its
/// result type bound.
pub proof fn lemma_functions_are_bound(
    names: Seq<Declared>,
    scope: Seq<Seq<char>>,
    items: Seq<schema::Function>,
)
    ensures
        legalized_all::<Function>(names, scope, items) matches Ok(nodes) ==> nodes.len()
            == items.len() && forall|i: int|
            0 <= i < nodes.len() ==> (#[trigger] nodes[i]).return_type.bound_in(names),
        legalized_all::<Function>(names, scope, items) matches Err(e) ==> e is TypeNotFound,
    decreases items.len(),
{
    if items.len() > 0 {
        lemma_functions_are_bound(names, scope, items.drop_last());
        lemma_type_is_bound(names, scope.push(items.last().name@), items.last().return_type);
    }
}

impl Legalize for Function {
    type Input = schema::Function;

    /// The result type is looked for from the function's own scope outwards.
    open spec fn legalized(
        names: Seq<Declared>,
        scope: Seq<Seq<char>>,
        syn: schema::Function,
    ) -> Result<FunctionView, SemanticErrorView> {
        match TypeRef::legalized(names, scope.push(syn.name@), syn.return_type) {
            Ok(return_type) => Ok(FunctionView { name: syn.name@, return_type }),
            Err(e) => Err(e),
        }
    }

    fn legalize(ns: &Namespace, scope: &Scope, syn: &schema::Function) -> (r: Result<
        Function,
        SemanticError,
    >) {
        let inner = scope.pushed(syn.name.as_str());
        match TypeRef::legalize(ns, &inner, &syn.return_type) {
            Ok(return_type) => Ok(Function { name: syn.name.clone(), return_type }),
            Err(e) => Err(e),
        }
    }
}

} // verus!
