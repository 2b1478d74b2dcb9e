//! Schemas.

use super::entity::{lemma_entities_are_bound, Entity, EntityView};
use super::error::{SemanticError, SemanticErrorView};
use super::function::{lemma_functions_are_bound, Function, FunctionView};
use super::legalize::{legalize_all, legalized_all, Legalize};
use super::namespace::{Declared, Namespace};
use super::scope::Scope;
use super::type_decl::{lemma_type_decls_are_bound, TypeDecl, TypeDeclView};
use crate::ast::schema;
use vstd::prelude::*;

verus! {

/// A schema whose declarations have their references bound.
#[derive(Debug, Clone, PartialEq, Eq)]
pub struct Schema {
    pub name: String,
    pub types: Vec<TypeDecl>,
    pub entities: Vec<Entity>,
    pub functions: Vec<Function>,
}

/// What a [`Schema`] holds, as a mathematical value.
pub struct SchemaView {
    pub name: Seq<char>,
    pub types: Seq<TypeDeclView>,
    pub entities: Seq<EntityView>,
    pub functions: Seq<FunctionView>,
}

impl View for Schema {
    type V = SchemaView;

    open spec fn view(&self) -> SchemaView {
        SchemaView {
            name: self.name@,
            types: self.types@.map_values(|t: TypeDecl| t@),
            entities: self.entities@.map_values(|e: Entity| e@),
            functions: self.functions@.map_values(|f: Function| f@),
        }
    }
}

impl SchemaView {
    /// True when every reference in the schema is bound.
    pub open spec fn bound_in(self, names: Seq<Declared>) -> bool {
        &&& forall|i: int|
            0 <= i < self.types.len() ==> (#[trigger] self.types[i]).underlying_type.bound_in(names)
        &&& forall|i: int|
            0 <= i < self.entities.len() ==> (#[trigger] self.entities[i]).bound_in(names)
        &&& forall|i: int|
            0 <= i < self.functions.len() ==> (#[trigger] self.functions[i]).return_type.bound_in(
                names,
            )
    }
}

/// The legalized schemas are as many as the schemas, and each has every
/// reference bound.
pub proof fn lemma_schemas_are_bound(
    names: Seq<Declared>,
    scope: Seq<Seq<char>>,
    items: Seq<schema::Schema>,
)
    ensures
        legalized_all::<Schema>(names, scope, items) matches Ok(nodes) ==> nodes.len()
            == items.len() && forall|i: int|
            0 <= i < nodes.len() ==> (#[trigger] nodes[i]).bound_in(names),
        legalized_all::<Schema>(names, scope, items) matches Err(e) ==> e is TypeNotFound,
    decreases items.len(),
{
    if items.len() > 0 {
        lemma_schemas_are_bound(names, scope, items.drop_last());
        let inner = scope.push(items.last().name@);
        lemma_type_decls_are_bound(names, inner, items.last().types@);
        lemma_entities_are_bound(names, inner, items.last().entities@);
        lemma_functions_are_bound(names, inner, items.last().functions@);
    }
}

impl Legalize for Schema {
    type Input = schema::Schema;

    /// The declarations are legalized in the schema's own scope: first the
    /// types, then the entities, then the functions.
    open spec fn legalized(
        names: Seq<Declared>,
        scope: Seq<Seq<char>>,
        syn: schema::Schema,
    ) -> Result<SchemaView, SemanticErrorView> {
        let inner = scope.push(syn.name@);
        match legalized_all::<TypeDecl>(names, inner, syn.types@) {
            Ok(types) => match legalized_all::<Entity>(names, inner, syn.entities@) {
                Ok(entities) => match legalized_all::<Function>(names, inner, syn.functions@) {
                    Ok(functions) => Ok(SchemaView { name: syn.name@, types, entities, functions }),
                    Err(e) => Err(e),
                },
                Err(e) => Err(e),
            },
            Err(e) => Err(e),
        }
    }

    fn legalize(ns: &Namespace, scope: &Scope, syn: &schema::Schema) -> (r: Result<
        Schema,
        SemanticError,
    >) {
        let inner = scope.pushed(syn.name.as_str());
        let types = match legalize_all::<TypeDecl>(ns, &inner, &syn.types) {
            Ok(types) => types,
            Err(e) => {
                return Err(e);
            },
        };
        let entities = match legalize_all::<Entity>(ns, &inner, &syn.entities) {
            Ok(entities) => entities,
            Err(e) => {
                return Err(e);
            },
        };
        let functions = match legalize_all::<Function>(ns, &inner, &syn.functions) {
            Ok(functions) => functions,
            Err(e) => {
                return Err(e);
            },
        };
        Ok(Schema { name: syn.name.clone(), types, entities, functions })
    }
}

} // verus!
