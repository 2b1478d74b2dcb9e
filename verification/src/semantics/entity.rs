//! Entities with their attributes.

use super::error::{SemanticError, SemanticErrorView};
use super::legalize::{legalize_all, legalized_all, Legalize};
use super::namespace::{Declared, Namespace};
use super::scope::Scope;
use super::type_ref::{lemma_type_is_bound, TypeRef, TypeRefView};
use crate::ast::schema;
use vstd::prelude::*;

verus! {

/// An attribute whose type is bound.
#[derive(Debug, Clone, PartialEq, Eq)]
pub struct Attribute {
    pub name: String,
    pub ty: TypeRef,
    pub optional: bool,
}

/// What an [`Attribute`] holds, as a mathematical value.
pub struct AttributeView {
    pub name: Seq<char>,
    pub ty: TypeRefView,
    pub optional: bool,
}

impl View for Attribute {
    type V = AttributeView;

    open spec fn view(&self) -> AttributeView {
        AttributeView { name: self.name@, ty: self.ty@, optional: self.optional }
    }
}

impl Legalize for Attribute {
    type Input = schema::Attribute;

    open spec fn legalized(
        names: Seq<Declared>,
        scope: Seq<Seq<char>>,
        syn: schema::Attribute,
    ) -> Result<AttributeView, SemanticErrorView> {
        match TypeRef::legalized(names, scope, syn.ty) {
            Ok(ty) => Ok(AttributeView { name: syn.name@, ty, optional: syn.optional }),
            Err(e) => Err(e),
        }
    }

    fn legalize(ns: &Namespace, scope: &Scope, syn: &schema::Attribute) -> (r: Result<
        Attribute,
        SemanticError,
    >) {
        match TypeRef::legalize(ns, scope, &syn.ty) {
            Ok(ty) => Ok(Attribute { name: syn.name.clone(), ty, optional: syn.optional }),
            Err(e) => Err(e),
        }
    }
}

impl EntityView {
    /// True when the type of every attribute is bound.
    pub open spec fn bound_in(self, names: Seq<Declared>) -> bool {
        forall|i: int|
            0 <= i < self.attributes.len() ==> (#[trigger] self.attributes[i]).ty.bound_in(names)
    }
}

/// The legalized attributes are as many as the attributes, and the type of
/// each is bound.
pub proof fn lemma_attributes_are_bound(
    names: Seq<Declared>,
    scope: Seq<Seq<char>>,
    items: Seq<schema::Attribute>,
)
    ensures
        legalized_all::<Attribute>(names, scope, items) matches Ok(nodes) ==> nodes.len()
            == items.len() && forall|i: int|
            0 <= i < nodes.len() ==> (#[trigger] nodes[i]).ty.bound_in(names),
        legalized_all::<Attribute>(names, scope, items) matches Err(e) ==> e is TypeNotFound,
    decreases items.len(),
{
    if items.len() > 0 {
        lemma_attributes_are_bound(names, scope, items.drop_last());
        lemma_type_is_bound(names, scope, items.last().ty);
    }
}

/// The legalized entities are as many as the entities, and each has the type
/// of every attribute bound.
pub proof fn lemma_entities_are_bound(
    names: Seq<Declared>,
    scope: Seq<Seq<char>>,
    items: Seq<schema::Entity>,
)
    ensures
        legalized_all::<Entity>(names, scope, items) matches Ok(nodes) ==> nodes.len()
            == items.len() && forall|i: int|
            0 <= i < nodes.len() ==> (#[trigger] nodes[i]).bound_in(names),
        legalized_all::<Entity>(names, scope, items) matches Err(e) ==> e is TypeNotFound,
    decreases items.len(),
{
    if items.len() > 0 {
        lemma_entities_are_bound(names, scope, items.drop_last());
        lemma_attributes_are_bound(
            names,
            scope.push(items.last().name@),
            items.last().attributes@,
        );
    }
}

/// An entity whose attributes have their types bound.
#[derive(Debug, Clone, PartialEq, Eq)]
pub struct Entity {
    pub name: String,
    pub attributes: Vec<Attribute>,
}

/// What an [`Entity`] holds, as a mathematical value.
pub struct EntityView {
    pub name: Seq<char>,
    pub attributes: Seq<AttributeView>,
}

impl View for Entity {
    type V = EntityView;

    open spec fn view(&self) -> EntityView {
        EntityView {
            name: self.name@,
            attributes: self.attributes@.map_values(|a: Attribute| a@),
        }
    }
}

impl Legalize for Entity {
    type Input = schema::Entity;

    /// The types of the attributes are looked for from the entity's own
    /// scope outwards.
    open spec fn legalized(
        names: Seq<Declared>,
        scope: Seq<Seq<char>>,
        syn: schema::Entity,
    ) -> Result<EntityView, SemanticErrorView> {
        match legalized_all::<Attribute>(names, scope.push(syn.name@), syn.attributes@) {
            Ok(attributes) => Ok(EntityView { name: syn.name@, attributes }),
            Err(e) => Err(e),
        }
    }

    fn legalize(ns: &Namespace, scope: &Scope, syn: &schema::Entity) -> (r: Result<
        Entity,
        SemanticError,
    >) {
        let inner = scope.pushed(syn.name.as_str());
        match legalize_all::<Attribute>(ns, &inner, &syn.attributes) {
            Ok(attributes) => Ok(Entity { name: syn.name.clone(), attributes }),
            Err(e) => Err(e),
        }
    }
}

} // verus!
