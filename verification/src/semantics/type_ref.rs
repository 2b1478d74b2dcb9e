//! References to types, bound to their declarations.

use super::error::{SemanticError, SemanticErrorView};
use super::legalize::{followed_by, Legalize};
use super::namespace::{
    find, is_type_like, lemma_resolve, resolve, Declared, IdentifierType, Namespace,
};
use super::scope::Scope;
use crate::ast::schema::{ParameterType, SimpleType};
use vstd::prelude::*;

verus! {

/// A type: a simple type, or a declared type or entity with the scope that
/// declares it.
#[derive(Debug, Clone, PartialEq, Eq)]
pub enum TypeRef {
    Simple(SimpleType),
    Named { name: String, scope: Scope, kind: IdentifierType },
}

/// What a [`TypeRef`] holds, as a mathematical value.
pub enum TypeRefView {
    Simple(SimpleType),
    Named { name: Seq<char>, scope: Seq<Seq<char>>, kind: IdentifierType },
}

impl View for TypeRef {
    type V = TypeRefView;

    open spec fn view(&self) -> TypeRefView {
        match self {
            TypeRef::Simple(t) => TypeRefView::Simple(*t),
            TypeRef::Named { name, scope, kind } => TypeRefView::Named {
                name: name@,
                scope: scope@,
                kind: *kind,
            },
        }
    }
}

impl TypeRefView {
    /// True when the reference is bound: a simple type, or a type or an
    /// entity that its scope declares among `names` under its name.
    pub open spec fn bound_in(self, names: Seq<Declared>) -> bool {
        match self {
            TypeRefView::Simple(_) => true,
            TypeRefView::Named { name, scope, kind } => {
                &&& is_type_like(kind)
                &&& find(names, scope, name) matches Some(i) && names[i].kind == kind
            },
        }
    }
}

/// True when every reference of the list is bound.
pub open spec fn all_bound(refs: Seq<TypeRefView>, names: Seq<Declared>) -> bool {
    forall|i: int| 0 <= i < refs.len() ==> (#[trigger] refs[i]).bound_in(names)
}

/// The reference that `name` makes in `scope`: to the declaration that the
/// search from `scope` outwards finds, or to nothing, which is an error.
pub open spec fn bind(names: Seq<Declared>, scope: Seq<Seq<char>>, name: Seq<char>) -> Result<
    TypeRefView,
    SemanticErrorView,
> {
    match resolve(names, scope, name) {
        Some(i) => Ok(TypeRefView::Named { name, scope: names[i].scope, kind: names[i].kind }),
        None => Err(SemanticErrorView::TypeNotFound { name, scope }),
    }
}

/// The reference that `name` makes with the schema that declares it: to the
/// type or entity of that name in the scope of `schema`, wherever the
/// reference stands; or to nothing, which is an error.
pub open spec fn bind_qualified(names: Seq<Declared>, schema: Seq<char>, name: Seq<char>) -> Result<
    TypeRefView,
    SemanticErrorView,
> {
    match find(names, seq![schema], name) {
        Some(i) if is_type_like(names[i].kind) => Ok(
            TypeRefView::Named { name, scope: seq![schema], kind: names[i].kind },
        ),
        _ => Err(SemanticErrorView::TypeNotFound { name, scope: seq![schema] }),
    }
}

/// The references that a list of names makes in `scope`, or the error of the
/// first name that makes none.
pub open spec fn bind_all(names: Seq<Declared>, scope: Seq<Seq<char>>, items: Seq<String>) -> Result<
    Seq<TypeRefView>,
    SemanticErrorView,
>
    decreases items.len(),
{
    if items.len() == 0 {
        Ok(Seq::empty())
    } else {
        followed_by(
            bind_all(names, scope, items.drop_last()),
            bind(names, scope, items.last()@),
        )
    }
}

/// An error among the first `n` names is the error of the whole list.
pub proof fn lemma_bind_all_prefix(
    names: Seq<Declared>,
    scope: Seq<Seq<char>>,
    items: Seq<String>,
    n: int,
)
    requires
        0 <= n <= items.len(),
        bind_all(names, scope, items.take(n)) is Err,
    ensures
        bind_all(names, scope, items) == bind_all(names, scope, items.take(n)),
    decreases items.len() - n,
{
    if n < items.len() {
        assert(items.take(n + 1).drop_last() == items.take(n));
        lemma_bind_all_prefix(names, scope, items, n + 1);
    } else {
        assert(items.take(n) == items);
    }
}

/// A reference that was made is bound, to a declaration of `scope` or of a
/// scope around it.
pub proof fn lemma_bind_is_bound(names: Seq<Declared>, scope: Seq<Seq<char>>, name: Seq<char>)
    ensures
        bind(names, scope, name) matches Ok(r) ==> r.bound_in(names),
        bind(names, scope, name) matches Err(e) ==> e is TypeNotFound,
{
    lemma_resolve(names, scope, name);
}

/// The type that a parameter type was legalized to is bound.
pub proof fn lemma_type_is_bound(names: Seq<Declared>, scope: Seq<Seq<char>>, syn: ParameterType)
    ensures
        TypeRef::legalized(names, scope, syn) matches Ok(r) ==> r.bound_in(names),
        TypeRef::legalized(names, scope, syn) matches Err(e) ==> e is TypeNotFound,
{
    if let ParameterType::Named(name) = syn {
        lemma_bind_is_bound(names, scope, name@);
    }
}

/// The references that were made for a list of names are as many as the
/// names, and each is bound.
pub proof fn lemma_bind_all_is_bound(
    names: Seq<Declared>,
    scope: Seq<Seq<char>>,
    items: Seq<String>,
)
    ensures
        bind_all(names, scope, items) matches Ok(refs) ==> refs.len() == items.len() && all_bound(
            refs,
            names,
        ),
        bind_all(names, scope, items) matches Err(e) ==> e is TypeNotFound,
    decreases items.len(),
{
    if items.len() > 0 {
        lemma_bind_all_is_bound(names, scope, items.drop_last());
        lemma_bind_is_bound(names, scope, items.last()@);
    }
}

/// The views of a list of references, in the same order.
pub open spec fn type_refs_view(refs: Seq<TypeRef>) -> Seq<TypeRefView> {
    refs.map_values(|r: TypeRef| r@)
}

impl TypeRef {
    /// Binds the reference that `name` makes in `scope`.
    pub fn lookup(ns: &Namespace, scope: &Scope, name: &String) -> (r: Result<
        TypeRef,
        SemanticError,
    >)
        ensures
            match r {
                Ok(ty) => bind(ns@, scope@, name@) == Ok::<TypeRefView, SemanticErrorView>(ty@),
                Err(e) => bind(ns@, scope@, name@) == Err::<TypeRefView, SemanticErrorView>(e@),
            },
    {
        match ns.lookup(scope, name) {
            Some(i) => {
                let entry = ns.get(i);
                Ok(
                    TypeRef::Named {
                        name: name.clone(),
                        scope: entry.scope.clone(),
                        kind: entry.kind,
                    },
                )
            },
            None => Err(SemanticError::TypeNotFound { name: name.clone(), scope: scope.clone() }),
        }
    }

    /// Binds the reference that `name` makes with the schema that declares
    /// it.
    pub fn lookup_qualified(ns: &Namespace, schema: &String, name: &String) -> (r: Result<
        TypeRef,
        SemanticError,
    >)
        ensures
            match r {
                Ok(ty) => bind_qualified(ns@, schema@, name@) == Ok::<
                    TypeRefView,
                    SemanticErrorView,
                >(ty@),
                Err(e) => bind_qualified(ns@, schema@, name@) == Err::<
                    TypeRefView,
                    SemanticErrorView,
                >(e@),
            },
    {
        let scope = Scope::root().pushed(schema.as_str());
        assert(scope@ == seq![schema@]);
        match ns.lookup_in(&scope, name) {
            Some(i) => Ok(TypeRef::Named { name: name.clone(), scope, kind: ns.get(i).kind }),
            None => Err(SemanticError::TypeNotFound { name: name.clone(), scope }),
        }
    }

    /// Binds the references that a list of names makes in `scope`, in their
    /// order, and stops at the first name that makes none.
    pub fn lookup_all(ns: &Namespace, scope: &Scope, items: &Vec<String>) -> (r: Result<
        Vec<TypeRef>,
        SemanticError,
    >)
        ensures
            match r {
                Ok(refs) => bind_all(ns@, scope@, items@) == Ok::<
                    Seq<TypeRefView>,
                    SemanticErrorView,
                >(type_refs_view(refs@)),
                Err(e) => bind_all(ns@, scope@, items@) == Err::<
                    Seq<TypeRefView>,
                    SemanticErrorView,
                >(e@),
            },
    {
        let mut refs: Vec<TypeRef> = Vec::new();
        let mut i: usize = 0;
        assert(type_refs_view(refs@) =~= Seq::<TypeRefView>::empty());
        while i < items.len()
            invariant
                i <= items.len(),
                bind_all(ns@, scope@, items@.take(i as int)) == Ok::<
                    Seq<TypeRefView>,
                    SemanticErrorView,
                >(type_refs_view(refs@)),
            decreases items.len() - i,
        {
            assert(items@.take(i + 1).drop_last() == items@.take(i as int));
            assert(items@.take(i + 1).last() == items@[i as int]);
            match TypeRef::lookup(ns, scope, &items[i]) {
                Ok(ty) => {
                    let ghost before = refs@;
                    refs.push(ty);
                    assert(type_refs_view(refs@) =~= type_refs_view(before).push(ty@));
                },
                Err(e) => {
                    proof {
                        lemma_bind_all_prefix(ns@, scope@, items@, i + 1);
                    }
                    return Err(e);
                },
            }
            i += 1;
        }
        assert(items@.take(items.len() as int) == items@);
        Ok(refs)
    }
}

impl Legalize for TypeRef {
    type Input = ParameterType;

    open spec fn legalized(names: Seq<Declared>, scope: Seq<Seq<char>>, syn: ParameterType) -> Result<
        TypeRefView,
        SemanticErrorView,
    > {
        match syn {
            ParameterType::Simple(t) => Ok(TypeRefView::Simple(t)),
            ParameterType::Named(name) => bind(names, scope, name@),
            ParameterType::Qualified { schema, name } => bind_qualified(names, schema@, name@),
        }
    }

    fn legalize(ns: &Namespace, scope: &Scope, syn: &ParameterType) -> (r: Result<
        TypeRef,
        SemanticError,
    >) {
        match syn {
            ParameterType::Simple(t) => Ok(TypeRef::Simple(*t)),
            ParameterType::Named(name) => TypeRef::lookup(ns, scope, name),
            ParameterType::Qualified { schema, name } => TypeRef::lookup_qualified(ns, schema, name),
        }
    }
}

} // verus!
