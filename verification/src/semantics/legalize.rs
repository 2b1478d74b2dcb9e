//! Legalization of one node of the syntax tree, and of a list of them.

use super::error::{SemanticError, SemanticErrorView};
use super::namespace::{Declared, Namespace};
use super::scope::Scope;
use vstd::prelude::*;

verus! {

/// What a list of legalized nodes holds, or the error.
pub open spec fn results_view<T: View>(r: Result<Vec<T>, SemanticError>) -> Result<
    Seq<T::V>,
    SemanticErrorView,
> {
    match r {
        Ok(nodes) => Ok(nodes@.map_values(|node: T| node@)),
        Err(e) => Err(e@),
    }
}

/// What a legalized node holds, or the error.
pub open spec fn result_view<T: View>(r: Result<T, SemanticError>) -> Result<
    T::V,
    SemanticErrorView,
> {
    match r {
        Ok(node) => Ok(node@),
        Err(e) => Err(e@),
    }
}

/// The nodes of `front` followed by `item`. The first error stands: that of
/// `front`, or else that of `item`.
pub open spec fn followed_by<V>(
    front: Result<Seq<V>, SemanticErrorView>,
    item: Result<V, SemanticErrorView>,
) -> Result<Seq<V>, SemanticErrorView> {
    match front {
        Ok(nodes) => match item {
            Ok(node) => Ok(nodes.push(node)),
            Err(e) => Err(e),
        },
        Err(e) => Err(e),
    }
}

/// Legalization of one kind of node of the syntax tree: from the namespace
/// of the document, the scope in which the node stands and the node, to the
/// node with its references bound, or to the first error.
pub trait Legalize: Sized + View {
    /// The node of the syntax tree.
    type Input;

    /// What legalization gives for `syn` in `scope`, with `names` for the
    /// names of the document.
    spec fn legalized(names: Seq<Declared>, scope: Seq<Seq<char>>, syn: Self::Input) -> Result<
        Self::V,
        SemanticErrorView,
    >;

    fn legalize(ns: &Namespace, scope: &Scope, syn: &Self::Input) -> (r: Result<
        Self,
        SemanticError,
    >)
        ensures
            result_view(r) == Self::legalized(ns@, scope@, *syn),
    ;
}

/// What legalization gives for a list of nodes: the legalized nodes in the
/// same order, or the error of the first node that has one.
pub open spec fn legalized_all<T: Legalize>(
    names: Seq<Declared>,
    scope: Seq<Seq<char>>,
    items: Seq<T::Input>,
) -> Result<Seq<T::V>, SemanticErrorView>
    decreases items.len(),
{
    if items.len() == 0 {
        Ok(Seq::empty())
    } else {
        followed_by(
            legalized_all::<T>(names, scope, items.drop_last()),
            T::legalized(names, scope, items.last()),
        )
    }
}

/// Legalizes the nodes of a list in their order and stops at the first
/// error.
pub fn legalize_all<T: Legalize>(ns: &Namespace, scope: &Scope, items: &Vec<T::Input>) -> (r:
    Result<Vec<T>, SemanticError>)
    ensures
        results_view(r) == legalized_all::<T>(ns@, scope@, items@),
{
    let mut nodes: Vec<T> = Vec::new();
    let mut i: usize = 0;
    assert(nodes@.map_values(|node: T| node@) =~= Seq::<T::V>::empty());
    while i < items.len()
        invariant
            i <= items.len(),
            legalized_all::<T>(ns@, scope@, items@.take(i as int)) == Ok::<
                Seq<T::V>,
                SemanticErrorView,
            >(nodes@.map_values(|node: T| node@)),
        decreases items.len() - i,
    {
        assert(items@.take(i + 1).drop_last() == items@.take(i as int));
        assert(items@.take(i + 1).last() == items@[i as int]);
        match T::legalize(ns, scope, &items[i]) {
            Ok(node) => {
                let ghost before = nodes@;
                nodes.push(node);
                assert(nodes@.map_values(|node: T| node@) =~= before.map_values(|node: T| node@).push(
                    node@,
                ));
            },
            Err(e) => {
                proof {
                    lemma_legalized_all_prefix::<T>(ns@, scope@, items@, i + 1);
                }
                return Err(e);
            },
        }
        i += 1;
    }
    assert(items@.take(items.len() as int) == items@);
    Ok(nodes)
}

/// An error among the first `n` nodes is the error of the whole list.
pub proof fn lemma_legalized_all_prefix<T: Legalize>(
    names: Seq<Declared>,
    scope: Seq<Seq<char>>,
    items: Seq<T::Input>,
    n: int,
)
    requires
        0 <= n <= items.len(),
        legalized_all::<T>(names, scope, items.take(n)) is Err,
    ensures
        legalized_all::<T>(names, scope, items) == legalized_all::<T>(names, scope, items.take(n)),
    decreases items.len() - n,
{
    if n < items.len() {
        assert(items.take(n + 1).drop_last() == items.take(n));
        lemma_legalized_all_prefix::<T>(names, scope, items, n + 1);
    } else {
        assert(items.take(n) == items);
    }
}

/// The nodes of `front` followed by those of `back`. The first error
/// stands: that of `front`, or else that of `back`.
pub open spec fn joined<V>(
    front: Result<Seq<V>, SemanticErrorView>,
    back: Result<Seq<V>, SemanticErrorView>,
) -> Result<Seq<V>, SemanticErrorView> {
    match front {
        Ok(first) => match back {
            Ok(second) => Ok(first + second),
            Err(e) => Err(e),
        },
        Err(e) => Err(e),
    }
}

/// Two lists of nodes can be legalized apart from one another: what the two
/// give, put together in the order of the lists, is what the whole gives.
pub proof fn lemma_legalized_all_joined<T: Legalize>(
    names: Seq<Declared>,
    scope: Seq<Seq<char>>,
    front: Seq<T::Input>,
    back: Seq<T::Input>,
)
    ensures
        legalized_all::<T>(names, scope, front + back) == joined(
            legalized_all::<T>(names, scope, front),
            legalized_all::<T>(names, scope, back),
        ),
    decreases back.len(),
{
    if back.len() == 0 {
        assert(front + back == front);
        if let Ok(first) = legalized_all::<T>(names, scope, front) {
            assert(first + Seq::<T::V>::empty() == first);
        }
    } else {
        lemma_legalized_all_joined::<T>(names, scope, front, back.drop_last());
        assert((front + back).drop_last() == front + back.drop_last());
        assert((front + back).last() == back.last());
        if let Ok(first) = legalized_all::<T>(names, scope, front) {
            if let Ok(second) = legalized_all::<T>(names, scope, back.drop_last()) {
                if let Ok(node) = T::legalized(names, scope, back.last()) {
                    assert((first + second).push(node) == first + second.push(node));
                }
            }
        }
    }
}

} // verus!
