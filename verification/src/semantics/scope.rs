//! Scopes: the chain of declarations that enclose a place in a document.

use vstd::prelude::*;

verus! {

/// The texts of a list of strings, in the same order.
pub open spec fn texts(names: Seq<String>) -> Seq<Seq<char>> {
    names.map_values(|name: String| name@)
}

/// The names of the declarations that enclose a place, outermost first. The
/// root scope has none; the scope of a schema has the schema's name; the
/// scope of a declaration in it has the schema's name and the declaration's.
/// A scope is never changed: a deeper scope is a new value.
#[derive(Debug, PartialEq, Eq)]
pub struct Scope {
    pub path: Vec<String>,
}

impl View for Scope {
    type V = Seq<Seq<char>>;

    open spec fn view(&self) -> Seq<Seq<char>> {
        texts(self.path@)
    }
}

impl Clone for Scope {
    fn clone(&self) -> (s: Self)
        ensures
            s@ == self@,
    {
        self.prefix(self.path.len())
    }
}

impl Scope {
    /// The scope that encloses every schema.
    pub fn root() -> (s: Scope)
        ensures
            s@ == Seq::<Seq<char>>::empty(),
    {
        let s = Scope { path: Vec::new() };
        assert(s@ =~= Seq::<Seq<char>>::empty());
        s
    }

    /// The number of declarations that enclose the place.
    pub fn depth(&self) -> (n: usize)
        ensures
            n == self@.len(),
    {
        self.path.len()
    }

    /// The scope made of the outermost `n` names.
    pub fn prefix(&self, n: usize) -> (s: Scope)
        requires
            n <= self@.len(),
        ensures
            s@ == self@.take(n as int),
    {
        let mut path: Vec<String> = Vec::new();
        let mut i: usize = 0;
        while i < n
            invariant
                i <= n <= self.path.len(),
                texts(path@) == texts(self.path@).take(i as int),
            decreases n - i,
        {
            let name = self.path[i].clone();
            let ghost before = path@;
            path.push(name);
            assert(texts(path@) =~= texts(before).push(name@));
            assert(texts(self.path@).take(i + 1) =~= texts(self.path@).take(i as int).push(
                self.path@[i as int]@,
            ));
            i += 1;
        }
        Scope { path }
    }

    /// The scope of the declaration `name` within this scope.
    pub fn pushed(&self, name: &str) -> (s: Scope)
        ensures
            s@ == self@.push(name@),
    {
        let Scope { mut path } = self.clone();
        let ghost before = path@;
        path.push(name.to_owned());
        assert(texts(path@) =~= texts(before).push(name@));
        Scope { path }
    }

    /// The scope that encloses this one, if this is not the root.
    pub fn popped(&self) -> (s: Option<Scope>)
        ensures
            match s {
                Some(outer) => self@.len() > 0 && outer@ == self@.drop_last(),
                None => self@.len() == 0,
            },
    {
        if self.path.len() == 0 {
            None
        } else {
            Some(self.prefix(self.path.len() - 1))
        }
    }

    /// Tells whether this scope is the outermost `n` names of `other`.
    pub fn is_prefix(&self, other: &Scope, n: usize) -> (b: bool)
        requires
            n <= other@.len(),
        ensures
            b == (self@ == other@.take(n as int)),
    {
        if self.path.len() != n {
            assert(self@.len() != other@.take(n as int).len());
            return false;
        }
        let mut i: usize = 0;
        while i < n
            invariant
                i <= n,
                n == self.path.len(),
                n <= other.path.len(),
                self@.take(i as int) == other@.take(i as int),
            decreases n - i,
        {
            if self.path[i] != other.path[i] {
                assert(self@[i as int] != other@.take(n as int)[i as int]);
                return false;
            }
            assert(self@.take(i + 1) =~= self@.take(i as int).push(self@[i as int]));
            assert(other@.take(i + 1) =~= other@.take(i as int).push(other@[i as int]));
            i += 1;
        }
        assert(self@.take(n as int) == self@);
        true
    }

    /// Tells whether the two scopes hold the same names.
    pub fn same(&self, other: &Scope) -> (b: bool)
        ensures
            b == (self@ == other@),
    {
        if self.path.len() != other.path.len() {
            return false;
        }
        assert(other@.take(other@.len() as int) == other@);
        self.is_prefix(other, other.path.len())
    }
}

} // verus!
