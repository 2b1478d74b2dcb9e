//! The namespace of a document: every declared name with the scope that
//! declares it and the place of its declaration.

use super::error::{SemanticError, SemanticErrorView};
use super::scope::Scope;
use crate::ast::schema::{Entity, Function, Schema, SyntaxTree, TypeDecl};
use vstd::prelude::*;

verus! {

/// What a name is declared as.
#[derive(Debug, Clone, Copy, PartialEq, Eq, Structural)]
pub enum IdentifierType {
    Schema,
    Type,
    Entity,
    Function,
}

/// One declared name: the scope that declares it, the name, what it is
/// declared as, and where in the document its declaration stands: the index
/// of its schema, and its index among the declarations of its kind in that
/// schema (for a schema, its own index again).
#[derive(Debug, Clone, PartialEq, Eq)]
pub struct Entry {
    pub scope: Scope,
    pub name: String,
    pub kind: IdentifierType,
    pub schema: usize,
    pub index: usize,
}

/// What an [`Entry`] holds, as a mathematical value.
pub struct Declared {
    pub scope: Seq<Seq<char>>,
    pub name: Seq<char>,
    pub kind: IdentifierType,
    pub schema: int,
    pub index: int,
}

impl View for Entry {
    type V = Declared;

    open spec fn view(&self) -> Declared {
        Declared {
            scope: self.scope@,
            name: self.name@,
            kind: self.kind,
            schema: self.schema as int,
            index: self.index as int,
        }
    }
}

/// The views of a list of entries, in the same order.
pub open spec fn entries_view(entries: Seq<Entry>) -> Seq<Declared> {
    entries.map_values(|e: Entry| e@)
}

/// The types that `scope` declares in the schema with index `schema`.
pub open spec fn type_names(scope: Seq<Seq<char>>, schema: int, types: Seq<TypeDecl>) -> Seq<
    Declared,
> {
    Seq::new(
        types.len(),
        |i: int| Declared { scope, name: types[i].name@, kind: IdentifierType::Type, schema, index: i },
    )
}

/// The entities that `scope` declares in the schema with index `schema`.
pub open spec fn entity_names(scope: Seq<Seq<char>>, schema: int, entities: Seq<Entity>) -> Seq<
    Declared,
> {
    Seq::new(
        entities.len(),
        |i: int|
            Declared {
                scope,
                name: entities[i].name@,
                kind: IdentifierType::Entity,
                schema,
                index: i,
            },
    )
}

/// The functions that `scope` declares in the schema with index `schema`.
pub open spec fn function_names(
    scope: Seq<Seq<char>>,
    schema: int,
    functions: Seq<Function>,
) -> Seq<Declared> {
    Seq::new(
        functions.len(),
        |i: int|
            Declared {
                scope,
                name: functions[i].name@,
                kind: IdentifierType::Function,
                schema,
                index: i,
            },
    )
}

/// The name of a schema, which the root scope declares.
pub open spec fn schema_name(schema: Schema, index: int) -> Declared {
    Declared {
        scope: Seq::empty(),
        name: schema.name@,
        kind: IdentifierType::Schema,
        schema: index,
        index,
    }
}

/// The names that the schema with index `index` brings: its own name in the
/// root scope, then in its own scope its types, its entities and its
/// functions.
pub open spec fn schema_names(schema: Schema, index: int) -> Seq<Declared> {
    seq![schema_name(schema, index)] + type_names(seq![schema.name@], index, schema.types@)
        + entity_names(seq![schema.name@], index, schema.entities@) + function_names(
        seq![schema.name@],
        index,
        schema.functions@,
    )
}

/// The names that the first `n` schemas of a document bring.
pub open spec fn declared_upto(st: SyntaxTree, n: int) -> Seq<Declared>
    decreases n,
{
    if n <= 0 {
        Seq::empty()
    } else {
        declared_upto(st, n - 1) + schema_names(st.schemas@[n - 1], n - 1)
    }
}

/// Every name that a document declares, in the order of the document.
pub open spec fn declared(st: SyntaxTree) -> Seq<Declared> {
    declared_upto(st, st.schemas@.len() as int)
}

/// The index of the first of `names` that `scope` declares as `name`.
pub open spec fn find(names: Seq<Declared>, scope: Seq<Seq<char>>, name: Seq<char>) -> Option<int>
    decreases names.len(),
{
    if names.len() == 0 {
        None
    } else {
        match find(names.drop_last(), scope, name) {
            Some(i) => Some(i),
            None => if names.last().scope == scope && names.last().name == name {
                Some(names.len() - 1)
            } else {
                None
            },
        }
    }
}

/// The index of the first of `names` that declares again what an earlier one
/// of the same scope declares.
pub open spec fn first_repeat(names: Seq<Declared>) -> Option<int>
    decreases names.len(),
{
    if names.len() == 0 {
        None
    } else {
        match first_repeat(names.drop_last()) {
            Some(j) => Some(j),
            None => if find(names.drop_last(), names.last().scope, names.last().name) is Some {
                Some(names.len() - 1)
            } else {
                None
            },
        }
    }
}

/// A type or an entity: what a reference to a type can be bound to.
pub open spec fn is_type_like(kind: IdentifierType) -> bool {
    kind is Type || kind is Entity
}

/// The index of the declaration that `name` refers to in `scope`: the type or
/// entity of that name that `scope` declares, or else the one that the
/// nearest scope around it declares.
pub open spec fn resolve(names: Seq<Declared>, scope: Seq<Seq<char>>, name: Seq<char>) -> Option<
    int,
>
    decreases scope.len(),
{
    match find(names, scope, name) {
        Some(i) if is_type_like(names[i].kind) => Some(i),
        _ => if scope.len() == 0 {
            None
        } else {
            resolve(names, scope.drop_last(), name)
        },
    }
}

/// What `find` returns is the index of an entry with that scope and name,
/// and no entry before it has them.
pub proof fn lemma_find(names: Seq<Declared>, scope: Seq<Seq<char>>, name: Seq<char>)
    ensures
        match find(names, scope, name) {
            Some(i) => {
                &&& 0 <= i < names.len()
                &&& names[i].scope == scope
                &&& names[i].name == name
                &&& forall|k: int| 0 <= k < i ==> !(#[trigger] names[k].scope == scope && names[k].name == name)
            },
            None => forall|k: int|
                0 <= k < names.len() ==> !(#[trigger] names[k].scope == scope && names[k].name
                    == name),
        },
    decreases names.len(),
{
    if names.len() > 0 {
        lemma_find(names.drop_last(), scope, name);
        assert forall|k: int| 0 <= k < names.len() - 1 implies names[k] == names.drop_last()[k] by {}
    }
}

/// What is found among the first `n` names is found among all of them.
pub proof fn lemma_find_prefix(
    names: Seq<Declared>,
    n: int,
    scope: Seq<Seq<char>>,
    name: Seq<char>,
)
    requires
        0 <= n <= names.len(),
        find(names.take(n), scope, name) is Some,
    ensures
        find(names, scope, name) == find(names.take(n), scope, name),
    decreases names.len() - n,
{
    if n < names.len() {
        assert(names.take(n + 1).drop_last() == names.take(n));
        lemma_find_prefix(names, n + 1, scope, name);
    } else {
        assert(names.take(n) == names);
    }
}

/// A repeat among the first `n` names is the first repeat among all of them.
pub proof fn lemma_first_repeat_prefix(names: Seq<Declared>, n: int)
    requires
        0 <= n <= names.len(),
        first_repeat(names.take(n)) is Some,
    ensures
        first_repeat(names) == first_repeat(names.take(n)),
    decreases names.len() - n,
{
    if n < names.len() {
        assert(names.take(n + 1).drop_last() == names.take(n));
        lemma_first_repeat_prefix(names, n + 1);
    } else {
        assert(names.take(n) == names);
    }
}

/// Two names of one scope that are the same make a repeat, and a repeat is
/// made by two such names.
pub proof fn lemma_first_repeat(names: Seq<Declared>)
    ensures
        first_repeat(names) is Some <==> exists|i: int, j: int|
            0 <= i < j < names.len() && #[trigger] names[i].scope == names[j].scope
                && names[i].name == #[trigger] names[j].name,
        first_repeat(names) matches Some(j) ==> 0 <= j < names.len() && find(
            names.take(j),
            names[j].scope,
            names[j].name,
        ) is Some,
    decreases names.len(),
{
    if names.len() > 0 {
        let front = names.drop_last();
        let last = names.last();
        lemma_first_repeat(front);
        lemma_find(front, last.scope, last.name);
        assert forall|k: int| 0 <= k < front.len() implies front[k] == names[k] by {}
        match first_repeat(front) {
            Some(j) => {
                assert(names.take(j) == front.take(j));
                let (a, b) = choose|i: int, j: int|
                    0 <= i < j < front.len() && #[trigger] front[i].scope == front[j].scope
                        && front[i].name == #[trigger] front[j].name;
                assert(names[a].scope == names[b].scope && names[a].name == names[b].name);
            },
            None => {
                assert(names.take(names.len() - 1) == front);
                match find(front, last.scope, last.name) {
                    Some(i) => {
                        assert(names[i].scope == names[names.len() - 1].scope && names[i].name
                            == names[names.len() - 1].name);
                    },
                    None => {
                        if exists|i: int, j: int|
                            0 <= i < j < names.len() && #[trigger] names[i].scope
                                == names[j].scope && names[i].name == #[trigger] names[j].name {
                            let (a, b) = choose|i: int, j: int|
                                0 <= i < j < names.len() && #[trigger] names[i].scope
                                    == names[j].scope && names[i].name
                                    == #[trigger] names[j].name;
                            if b < names.len() - 1 {
                                assert(front[a].scope == front[b].scope && front[a].name
                                    == front[b].name);
                            } else {
                                assert(front[a].scope == last.scope && front[a].name == last.name);
                            }
                        }
                    },
                }
            },
        }
    }
}

/// What `resolve` returns is the index of a type or an entity of that name,
/// declared by `scope` or by a scope around it, and the first entry that its
/// scope declares under that name.
pub proof fn lemma_resolve(names: Seq<Declared>, scope: Seq<Seq<char>>, name: Seq<char>)
    ensures
        resolve(names, scope, name) matches Some(i) ==> {
            &&& 0 <= i < names.len()
            &&& names[i].name == name
            &&& is_type_like(names[i].kind)
            &&& names[i].scope.len() <= scope.len()
            &&& names[i].scope == scope.take(names[i].scope.len() as int)
            &&& find(names, names[i].scope, name) == Some(i)
        },
    decreases scope.len(),
{
    lemma_find(names, scope, name);
    assert(scope.take(scope.len() as int) == scope);
    match find(names, scope, name) {
        Some(i) if is_type_like(names[i].kind) => {},
        _ => {
            if scope.len() > 0 {
                lemma_resolve(names, scope.drop_last(), name);
                if let Some(i) = resolve(names, scope.drop_last(), name) {
                    assert(scope.drop_last().take(names[i].scope.len() as int) == scope.take(
                        names[i].scope.len() as int,
                    ));
                }
            }
        },
    }
}

/// Every name of a document is declared by the root scope or by the scope of
/// a schema: the root scope declares the schemas and nothing else.
pub proof fn lemma_declared_scopes(st: SyntaxTree, n: int)
    requires
        0 <= n <= st.schemas@.len(),
    ensures
        forall|i: int|
            0 <= i < declared_upto(st, n).len() ==> {
                let d = #[trigger] declared_upto(st, n)[i];
                d.scope.len() <= 1 && (d.scope.len() == 0 <==> d.kind is Schema)
            },
    decreases n,
{
    if n > 0 {
        lemma_declared_scopes(st, n - 1);
    }
}

/// From the root scope no type and no entity is found: it sees the names of
/// the schemas only.
pub proof fn lemma_root_sees_schemas_only(st: SyntaxTree, name: Seq<char>)
    ensures
        resolve(declared(st), Seq::empty(), name) is None,
{
    lemma_declared_scopes(st, st.schemas@.len() as int);
    lemma_find(declared(st), Seq::empty(), name);
}

/// In a document in which no scope declares a name twice, a type or an
/// entity is found under its name from every scope that lies directly within
/// the scope that declares it, wherever in the document the declaration
/// stands.
pub proof fn lemma_declared_name_resolves(st: SyntaxTree, i: int, inner: Seq<char>)
    requires
        first_repeat(declared(st)) is None,
        0 <= i < declared(st).len(),
        is_type_like(declared(st)[i].kind),
    ensures
        resolve(declared(st), declared(st)[i].scope.push(inner), declared(st)[i].name) == Some(i),
        resolve(declared(st), declared(st)[i].scope, declared(st)[i].name) == Some(i),
{
    let names = declared(st);
    let scope = names[i].scope;
    let name = names[i].name;
    lemma_declared_scopes(st, st.schemas@.len() as int);
    lemma_first_repeat(names);
    lemma_find(names, scope, name);
    lemma_find(names, scope.push(inner), name);
    assert(scope.push(inner).drop_last() == scope);
    let found = find(names, scope, name);
    assert(found is Some);
    if found->0 != i {
        let a = found->0;
        assert(names[a].scope == names[i].scope && names[a].name == names[i].name);
    }
    if let Some(k) = find(names, scope.push(inner), name) {
        assert(names[k].scope.len() == scope.len() + 1);
        assert(names[i].scope.len() == 1);
    }
}

/// The names of a document, each with its scope and the place of its
/// declaration. No scope declares a name twice.
#[derive(Debug, Clone, PartialEq, Eq)]
pub struct Namespace {
    pub entries: Vec<Entry>,
}

impl View for Namespace {
    type V = Seq<Declared>;

    open spec fn view(&self) -> Seq<Declared> {
        entries_view(self.entries@)
    }
}

/// Appends the names of the types of a schema.
fn declare_types(entries: &mut Vec<Entry>, scope: &Scope, schema: usize, types: &Vec<TypeDecl>)
    ensures
        entries_view(final(entries)@) == entries_view(old(entries)@) + type_names(
            scope@,
            schema as int,
            types@,
        ),
{
    let ghost before = entries_view(entries@);
    let ghost all = type_names(scope@, schema as int, types@);
    let mut i: usize = 0;
    while i < types.len()
        invariant
            i <= types.len(),
            all == type_names(scope@, schema as int, types@),
            entries_view(entries@) == before + all.take(i as int),
        decreases types.len() - i,
    {
        let ghost current = entries@;
        entries.push(
            Entry {
                scope: scope.clone(),
                name: types[i].name.clone(),
                kind: IdentifierType::Type,
                schema,
                index: i,
            },
        );
        assert(entries_view(entries@) =~= entries_view(current).push(all[i as int]));
        assert(before + all.take(i + 1) =~= (before + all.take(i as int)).push(all[i as int]));
        i += 1;
    }
    assert(all.take(types.len() as int) == all);
}

/// Appends the names of the entities of a schema.
fn declare_entities(entries: &mut Vec<Entry>, scope: &Scope, schema: usize, entities: &Vec<Entity>)
    ensures
        entries_view(final(entries)@) == entries_view(old(entries)@) + entity_names(
            scope@,
            schema as int,
            entities@,
        ),
{
    let ghost before = entries_view(entries@);
    let ghost all = entity_names(scope@, schema as int, entities@);
    let mut i: usize = 0;
    while i < entities.len()
        invariant
            i <= entities.len(),
            all == entity_names(scope@, schema as int, entities@),
            entries_view(entries@) == before + all.take(i as int),
        decreases entities.len() - i,
    {
        let ghost current = entries@;
        entries.push(
            Entry {
                scope: scope.clone(),
                name: entities[i].name.clone(),
                kind: IdentifierType::Entity,
                schema,
                index: i,
            },
        );
        assert(entries_view(entries@) =~= entries_view(current).push(all[i as int]));
        assert(before + all.take(i + 1) =~= (before + all.take(i as int)).push(all[i as int]));
        i += 1;
    }
    assert(all.take(entities.len() as int) == all);
}

/// Appends the names of the functions of a schema.
fn declare_functions(
    entries: &mut Vec<Entry>,
    scope: &Scope,
    schema: usize,
    functions: &Vec<Function>,
)
    ensures
        entries_view(final(entries)@) == entries_view(old(entries)@) + function_names(
            scope@,
            schema as int,
            functions@,
        ),
{
    let ghost before = entries_view(entries@);
    let ghost all = function_names(scope@, schema as int, functions@);
    let mut i: usize = 0;
    while i < functions.len()
        invariant
            i <= functions.len(),
            all == function_names(scope@, schema as int, functions@),
            entries_view(entries@) == before + all.take(i as int),
        decreases functions.len() - i,
    {
        let ghost current = entries@;
        entries.push(
            Entry {
                scope: scope.clone(),
                name: functions[i].name.clone(),
                kind: IdentifierType::Function,
                schema,
                index: i,
            },
        );
        assert(entries_view(entries@) =~= entries_view(current).push(all[i as int]));
        assert(before + all.take(i + 1) =~= (before + all.take(i as int)).push(all[i as int]));
        i += 1;
    }
    assert(all.take(functions.len() as int) == all);
}

/// Lists every name that the document declares, in the order of the
/// document.
pub fn collect_declared(st: &SyntaxTree) -> (entries: Vec<Entry>)
    ensures
        entries_view(entries@) == declared(*st),
{
    let mut entries: Vec<Entry> = Vec::new();
    let mut i: usize = 0;
    assert(entries_view(entries@) =~= declared_upto(*st, 0));
    while i < st.schemas.len()
        invariant
            i <= st.schemas.len(),
            entries_view(entries@) == declared_upto(*st, i as int),
        decreases st.schemas.len() - i,
    {
        let schema = &st.schemas[i];
        let ghost current = entries@;
        entries.push(
            Entry {
                scope: Scope::root(),
                name: schema.name.clone(),
                kind: IdentifierType::Schema,
                schema: i,
                index: i,
            },
        );
        assert(entries_view(entries@) =~= entries_view(current) + seq![
            schema_name(*schema, i as int),
        ]);
        let scope = Scope::root().pushed(schema.name.as_str());
        assert(scope@ =~= seq![schema.name@]);
        declare_types(&mut entries, &scope, i, &schema.types);
        declare_entities(&mut entries, &scope, i, &schema.entities);
        declare_functions(&mut entries, &scope, i, &schema.functions);
        assert(entries_view(entries@) =~= declared_upto(*st, i as int) + schema_names(
            *schema,
            i as int,
        ));
        i += 1;
    }
    entries
}

/// Finds among the first `n` entries the first that `scope`, cut to its
/// outermost `depth` names, declares as `name`.
pub fn position(entries: &Vec<Entry>, n: usize, scope: &Scope, depth: usize, name: &String) -> (r:
    Option<usize>)
    requires
        n <= entries.len(),
        depth <= scope@.len(),
    ensures
        match r {
            Some(i) => i < n && find(
                entries_view(entries@).take(n as int),
                scope@.take(depth as int),
                name@,
            ) == Some(i as int),
            None => find(entries_view(entries@).take(n as int), scope@.take(depth as int), name@)
                is None,
        },
{
    let ghost names = entries_view(entries@).take(n as int);
    let ghost key = scope@.take(depth as int);
    let mut i: usize = 0;
    while i < n
        invariant
            i <= n <= entries.len(),
            depth <= scope@.len(),
            names == entries_view(entries@).take(n as int),
            key == scope@.take(depth as int),
            find(names.take(i as int), key, name@) is None,
        decreases n - i,
    {
        assert(names.take(i + 1).drop_last() == names.take(i as int));
        assert(names.take(i + 1).last() == entries@[i as int]@);
        if entries[i].scope.is_prefix(scope, depth) && entries[i].name == *name {
            proof {
                lemma_find_prefix(names, i + 1, key, name@);
            }
            return Some(i);
        }
        i += 1;
    }
    assert(names.take(n as int) == names);
    None
}

/// Finds the first entry that declares again what an earlier one declares.
pub fn first_repeated(entries: &Vec<Entry>) -> (r: Option<usize>)
    ensures
        match r {
            Some(j) => j < entries.len() && first_repeat(entries_view(entries@)) == Some(j as int),
            None => first_repeat(entries_view(entries@)) is None,
        },
{
    let ghost names = entries_view(entries@);
    let mut j: usize = 0;
    while j < entries.len()
        invariant
            j <= entries.len(),
            names == entries_view(entries@),
            first_repeat(names.take(j as int)) is None,
        decreases entries.len() - j,
    {
        assert(names.take(j + 1).drop_last() == names.take(j as int));
        assert(names.take(j + 1).last() == entries@[j as int]@);
        let entry = &entries[j];
        assert(entry.scope@.take(entry.scope@.len() as int) == entry.scope@);
        if position(entries, j, &entry.scope, entry.scope.depth(), &entry.name).is_some() {
            proof {
                lemma_first_repeat_prefix(names, j + 1);
            }
            return Some(j);
        }
        j += 1;
    }
    assert(names.take(entries.len() as int) == names);
    None
}

impl Namespace {
    /// No scope declares a name twice.
    pub open spec fn wf(&self) -> bool {
        first_repeat(self@) is None
    }

    /// Builds the namespace of a document in one pass over its schemas. The
    /// document is refused where a scope declares a name twice: the error
    /// names the first declaration that repeats an earlier one.
    pub fn new(st: &SyntaxTree) -> (r: Result<Namespace, SemanticError>)
        ensures
            match first_repeat(declared(*st)) {
                Some(j) => r matches Err(e) && e@ == (SemanticErrorView::DuplicateDeclaration {
                    name: declared(*st)[j].name,
                    scope: declared(*st)[j].scope,
                }),
                None => r matches Ok(ns) && ns@ == declared(*st) && ns.wf(),
            },
    {
        let entries = collect_declared(st);
        match first_repeated(&entries) {
            Some(j) => Err(
                SemanticError::DuplicateDeclaration {
                    name: entries[j].name.clone(),
                    scope: entries[j].scope.clone(),
                },
            ),
            None => Ok(Namespace { entries }),
        }
    }

    /// The number of names.
    pub fn len(&self) -> (n: usize)
        ensures
            n == self@.len(),
    {
        self.entries.len()
    }

    /// The entry with index `i`.
    pub fn get(&self, i: usize) -> (entry: &Entry)
        requires
            i < self@.len(),
        ensures
            entry@ == self@[i as int],
    {
        &self.entries[i]
    }

    /// Finds the type or entity that `scope` itself declares as `name`.
    pub fn lookup_in(&self, scope: &Scope, name: &String) -> (r: Option<usize>)
        ensures
            match r {
                Some(i) => i < self@.len() && find(self@, scope@, name@) == Some(i as int)
                    && is_type_like(self@[i as int].kind),
                None => !(find(self@, scope@, name@) matches Some(i) && is_type_like(
                    self@[i].kind,
                )),
            },
    {
        assert(scope@.take(scope@.len() as int) == scope@);
        assert(self@.take(self@.len() as int) == self@);
        match position(&self.entries, self.entries.len(), scope, scope.depth(), name) {
            Some(i) => {
                let kind = self.entries[i].kind;
                if matches!(kind, IdentifierType::Type | IdentifierType::Entity) {
                    Some(i)
                } else {
                    None
                }
            },
            None => None,
        }
    }

    /// Finds the declaration that `name` refers to in `scope`: the search
    /// goes from `scope` outwards, and the first scope that declares a type
    /// or an entity of that name gives the answer.
    pub fn lookup(&self, scope: &Scope, name: &String) -> (r: Option<usize>)
        ensures
            match r {
                Some(i) => i < self@.len() && resolve(self@, scope@, name@) == Some(i as int),
                None => resolve(self@, scope@, name@) is None,
            },
    {
        let mut depth = scope.depth();
        assert(scope@.take(depth as int) == scope@);
        assert(self@.take(self@.len() as int) == self@);
        loop
            invariant
                depth <= scope@.len(),
                self@.take(self@.len() as int) == self@,
                resolve(self@, scope@, name@) == resolve(self@, scope@.take(depth as int), name@),
            decreases depth,
        {
            match position(&self.entries, self.entries.len(), scope, depth, name) {
                Some(i) => {
                    let kind = self.entries[i].kind;
                    if matches!(kind, IdentifierType::Type | IdentifierType::Entity) {
                        proof {
                            lemma_find(self@, scope@.take(depth as int), name@);
                        }
                        return Some(i);
                    }
                },
                None => {},
            }
            if depth == 0 {
                return None;
            }
            assert(scope@.take(depth as int).drop_last() == scope@.take(depth - 1));
            depth -= 1;
        }
    }
}

} // verus!
