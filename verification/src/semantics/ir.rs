//! The intermediate representation of a document.

use super::error::{SemanticError, SemanticErrorView};
use super::legalize::{legalize_all, legalized_all, result_view, Legalize};
use super::namespace::{declared, first_repeat, lemma_first_repeat, Declared, Namespace};
use super::schema::{lemma_schemas_are_bound, Schema, SchemaView};
use super::scope::Scope;
use crate::ast::schema::SyntaxTree;
use vstd::prelude::*;
use vstd::string::StringExecFns;

verus! {

/// The schemas of a document, in their order, with every reference bound.
#[derive(Debug, Clone, PartialEq, Eq)]
pub struct IR {
    pub schemas: Vec<Schema>,
}

/// What an [`IR`] holds, as a mathematical value.
pub struct IRView {
    pub schemas: Seq<SchemaView>,
}

impl View for IR {
    type V = IRView;

    open spec fn view(&self) -> IRView {
        IRView { schemas: self.schemas@.map_values(|s: Schema| s@) }
    }
}

impl IRView {
    /// True when every reference in the document is bound: none is left
    /// unresolved.
    pub open spec fn bound_in(self, names: Seq<Declared>) -> bool {
        forall|i: int| 0 <= i < self.schemas.len() ==> (#[trigger] self.schemas[i]).bound_in(names)
    }
}

impl Legalize for IR {
    type Input = SyntaxTree;

    /// The schemas are legalized in their order; the first error is the
    /// error of the document.
    open spec fn legalized(names: Seq<Declared>, scope: Seq<Seq<char>>, syn: SyntaxTree) -> Result<
        IRView,
        SemanticErrorView,
    > {
        match legalized_all::<Schema>(names, scope, syn.schemas@) {
            Ok(schemas) => Ok(IRView { schemas }),
            Err(e) => Err(e),
        }
    }

    fn legalize(ns: &Namespace, scope: &Scope, syn: &SyntaxTree) -> (r: Result<IR, SemanticError>) {
        match legalize_all::<Schema>(ns, scope, &syn.schemas) {
            Ok(schemas) => Ok(IR { schemas }),
            Err(e) => Err(e),
        }
    }
}

/// What legalization gives for a document: the error of the first name that
/// is declared twice in one scope; or else, with every name of the document
/// known, the schemas legalized from the root scope.
pub open spec fn legalized_document(st: SyntaxTree) -> Result<IRView, SemanticErrorView> {
    match first_repeat(declared(st)) {
        Some(j) => Err(
            SemanticErrorView::DuplicateDeclaration {
                name: declared(st)[j].name,
                scope: declared(st)[j].scope,
            },
        ),
        None => IR::legalized(declared(st), Seq::empty(), st),
    }
}

/// A legalized document holds no unresolved reference: each is a simple type,
/// or a type or an entity that the document declares. It has as many schemas
/// as the document. Where legalization fails, it fails for a reference that
/// no declaration answers.
pub proof fn lemma_legalized_is_bound(names: Seq<Declared>, scope: Seq<Seq<char>>, st: SyntaxTree)
    ensures
        IR::legalized(names, scope, st) matches Ok(ir) ==> ir.bound_in(names) && ir.schemas.len()
            == st.schemas@.len(),
        IR::legalized(names, scope, st) matches Err(e) ==> e is TypeNotFound,
{
    lemma_schemas_are_bound(names, scope, st.schemas@);
}

/// A document in which one scope declares a name twice is refused with the
/// error of a duplicate declaration, whatever its references are: nothing is
/// legalized before every name of the document is known to be declared once.
pub proof fn lemma_duplicate_is_refused(st: SyntaxTree, i: int, j: int)
    requires
        0 <= i < j < declared(st).len(),
        declared(st)[i].scope == declared(st)[j].scope,
        declared(st)[i].name == declared(st)[j].name,
    ensures
        legalized_document(st) matches Err(e) && e is DuplicateDeclaration,
{
    lemma_first_repeat(declared(st));
}

/// A document in which no scope declares a name twice is refused only for a
/// reference that no declaration answers.
pub proof fn lemma_distinct_is_legalized(st: SyntaxTree)
    requires
        forall|i: int, j: int|
            0 <= i < j < declared(st).len() ==> !(#[trigger] declared(st)[i].scope
                == declared(st)[j].scope && declared(st)[i].name == #[trigger] declared(st)[j].name),
    ensures
        legalized_document(st) == IR::legalized(declared(st), Seq::empty(), st),
        legalized_document(st) matches Err(e) ==> e is TypeNotFound,
{
    lemma_first_repeat(declared(st));
    lemma_legalized_is_bound(declared(st), Seq::empty(), st);
}

/// The text of a source file that holds `code`: a first line that allows
/// items that nothing uses, then the code.
pub fn source_file(code: &str) -> (r: String)
    ensures
        r@ == "#![allow(dead_code)]\n"@ + code@,
{
    String::from_str("#![allow(dead_code)]\n").concat(code)
}

impl IR {
    /// Legalizes a document. The namespace is built first, from the whole
    /// document; only then are references bound, so that a reference may
    /// stand before the declaration it refers to. Either the whole document
    /// is legalized or an error is returned.
    pub fn from_syntax_tree(st: &SyntaxTree) -> (r: Result<IR, SemanticError>)
        ensures
            result_view(r) == legalized_document(*st),
            r matches Ok(ir) ==> ir@.bound_in(declared(*st)),
    {
        proof {
            lemma_legalized_is_bound(declared(*st), Seq::empty(), *st);
        }
        match Namespace::new(st) {
            Ok(ns) => IR::legalize(&ns, &Scope::root(), st),
            Err(e) => Err(e),
        }
    }
}

} // verus!
