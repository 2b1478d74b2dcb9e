use espr::ast::schema::{
    Attribute, Entity, Function, ParameterType, Schema, SimpleType, SyntaxTree, TypeDecl,
    UnderlyingType,
};
use espr::semantics::error::SemanticError;
use espr::semantics::ir::IR;
use espr::semantics::legalize::Legalize;
use espr::semantics::namespace::{IdentifierType, Namespace};
use espr::semantics::scope::Scope;
use espr::semantics::type_ref::TypeRef;

fn scope(names: &[&str]) -> Scope {
    Scope { path: names.iter().map(|n| n.to_string()).collect() }
}

fn attribute(name: &str, ty: &str) -> Attribute {
    Attribute { name: name.to_string(), ty: ParameterType::Named(ty.to_string()), optional: false }
}

fn entity(name: &str, attributes: Vec<Attribute>) -> Entity {
    Entity { name: name.to_string(), attributes }
}

fn schema(name: &str, types: Vec<TypeDecl>, entities: Vec<Entity>) -> Schema {
    Schema { name: name.to_string(), types, entities, functions: vec![] }
}

fn named(name: &str, scope_names: &[&str], kind: IdentifierType) -> TypeRef {
    TypeRef::Named { name: name.to_string(), scope: scope(scope_names), kind }
}

#[test]
fn mutual_references_are_bound() {
    let st = SyntaxTree {
        schemas: vec![schema(
            "s",
            vec![],
            vec![entity("a", vec![attribute("x", "b")]), entity("b", vec![attribute("y", "a")])],
        )],
    };
    let ir = IR::from_syntax_tree(&st).unwrap();
    assert_eq!(ir.schemas.len(), 1);
    let entities = &ir.schemas[0].entities;
    assert_eq!(entities.len(), 2);
    assert_eq!(entities[0].name, "a");
    assert_eq!(entities[0].attributes[0].name, "x");
    assert_eq!(entities[0].attributes[0].ty, named("b", &["s"], IdentifierType::Entity));
    assert_eq!(entities[1].name, "b");
    assert_eq!(entities[1].attributes[0].ty, named("a", &["s"], IdentifierType::Entity));
}

#[test]
fn undefined_type_is_not_found() {
    let st = SyntaxTree {
        schemas: vec![schema(
            "s",
            vec![],
            vec![entity("a", vec![attribute("x", "a"), attribute("y", "T"), attribute("z", "U")])],
        )],
    };
    assert_eq!(
        IR::from_syntax_tree(&st),
        Err(SemanticError::TypeNotFound { name: "T".to_string(), scope: scope(&["s", "a"]) })
    );
}

#[test]
fn duplicate_declaration_is_refused_first() {
    let st = SyntaxTree {
        schemas: vec![schema(
            "s",
            vec![TypeDecl {
                name: "a".to_string(),
                underlying_type: UnderlyingType::Reference("missing".to_string()),
            }],
            vec![entity("b", vec![]), entity("a", vec![])],
        )],
    };
    let duplicate =
        SemanticError::DuplicateDeclaration { name: "a".to_string(), scope: scope(&["s"]) };
    assert_eq!(Namespace::new(&st), Err(duplicate.clone()));
    assert_eq!(IR::from_syntax_tree(&st), Err(duplicate));
}

#[test]
fn duplicate_schema_is_refused() {
    let st = SyntaxTree { schemas: vec![schema("s", vec![], vec![]), schema("s", vec![], vec![])] };
    assert_eq!(
        Namespace::new(&st),
        Err(SemanticError::DuplicateDeclaration { name: "s".to_string(), scope: scope(&[]) })
    );
}

#[test]
fn same_name_in_two_schemas_is_accepted() {
    let st = SyntaxTree {
        schemas: vec![
            schema("s1", vec![], vec![entity("a", vec![attribute("x", "a")])]),
            schema("s2", vec![], vec![entity("a", vec![attribute("x", "a")])]),
        ],
    };
    let ir = IR::from_syntax_tree(&st).unwrap();
    assert_eq!(
        ir.schemas[0].entities[0].attributes[0].ty,
        named("a", &["s1"], IdentifierType::Entity)
    );
    assert_eq!(
        ir.schemas[1].entities[0].attributes[0].ty,
        named("a", &["s2"], IdentifierType::Entity)
    );
}

#[test]
fn namespace_lists_names_in_document_order() {
    let st = SyntaxTree {
        schemas: vec![Schema {
            name: "s".to_string(),
            types: vec![TypeDecl {
                name: "label".to_string(),
                underlying_type: UnderlyingType::Simple(SimpleType::String),
            }],
            entities: vec![entity("a", vec![])],
            functions: vec![Function {
                name: "f".to_string(),
                return_type: ParameterType::Named("label".to_string()),
            }],
        }],
    };
    let ns = Namespace::new(&st).unwrap();
    let names: Vec<(Vec<String>, String, IdentifierType, usize, usize)> = ns
        .entries
        .iter()
        .map(|e| (e.scope.path.clone(), e.name.clone(), e.kind, e.schema, e.index))
        .collect();
    assert_eq!(
        names,
        vec![
            (vec![], "s".to_string(), IdentifierType::Schema, 0, 0),
            (vec!["s".to_string()], "label".to_string(), IdentifierType::Type, 0, 0),
            (vec!["s".to_string()], "a".to_string(), IdentifierType::Entity, 0, 0),
            (vec!["s".to_string()], "f".to_string(), IdentifierType::Function, 0, 0),
        ]
    );
    assert_eq!(ns.len(), 4);
    assert_eq!(ns.lookup(&scope(&["s", "a"]), &"label".to_string()), Some(1));
    assert_eq!(ns.lookup(&scope(&["s"]), &"a".to_string()), Some(2));
    assert_eq!(ns.lookup(&scope(&["s"]), &"f".to_string()), None);
    assert_eq!(ns.lookup(&scope(&["s"]), &"s".to_string()), None);
    assert_eq!(ns.lookup(&scope(&[]), &"a".to_string()), None);
    assert_eq!(ns.lookup(&scope(&["t"]), &"a".to_string()), None);

    let ir = IR::legalize(&ns, &Scope::root(), &st).unwrap();
    assert_eq!(ir.schemas[0].functions[0].return_type, named("label", &["s"], IdentifierType::Type));
}

#[test]
fn select_binds_each_item() {
    let select = |items: &[&str]| TypeDecl {
        name: "choice".to_string(),
        underlying_type: UnderlyingType::Select(items.iter().map(|n| n.to_string()).collect()),
    };
    let st = SyntaxTree {
        schemas: vec![schema("s", vec![select(&["a", "choice"])], vec![entity("a", vec![])])],
    };
    let ir = IR::from_syntax_tree(&st).unwrap();
    assert_eq!(
        ir.schemas[0].types[0].underlying_type,
        espr::semantics::type_decl::UnderlyingType::Select(vec![
            named("a", &["s"], IdentifierType::Entity),
            named("choice", &["s"], IdentifierType::Type),
        ])
    );

    let st = SyntaxTree {
        schemas: vec![schema("s", vec![select(&["a", "b", "c"])], vec![entity("a", vec![])])],
    };
    assert_eq!(
        IR::from_syntax_tree(&st),
        Err(SemanticError::TypeNotFound { name: "b".to_string(), scope: scope(&["s", "choice"]) })
    );
}

#[test]
fn scope_is_extended_by_value() {
    let root = Scope::root();
    let s = root.pushed("s");
    let a = s.pushed("a");
    let b = s.pushed("b");
    assert_eq!(root, scope(&[]));
    assert_eq!(s, scope(&["s"]));
    assert_eq!(a, scope(&["s", "a"]));
    assert_eq!(b, scope(&["s", "b"]));
    assert_eq!(a.popped(), Some(s.clone()));
    assert_eq!(root.popped(), None);
    assert_eq!(a.depth(), 2);
    assert_eq!(a.prefix(1), s);
    assert!(s.is_prefix(&a, 1));
    assert!(!a.is_prefix(&b, 2));
    assert!(a.same(&scope(&["s", "a"])));
    assert!(!a.same(&b));
}

#[test]
fn qualified_reference_reaches_another_schema() {
    let qualified = |schema: &str, name: &str| Attribute {
        name: "x".to_string(),
        ty: ParameterType::Qualified { schema: schema.to_string(), name: name.to_string() },
        optional: true,
    };
    let st = SyntaxTree {
        schemas: vec![
            schema("s1", vec![], vec![entity("a", vec![qualified("s2", "b")])]),
            schema("s2", vec![], vec![entity("b", vec![attribute("y", "b")])]),
        ],
    };
    let ir = IR::from_syntax_tree(&st).unwrap();
    let x = &ir.schemas[0].entities[0].attributes[0];
    assert_eq!(x.ty, named("b", &["s2"], IdentifierType::Entity));
    assert!(x.optional);

    let st = SyntaxTree {
        schemas: vec![
            schema("s1", vec![], vec![entity("a", vec![attribute("x", "b")])]),
            schema("s2", vec![], vec![entity("b", vec![])]),
        ],
    };
    assert_eq!(
        IR::from_syntax_tree(&st),
        Err(SemanticError::TypeNotFound { name: "b".to_string(), scope: scope(&["s1", "a"]) })
    );

    let st = SyntaxTree {
        schemas: vec![
            schema("s1", vec![], vec![entity("a", vec![qualified("s2", "a")])]),
            schema("s2", vec![], vec![entity("b", vec![])]),
        ],
    };
    assert_eq!(
        IR::from_syntax_tree(&st),
        Err(SemanticError::TypeNotFound { name: "a".to_string(), scope: scope(&["s2"]) })
    );
}
