use espr::holder::{
    attribute_name, attribute_names, crate_path, field_plan, field_plans, holder_name, numeral,
    select_names, step_name, visitor_name, CratePath, Field, FieldKind, FieldType, FoundCrate,
    IntoOwned, SelectNames, TypePath,
};
use espr::semantics::ir::source_file;

#[test]
fn holder_and_visitor_names() {
    assert_eq!(holder_name("Struct"), "StructHolder");
    assert_eq!(holder_name(""), "Holder");
    assert_eq!(visitor_name("Struct"), "StructVisitor");
    assert_eq!(visitor_name(&holder_name("A")), "AHolderVisitor");
}

#[test]
fn step_names_are_upper_case_with_underscores() {
    assert_eq!(step_name("FooBar"), Some("FOO_BAR".to_string()));
    assert_eq!(step_name("fooBar3"), Some("FOO_BAR_3".to_string()));
    assert_eq!(step_name("A"), Some("A".to_string()));
    assert_eq!(step_name("cartesian_point"), Some("CARTESIAN_POINT".to_string()));
    assert_eq!(step_name(""), Some(String::new()));
}

#[test]
fn select_names_of_a_select_type() {
    let variants = vec!["CartesianPoint".to_string(), "Line".to_string()];
    assert_eq!(
        select_names("GeometricItem", &variants),
        Some(SelectNames {
            name: "GEOMETRIC_ITEM".to_string(),
            holder: "GeometricItemHolder".to_string(),
            holder_visitor: "GeometricItemHolderVisitor".to_string(),
            variant_names: vec!["CARTESIAN_POINT".to_string(), "LINE".to_string()],
        })
    );
    assert_eq!(
        select_names("S", &vec![]),
        Some(SelectNames {
            name: "S".to_string(),
            holder: "SHolder".to_string(),
            holder_visitor: "SHolderVisitor".to_string(),
            variant_names: vec![],
        })
    );
}

#[test]
fn crate_paths() {
    let path = |leading_colon: bool, name: &str| CratePath { leading_colon, name: name.to_string() };
    assert_eq!(crate_path(&FoundCrate::Itself, false), path(false, "crate"));
    assert_eq!(crate_path(&FoundCrate::Itself, true), path(true, "ruststep"));
    assert_eq!(crate_path(&FoundCrate::Name("step".to_string()), false), path(true, "step"));
    assert_eq!(crate_path(&FoundCrate::Name("step".to_string()), true), path(true, "step"));
}

#[test]
fn plans_of_fields() {
    let field = |place_holder: bool, kind: FieldKind| Field { place_holder, kind };
    assert_eq!(field_plan(field(false, FieldKind::Path)), Some(IntoOwned::Keep));
    assert_eq!(field_plan(field(false, FieldKind::Boxed)), Some(IntoOwned::Keep));
    assert_eq!(field_plan(field(true, FieldKind::Path)), Some(IntoOwned::Resolve));
    assert_eq!(field_plan(field(true, FieldKind::Optional)), Some(IntoOwned::ResolveOptional));
    assert_eq!(field_plan(field(true, FieldKind::List)), Some(IntoOwned::ResolveList));
    assert_eq!(field_plan(field(true, FieldKind::Boxed)), None);

    assert_eq!(field_plans(&vec![]), Ok(vec![]));
    assert_eq!(
        field_plans(&vec![
            field(false, FieldKind::Path),
            field(true, FieldKind::List),
            field(true, FieldKind::Path),
            field(false, FieldKind::Optional),
        ]),
        Ok(vec![IntoOwned::Keep, IntoOwned::ResolveList, IntoOwned::Resolve, IntoOwned::Keep])
    );
    assert_eq!(
        field_plans(&vec![
            field(true, FieldKind::Path),
            field(true, FieldKind::Boxed),
            field(false, FieldKind::Path),
            field(true, FieldKind::Boxed),
        ]),
        Err(1)
    );
}

#[test]
fn numerals_and_attribute_names() {
    assert_eq!(numeral(0), "0");
    assert_eq!(numeral(7), "7");
    assert_eq!(numeral(10), "10");
    assert_eq!(numeral(1234567890), "1234567890");
    assert_eq!(numeral(usize::MAX), usize::MAX.to_string());
    assert_eq!(attribute_name(0), "a_0");
    assert_eq!(attribute_name(105), "a_105");
    assert_eq!(attribute_names(0), Vec::<String>::new());
    let names = attribute_names(12);
    assert_eq!(names.len(), 12);
    for (i, name) in names.iter().enumerate() {
        assert_eq!(*name, format!("a_{}", i));
    }
}

#[test]
fn source_file_begins_with_the_allowance() {
    assert_eq!(source_file(""), "#![allow(dead_code)]\n");
    assert_eq!(source_file("pub mod s { }"), "#![allow(dead_code)]\npub mod s { }");
}

fn argument(segment: &syn::PathSegment) -> Option<&syn::Type> {
    match &segment.arguments {
        syn::PathArguments::AngleBracketed(args) => match args.args.first() {
            Some(syn::GenericArgument::Type(ty)) => Some(ty),
            _ => None,
        },
        _ => None,
    }
}

fn field_type(ty: &syn::Type) -> FieldType {
    let path = match ty {
        syn::Type::Path(ty) => &ty.path,
        _ => panic!("not a path"),
    };
    let first = &path.segments[0];
    match argument(first) {
        Some(inner) if first.ident == "Option" => FieldType::Optional(Box::new(field_type(inner))),
        Some(inner) if first.ident == "Vec" => FieldType::List(Box::new(field_type(inner))),
        Some(inner) if first.ident == "Box" => FieldType::Boxed(Box::new(field_type(inner))),
        Some(inner) if first.ident == "PlaceHolder" => {
            FieldType::PlaceHolder(Box::new(field_type(inner)))
        }
        _ => FieldType::Path(TypePath {
            leading_colon: path.leading_colon.is_some(),
            segments: path.segments.iter().map(|s| s.ident.to_string()).collect(),
        }),
    }
}

#[test]
fn holder_path() {
    let path = syn::parse_str("::some::Struct").unwrap();
    let holder = field_type(&path).as_holder();
    let ans = syn::parse_str("::some::StructHolder").unwrap();
    assert_eq!(holder, field_type(&ans));
}

#[test]
fn optional_holder_path() {
    let path = syn::parse_str("Option<::some::Struct>").unwrap();
    let holder = field_type(&path).as_holder();
    let ans = syn::parse_str("Option<::some::StructHolder>").unwrap();
    assert_eq!(holder, field_type(&ans));
}

#[test]
fn types_of_holder_fields() {
    let parse = |text: &str| field_type(&syn::parse_str(text).unwrap());
    assert_eq!(parse("A").in_holder(false), parse("A"));
    assert_eq!(parse("A").in_holder(true), parse("PlaceHolder<AHolder>"));
    assert_eq!(parse("Option<m::A>").in_holder(true), parse("Option<PlaceHolder<m::AHolder>>"));
    assert_eq!(parse("Vec<A>").in_holder(true), parse("Vec<PlaceHolder<AHolder>>"));
    assert_eq!(parse("Vec<A>").in_holder(false), parse("Vec<A>"));
    assert_eq!(parse("Box<A>").as_holder(), parse("Box<AHolder>"));
    assert_eq!(parse("PlaceHolder<A>").as_place_holder(), parse("PlaceHolder<A>"));
    assert_eq!(parse("Vec<Option<A>>").as_place_holder(), parse("Vec<Option<PlaceHolder<A>>>"));
    assert_eq!(parse("A").kind(), FieldKind::Path);
    assert_eq!(parse("Option<A>").kind(), FieldKind::Optional);
    assert_eq!(parse("Vec<A>").kind(), FieldKind::List);
    assert_eq!(parse("Box<A>").kind(), FieldKind::Boxed);
    assert_eq!(parse("PlaceHolder<A>").kind(), FieldKind::Path);
    assert_eq!(parse("Vec<m::A>").clone(), parse("Vec<m::A>"));
}
