use rust_mcp::doc_model::{attrs_json, AttrDetail, ReprKindTag};
use rust_mcp::json_tree::JsonValue;
use std::collections::HashMap;

use rust_mcp::doc_extract::{
    resolve_tuple_fields, serialize_generic_params, serialize_where_predicates,
};
use rust_mcp::doc_members::{extract_all, partition_trait_items, RequiredItemRow};
use rust_mcp::doc_model::{
    AttrKind, DeprecationInfo, DocCrate, DocItem, DocItemInner, FnHeaderFlags, GenericsExpr,
    StructShape,
};
use rust_mcp::type_render::{
    BoundExpr, BoundModifier, FnInputExpr, FnSignatureExpr, GenericParamExpr, GenericParamKind,
    PathExpr, SpanLines, TypeExpr, VisibilityKind, WherePredicateExpr,
};

fn item(id_name: Option<&str>, vis: VisibilityKind, inner: DocItemInner) -> DocItem {
    DocItem {
        name: id_name.map(|n| n.to_string()),
        visibility: vis,
        span: Some(SpanLines { begin_line: 1, end_line: 10 }),
        docs: None,
        deprecation: None,
        attrs: vec![],
        attr_details: vec![],
        inner,
    }
}

fn empty_generics() -> GenericsExpr {
    GenericsExpr { params: vec![], where_predicates: vec![] }
}

fn plain_header() -> FnHeaderFlags {
    FnHeaderFlags { is_const: false, is_unsafe: false, is_async: false }
}

fn path_type(p: &str) -> TypeExpr {
    TypeExpr::ResolvedPath(PathExpr { path: p.to_string(), args: None })
}

fn function(inputs: Vec<FnInputExpr>, output: Option<TypeExpr>, has_body: bool) -> DocItemInner {
    DocItemInner::Function {
        generics: empty_generics(),
        sig: FnSignatureExpr { inputs, output: output.map(Box::new) },
        header: plain_header(),
        has_body,
    }
}

fn self_input() -> Vec<FnInputExpr> {
    vec![FnInputExpr { name: "self".to_string(), type_: TypeExpr::Generic("Self".to_string()) }]
}

fn doc_crate(index: HashMap<u32, DocItem>, paths: HashMap<u32, String>) -> DocCrate {
    let mut ids: Vec<u32> = index.keys().copied().collect();
    ids.sort();
    DocCrate { ids, index, paths }
}

fn build_fixture_crate() -> DocCrate {
    let mut index = HashMap::new();
    let mut paths = HashMap::new();

    index.insert(0, item(Some("my_crate"), VisibilityKind::Public, DocItemInner::Module));
    paths.insert(0, "my_crate".to_string());

    index.insert(
        1,
        item(
            Some("Foo"),
            VisibilityKind::Public,
            DocItemInner::Struct {
                shape: StructShape::Plain { fields: vec![10] },
                generics: empty_generics(),
                impls: vec![3],
            },
        ),
    );
    paths.insert(1, "my_crate::Foo".to_string());

    index.insert(
        10,
        item(
            Some("bar"),
            VisibilityKind::Public,
            DocItemInner::StructField(TypeExpr::Primitive("i32".to_string())),
        ),
    );

    index.insert(
        2,
        item(
            Some("helper"),
            VisibilityKind::Public,
            function(vec![], Some(TypeExpr::Primitive("bool".to_string())), true),
        ),
    );
    paths.insert(2, "my_crate::helper".to_string());

    index.insert(
        3,
        item(
            None,
            VisibilityKind::Default,
            DocItemInner::Impl {
                generics: empty_generics(),
                trait_: None,
                for_: path_type("Foo"),
                items: vec![11],
                is_negative: false,
                is_synthetic: false,
                blanket_impl: None,
            },
        ),
    );

    index.insert(
        11,
        item(Some("new"), VisibilityKind::Public, function(vec![], Some(path_type("Foo")), true)),
    );

    index.insert(
        4,
        item(
            Some("MyTrait"),
            VisibilityKind::Public,
            DocItemInner::Trait {
                is_auto: false,
                is_unsafe: false,
                is_dyn_compatible: true,
                items: vec![12, 13],
                generics: empty_generics(),
                bounds: vec![],
            },
        ),
    );
    paths.insert(4, "my_crate::MyTrait".to_string());

    index.insert(12, item(Some("required"), VisibilityKind::Public, function(self_input(), None, false)));
    index.insert(13, item(Some("provided"), VisibilityKind::Public, function(self_input(), None, true)));

    index.insert(
        5,
        item(
            None,
            VisibilityKind::Default,
            DocItemInner::Impl {
                generics: empty_generics(),
                trait_: Some(PathExpr { path: "MyTrait".to_string(), args: None }),
                for_: path_type("Foo"),
                items: vec![14],
                is_negative: false,
                is_synthetic: false,
                blanket_impl: None,
            },
        ),
    );
    index.insert(14, item(Some("required"), VisibilityKind::Public, function(self_input(), None, true)));

    doc_crate(index, paths)
}

#[test]
fn extract_all_produces_symbols_types_impls_traits() {
    let krate = build_fixture_crate();
    let result = extract_all(&krate);

    assert!(!result.symbols.is_empty(), "should extract at least one symbol");
    let sym_names: Vec<&str> = result.symbols.iter().map(|s| s.name.as_str()).collect();
    assert!(sym_names.contains(&"Foo"), "should contain struct Foo");
    assert!(sym_names.contains(&"helper"), "should contain function helper");
    assert!(sym_names.contains(&"MyTrait"), "should contain trait MyTrait");

    assert!(!result.types.is_empty(), "should extract at least one type");
    let type_names: Vec<&str> = result.types.iter().map(|t| t.name.as_str()).collect();
    assert!(type_names.contains(&"Foo"), "should contain type Foo");
    let foo_type = result.types.iter().find(|t| t.name == "Foo").unwrap();
    assert_eq!(foo_type.kind, "struct");
    assert_eq!(foo_type.rustdoc_item_id, Some(1));
    assert_eq!(foo_type.fields.len(), 1, "Foo should have one field");
    assert_eq!(foo_type.fields[0].name.as_deref(), Some("bar"));

    assert!(
        result.impls.len() >= 2,
        "should have at least 2 impls (inherent + trait), got {}",
        result.impls.len()
    );
    let inherent = result.impls.iter().find(|i| i.for_type == "Foo" && i.trait_name.is_none());
    assert!(inherent.is_some(), "should have inherent impl for Foo");
    let inherent = inherent.unwrap();
    assert_eq!(inherent.impl_kind, "inherent");
    assert!(
        inherent.methods.iter().any(|m| m.name == "new"),
        "inherent impl should contain method 'new'"
    );

    let trait_impl = result.impls.iter().find(|i| i.trait_name.as_deref() == Some("MyTrait"));
    assert!(trait_impl.is_some(), "should have trait impl MyTrait for Foo");
    let trait_impl = trait_impl.unwrap();
    assert_eq!(trait_impl.for_type, "Foo");
    assert_eq!(trait_impl.impl_kind, "trait");

    assert!(!result.traits.is_empty(), "should extract at least one trait");
    let my_trait = result
        .traits
        .iter()
        .find(|t| t.trait_name == "MyTrait")
        .expect("should contain MyTrait");
    assert!(!my_trait.is_auto);
    assert!(!my_trait.is_unsafe);
    assert!(my_trait.is_dyn_compatible);
    assert_eq!(my_trait.rustdoc_item_id, Some(4));
    assert!(
        my_trait
            .required_methods
            .iter()
            .any(|m| matches!(m, RequiredItemRow::Method(r) if r.name == "required")),
        "required_methods should contain 'required'"
    );
    assert!(
        my_trait.provided_methods.iter().any(|m| m.name == "provided"),
        "provided_methods should contain 'provided'"
    );
}

#[test]
fn extract_all_prefers_shortest_public_reexport_path_as_canonical() {
    let mut index = HashMap::new();
    let mut paths = HashMap::new();

    index.insert(0, item(Some("my_crate"), VisibilityKind::Public, DocItemInner::Module));
    paths.insert(0, "my_crate".to_string());
    index.insert(10, item(Some("internal"), VisibilityKind::Public, DocItemInner::Module));
    paths.insert(10, "my_crate::internal".to_string());
    index.insert(
        1,
        item(
            Some("InnerError"),
            VisibilityKind::Public,
            DocItemInner::Struct {
                shape: StructShape::Unit,
                generics: empty_generics(),
                impls: vec![],
            },
        ),
    );
    paths.insert(1, "my_crate::internal::InnerError".to_string());
    index.insert(
        2,
        item(
            Some("Error"),
            VisibilityKind::Public,
            DocItemInner::Use { target: Some(1), is_glob: false },
        ),
    );
    paths.insert(2, "my_crate::Error".to_string());

    let krate = doc_crate(index, paths);
    let result = extract_all(&krate);
    let symbol = result
        .symbols
        .iter()
        .find(|symbol| symbol.name == "InnerError")
        .expect("expected rustdoc symbol for re-exported type");
    assert_eq!(symbol.definition_path.as_deref(), Some("my_crate::internal::InnerError"));
    assert_eq!(symbol.canonical_path.as_deref(), Some("my_crate::Error"));
}

#[test]
fn extract_all_handles_deprecated_items() {
    let mut krate = build_fixture_crate();
    if let Some(foo) = krate.index.get_mut(&1) {
        foo.deprecation = Some(DeprecationInfo {
            since: Some("2.0.0".to_string()),
            note: Some("use Bar instead".to_string()),
        });
    }

    let result = extract_all(&krate);
    let foo_sym = result.symbols.iter().find(|s| s.name == "Foo").expect("Foo symbol");
    assert_eq!(foo_sym.deprecated_since.as_deref(), Some("2.0.0"));
    assert_eq!(foo_sym.deprecated_note.as_deref(), Some("use Bar instead"));

    let foo_type = result.types.iter().find(|t| t.name == "Foo").expect("Foo type");
    assert_eq!(foo_type.deprecated_since.as_deref(), Some("2.0.0"));
}

#[test]
fn extract_all_idempotent() {
    let krate = build_fixture_crate();
    let first = extract_all(&krate);
    let second = extract_all(&krate);
    assert_eq!(first.symbols.len(), second.symbols.len());
    assert_eq!(first.types.len(), second.types.len());
    assert_eq!(first.impls.len(), second.impls.len());
    assert_eq!(first.traits.len(), second.traits.len());
}

#[test]
fn symbols_skip_modules_uses_and_blank_names() {
    let mut index = HashMap::new();
    index.insert(0, item(Some("root"), VisibilityKind::Public, DocItemInner::Module));
    index.insert(1, item(Some("  "), VisibilityKind::Public, DocItemInner::Macro));
    index.insert(2, item(Some("  spaced  "), VisibilityKind::Crate, DocItemInner::Macro));
    index.insert(3, item(Some("reexport"), VisibilityKind::Public, DocItemInner::Use { target: None, is_glob: true }));
    let krate = doc_crate(index, HashMap::new());
    let result = extract_all(&krate);
    assert_eq!(result.symbols.len(), 1);
    let s = &result.symbols[0];
    assert_eq!(s.name, "spaced");
    assert_eq!(s.kind, "macro");
    assert_eq!(s.visibility.as_deref(), Some("pub"));
    assert_eq!(s.signature, None);
    assert_eq!((s.start_line, s.end_line), (1, 10));
    assert_eq!(s.canonical_path, None);
    assert_eq!(s.definition_path, None);
}

#[test]
fn generic_params_and_where_clauses_are_rendered() {
    let params = vec![
        GenericParamExpr {
            name: "'a".to_string(),
            kind: GenericParamKind::Lifetime { outlives: vec!["'b".to_string(), "'c".to_string()] },
        },
        GenericParamExpr {
            name: "T".to_string(),
            kind: GenericParamKind::Type {
                bounds: vec![BoundExpr::TraitBound {
                    trait_: PathExpr { path: "Clone".to_string(), args: None },
                    modifier: BoundModifier::Plain,
                }],
                default: Some(TypeExpr::Primitive("u8".to_string())),
                is_synthetic: true,
            },
        },
        GenericParamExpr {
            name: "N".to_string(),
            kind: GenericParamKind::Const {
                type_: TypeExpr::Primitive("usize".to_string()),
                default: Some("4".to_string()),
            },
        },
    ];
    let rows = serialize_generic_params(&params);
    let rendered: Vec<(&str, &str, &str)> =
        rows.iter().map(|r| (r.name.as_str(), r.kind.as_str(), r.rendered.as_str())).collect();
    assert_eq!(
        rendered,
        vec![
            ("'a", "lifetime", "'a: 'b + 'c"),
            ("T", "type", "T: Clone = u8"),
            ("N", "const", "const N: usize = 4"),
        ]
    );
    let wheres = serialize_where_predicates(&vec![WherePredicateExpr::LifetimePredicate {
        lifetime: "'a".to_string(),
        outlives: vec![],
    }]);
    assert_eq!(wheres, vec!["'a".to_string()]);
}

#[test]
fn tuple_fields_are_named_by_position() {
    let mut index = HashMap::new();
    index.insert(7, item(None, VisibilityKind::Public, DocItemInner::StructField(TypeExpr::Primitive("u8".to_string()))));
    index.insert(8, item(None, VisibilityKind::Default, DocItemInner::StructField(TypeExpr::Primitive("bool".to_string()))));
    index.insert(9, item(Some("m"), VisibilityKind::Public, DocItemInner::Module));
    let rows = resolve_tuple_fields(&vec![Some(7), None, Some(9), Some(8), Some(99)], &index);
    let got: Vec<(Option<&str>, &str, Option<&str>)> = rows
        .iter()
        .map(|r| (r.name.as_deref(), r.type_.as_str(), r.visibility.as_deref()))
        .collect();
    assert_eq!(got, vec![(Some("0"), "u8", Some("public")), (Some("3"), "bool", Some("private"))]);
}

#[test]
fn trait_items_are_partitioned_and_impls_classified() {
    let mut index = HashMap::new();
    index.insert(1, item(Some("run"), VisibilityKind::Public, function(self_input(), None, false)));
    index.insert(
        2,
        item(
            Some("LIMIT"),
            VisibilityKind::Public,
            DocItemInner::AssocConst { type_: TypeExpr::Primitive("u32".to_string()), value: Some("3".to_string()) },
        ),
    );
    index.insert(
        3,
        item(
            Some("Output"),
            VisibilityKind::Public,
            DocItemInner::AssocType {
                bounds: vec![BoundExpr::Outlives("'static".to_string())],
                type_: Some(TypeExpr::Primitive("u8".to_string())),
            },
        ),
    );
    index.insert(4, item(None, VisibilityKind::Public, function(vec![], None, true)));
    let (required, provided, assoc) = partition_trait_items(&vec![1, 2, 3, 4, 5], &index);
    assert_eq!(required.len(), 2);
    assert!(matches!(&required[0], RequiredItemRow::Method(m) if m.signature == "fn run(self: Self)"));
    assert!(matches!(&required[1], RequiredItemRow::AssocConst { name, signature, value }
        if name == "LIMIT" && signature == "const LIMIT: u32" && value.as_deref() == Some("3")));
    assert!(provided.is_empty());
    assert_eq!(assoc.len(), 1);
    assert_eq!(assoc[0].bounds, vec!["'static".to_string()]);
    assert_eq!(assoc[0].default.as_deref(), Some("u8"));

    let mut index = HashMap::new();
    let mut derived = item(
        None,
        VisibilityKind::Default,
        DocItemInner::Impl {
            generics: empty_generics(),
            trait_: Some(PathExpr { path: "core::clone::Clone".to_string(), args: None }),
            for_: path_type("a::Foo"),
            items: vec![],
            is_negative: false,
            is_synthetic: false,
            blanket_impl: None,
        },
    );
    derived.attrs = vec![AttrKind::AutomaticallyDerived];
    index.insert(1, derived);
    index.insert(
        2,
        item(
            None,
            VisibilityKind::Default,
            DocItemInner::Impl {
                generics: empty_generics(),
                trait_: Some(PathExpr { path: "core::marker::Send".to_string(), args: None }),
                for_: path_type("a::Foo"),
                items: vec![],
                is_negative: false,
                is_synthetic: true,
                blanket_impl: None,
            },
        ),
    );
    let mut foo = item(
        Some("Foo"),
        VisibilityKind::Public,
        DocItemInner::Struct { shape: StructShape::Unit, generics: empty_generics(), impls: vec![2, 1, 2] },
    );
    foo.attrs = vec![AttrKind::NonExhaustive];
    index.insert(3, foo);
    let result = extract_all(&doc_crate(index, HashMap::new()));
    let kinds: Vec<(&str, Option<&str>, &str)> = result
        .impls
        .iter()
        .map(|i| (i.for_type.as_str(), i.trait_name.as_deref(), i.impl_kind.as_str()))
        .collect();
    assert_eq!(kinds, vec![("Foo", Some("Clone"), "derive"), ("Foo", Some("Send"), "synthetic")]);
    assert_eq!(result.impls[0].trait_name_display.as_deref(), Some("core::clone::Clone"));
    assert_eq!(result.types.len(), 1);
    assert!(result.types[0].is_non_exhaustive);
    assert_eq!(result.types[0].auto_traits, vec!["Send".to_string()]);
}

fn member<'a>(m: &'a [(String, JsonValue)], key: &str) -> &'a JsonValue {
    &m.iter().find(|(k, _)| k == key).expect("member present").1
}

#[test]
fn attributes_are_stored_with_what_they_carry() {
    assert!(attrs_json(&vec![]).is_none());
    let details = vec![
        AttrDetail::MustUse { reason: None },
        AttrDetail::Repr { kind: ReprKindTag::C, align: Some(8), packed: None, int_type: Some("u8".to_string()) },
        AttrDetail::TargetFeature { enable: vec!["avx2".to_string()] },
        AttrDetail::NonExhaustive,
    ];
    let Some(JsonValue::Array(items)) = attrs_json(&details) else { panic!("array expected") };
    assert_eq!(items.len(), 4);
    let JsonValue::Object(must) = &items[0] else { panic!("object expected") };
    assert!(matches!(member(must, "kind"), JsonValue::Str(s) if s == "must_use"));
    assert!(matches!(member(must, "reason"), JsonValue::Null));
    let JsonValue::Object(repr) = &items[1] else { panic!("object expected") };
    assert_eq!(repr.len(), 5);
    assert!(matches!(member(repr, "kind"), JsonValue::Str(s) if s == "repr"));
    assert!(matches!(member(repr, "repr_kind"), JsonValue::Str(s) if s == "C"));
    assert!(matches!(member(repr, "align"), JsonValue::Number(n) if n == "8"));
    assert!(matches!(member(repr, "packed"), JsonValue::Null));
    assert!(matches!(member(repr, "int"), JsonValue::Str(s) if s == "u8"));
    let JsonValue::Object(tf) = &items[2] else { panic!("object expected") };
    assert!(matches!(member(tf, "enable"), JsonValue::Array(a) if a.len() == 1));
    let JsonValue::Object(ne) = &items[3] else { panic!("object expected") };
    assert_eq!(ne.len(), 1);
    assert!(matches!(member(ne, "kind"), JsonValue::Str(s) if s == "non_exhaustive"));
}
