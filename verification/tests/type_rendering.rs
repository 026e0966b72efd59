use rust_mcp::doc_model::{DocItemInner, FnHeaderFlags, GenericsExpr, StructShape};
use rust_mcp::type_render::{
    build_signature, classify_impl_kind, collect_auto_traits, extract_span, item_enum_to_kind,
    path_rank, render_bound, render_fn_pointer, render_fn_signature, render_generic_args,
    render_generic_params_display, render_path, render_type, render_where_predicate,
    type_terminal_name, variant_kind_str, visibility_string, BoundExpr, BoundModifier,
    FnInputExpr, FnSignatureExpr, GenericArgExpr, GenericArgsExpr, GenericParamExpr,
    GenericParamKind, ImplSummary, ItemKindTag, PathExpr, SpanLines, TermExpr,
    TypeExpr, VariantShape, VisibilityKind, WherePredicateExpr,
};

fn path(p: &str) -> PathExpr {
    PathExpr { path: p.to_string(), args: None }
}

fn path_with(p: &str, args: GenericArgsExpr) -> PathExpr {
    PathExpr { path: p.to_string(), args: Some(Box::new(args)) }
}

fn prim(p: &str) -> TypeExpr {
    TypeExpr::Primitive(p.to_string())
}

fn generic(g: &str) -> TypeExpr {
    TypeExpr::Generic(g.to_string())
}

fn angle(args: Vec<GenericArgExpr>) -> GenericArgsExpr {
    GenericArgsExpr::AngleBracketed { args, constraints: vec![] }
}

fn trait_bound(p: &str, modifier: BoundModifier) -> BoundExpr {
    BoundExpr::TraitBound { trait_: path(p), modifier }
}

#[test]
fn render_type_handles_primitive() {
    let rendered = render_type(&TypeExpr::Primitive("u64".into()));
    assert_eq!(rendered, "u64");
}

#[test]
fn render_type_handles_resolved_path() {
    let rendered = render_type(&TypeExpr::ResolvedPath(PathExpr { path: "Vec".into(), args: None }));
    assert_eq!(rendered, "Vec");
}

#[test]
fn visibility_string_maps_correctly() {
    assert_eq!(visibility_string(&VisibilityKind::Public), Some("public".to_string()));
    assert_eq!(visibility_string(&VisibilityKind::Default), Some("private".to_string()));
    assert_eq!(visibility_string(&VisibilityKind::Crate), Some("pub".to_string()));
    assert_eq!(
        visibility_string(&VisibilityKind::Restricted { path: "crate::a".to_string() }),
        Some("pub(in crate::a)".to_string())
    );
}

#[test]
fn references_pointers_and_collections_render_as_source() {
    let r = TypeExpr::BorrowedRef {
        lifetime: Some("'a".to_string()),
        is_mutable: true,
        type_: Box::new(TypeExpr::Slice(Box::new(prim("u8")))),
    };
    assert_eq!(render_type(&r), "&'a mut [u8]");
    let plain = TypeExpr::BorrowedRef { lifetime: None, is_mutable: false, type_: Box::new(prim("str")) };
    assert_eq!(render_type(&plain), "&str");
    let ptr = TypeExpr::RawPointer { is_mutable: false, type_: Box::new(prim("i32")) };
    assert_eq!(render_type(&ptr), "*const i32");
    let arr = TypeExpr::Array { type_: Box::new(prim("u8")), len: "32".to_string() };
    assert_eq!(render_type(&arr), "[u8; 32]");
    let tuple = TypeExpr::Tuple(vec![prim("u8"), generic("T")]);
    assert_eq!(render_type(&tuple), "(u8, T)");
    assert_eq!(render_type(&TypeExpr::Tuple(vec![])), "()");
    assert_eq!(render_type(&TypeExpr::Infer), "_");
    assert_eq!(render_type(&TypeExpr::Pat { type_: Box::new(prim("u32")) }), "u32");
}

#[test]
fn generic_arguments_bounds_and_traits_render() {
    let map = TypeExpr::ResolvedPath(path_with(
        "HashMap",
        GenericArgsExpr::AngleBracketed {
            args: vec![
                GenericArgExpr::Lifetime("'a".to_string()),
                GenericArgExpr::Type(prim("u32")),
                GenericArgExpr::Const("N".to_string()),
                GenericArgExpr::Infer,
            ],
            constraints: vec!["Item".to_string()],
        },
    ));
    assert_eq!(render_type(&map), "HashMap<'a, u32, N, _, Item = ...>");
    assert_eq!(render_generic_args(&angle(vec![])), "");
    let fnargs = GenericArgsExpr::Parenthesized {
        inputs: vec![prim("u8"), prim("u16")],
        output: Some(Box::new(prim("bool"))),
    };
    assert_eq!(render_generic_args(&fnargs), "(u8, u16) -> bool");
    assert_eq!(render_generic_args(&GenericArgsExpr::ReturnTypeNotation), "(..)");
    let imp = TypeExpr::ImplTrait(vec![
        trait_bound("Fn", BoundModifier::Plain),
        trait_bound("Sized", BoundModifier::Maybe),
        BoundExpr::Outlives("'static".to_string()),
    ]);
    assert_eq!(render_type(&imp), "impl Fn + ?Sized + 'static");
    assert_eq!(render_bound(&trait_bound("Drop", BoundModifier::MaybeConst)), "~const Drop");
    assert_eq!(render_bound(&BoundExpr::Use), "use<...>");
    let dyn_t = TypeExpr::DynTrait {
        traits: vec![path("Error"), path("Send")],
        lifetime: Some("'static".to_string()),
    };
    assert_eq!(render_type(&dyn_t), "dyn Error + Send + 'static");
    assert_eq!(
        render_path(&path_with("Option", angle(vec![GenericArgExpr::Type(generic("T"))]))),
        "Option<T>"
    );
}

#[test]
fn function_pointers_and_qualified_paths_render() {
    let sig = FnSignatureExpr {
        inputs: vec![
            FnInputExpr { name: "a".to_string(), type_: prim("u8") },
            FnInputExpr { name: "b".to_string(), type_: generic("T") },
        ],
        output: Some(Box::new(prim("bool"))),
    };
    assert_eq!(render_fn_signature(&sig), "(a: u8, b: T) -> bool");
    assert_eq!(render_fn_pointer(&sig), "fn(a: u8, b: T) -> bool");
    let unit = FnSignatureExpr { inputs: vec![], output: None };
    assert_eq!(render_type(&TypeExpr::FunctionPointer(unit)), "fn()");
    let qualified = TypeExpr::QualifiedPath {
        name: "Item".to_string(),
        self_type: Box::new(generic("I")),
        trait_: Some(path("Iterator")),
    };
    assert_eq!(render_type(&qualified), "<I as Iterator>::Item");
    let bare = TypeExpr::QualifiedPath { name: "Output".to_string(), self_type: Box::new(generic("F")), trait_: None };
    assert_eq!(render_type(&bare), "F::Output");
}

#[test]
fn where_predicates_and_generic_parameters_render() {
    let bound = WherePredicateExpr::BoundPredicate {
        type_: generic("T"),
        bounds: vec![trait_bound("Clone", BoundModifier::Plain), trait_bound("Send", BoundModifier::Plain)],
    };
    assert_eq!(render_where_predicate(&bound), "T: Clone + Send");
    let life = WherePredicateExpr::LifetimePredicate {
        lifetime: "'a".to_string(),
        outlives: vec!["'b".to_string(), "'c".to_string()],
    };
    assert_eq!(render_where_predicate(&life), "'a: 'b + 'c");
    let alone = WherePredicateExpr::LifetimePredicate { lifetime: "'a".to_string(), outlives: vec![] };
    assert_eq!(render_where_predicate(&alone), "'a");
    let eq = WherePredicateExpr::EqPredicate { lhs: generic("T"), rhs: TermExpr::Constant("3".to_string()) };
    assert_eq!(render_where_predicate(&eq), "T = 3");

    let params = vec![
        GenericParamExpr { name: "'a".to_string(), kind: GenericParamKind::Lifetime { outlives: vec![] } },
        GenericParamExpr {
            name: "T".to_string(),
            kind: GenericParamKind::Type {
                bounds: vec![trait_bound("Clone", BoundModifier::Plain)],
                default: Some(prim("u8")),
                is_synthetic: false,
            },
        },
        GenericParamExpr {
            name: "impl Fn".to_string(),
            kind: GenericParamKind::Type { bounds: vec![], default: None, is_synthetic: true },
        },
        GenericParamExpr {
            name: "N".to_string(),
            kind: GenericParamKind::Const { type_: prim("usize"), default: Some("4".to_string()) },
        },
    ];
    assert_eq!(render_generic_params_display(&params), "<'a, T: Clone = u8, const N: usize = 4>");
    assert_eq!(render_generic_params_display(&vec![]), "");
    let only_synthetic = vec![GenericParamExpr {
        name: "x".to_string(),
        kind: GenericParamKind::Type { bounds: vec![], default: None, is_synthetic: true },
    }];
    assert_eq!(render_generic_params_display(&only_synthetic), "");
}

#[test]
fn terminal_names_look_through_references() {
    let p = TypeExpr::ResolvedPath(path("std::collections::HashMap"));
    assert_eq!(type_terminal_name(&p), "HashMap");
    let r = TypeExpr::BorrowedRef { lifetime: None, is_mutable: false, type_: Box::new(p) };
    assert_eq!(type_terminal_name(&r), "HashMap");
    assert_eq!(type_terminal_name(&TypeExpr::Tuple(vec![prim("u8")])), "(tuple)");
    assert_eq!(type_terminal_name(&TypeExpr::Slice(Box::new(TypeExpr::ResolvedPath(path("a::B"))))), "[B]");
    assert_eq!(type_terminal_name(&TypeExpr::ResolvedPath(path("a:::b"))), "b");
    assert_eq!(type_terminal_name(&TypeExpr::Infer), "_");
}

#[test]
fn signatures_are_built_per_item_kind() {
    let generics = vec![GenericParamExpr {
        name: "T".to_string(),
        kind: GenericParamKind::Type { bounds: vec![], default: None, is_synthetic: false },
    }];
    let sig = FnSignatureExpr {
        inputs: vec![FnInputExpr { name: "x".to_string(), type_: generic("T") }],
        output: Some(Box::new(prim("u8"))),
    };
    assert_eq!(
        build_signature(&Some("f".to_string()), &DocItemInner::Function {
                generics: GenericsExpr { params: generics, where_predicates: vec![] },
                sig,
                header: FnHeaderFlags { is_const: false, is_unsafe: false, is_async: false },
                has_body: true,
            }),
        Some("fn f<T>(x: T) -> u8".to_string())
    );
    assert_eq!(
        build_signature(&None, &DocItemInner::Struct {
                shape: StructShape::Unit,
                generics: GenericsExpr { params: vec![], where_predicates: vec![] },
                impls: vec![],
            }),
        Some("struct _".to_string())
    );
    assert_eq!(
        build_signature(
            &Some("Alias".to_string()),
            &DocItemInner::TypeAlias {
                generics: GenericsExpr { params: vec![], where_predicates: vec![] },
                type_: prim("u8"),
            }
        ),
        Some("type Alias = u8".to_string())
    );
    assert_eq!(
        build_signature(&Some("X".to_string()), &DocItemInner::Static { is_mutable: true, type_: prim("u8") }),
        Some("static mut X: u8".to_string())
    );
    assert_eq!(
        build_signature(&Some("C".to_string()), &DocItemInner::Constant { type_: prim("i32") }),
        Some("const C: i32".to_string())
    );
    assert_eq!(build_signature(&Some("m".to_string()), &DocItemInner::Macro), None);
}

#[test]
fn item_kinds_impls_and_spans_are_classified() {
    assert_eq!(item_enum_to_kind(ItemKindTag::TypeAlias), "type_alias");
    assert_eq!(item_enum_to_kind(ItemKindTag::AssocConst), "assoc_const");
    assert_eq!(variant_kind_str(VariantShape::Tuple), "tuple");
    assert_eq!(classify_impl_kind(false, true, true, true), "inherent");
    assert_eq!(classify_impl_kind(true, true, false, false), "synthetic");
    assert_eq!(classify_impl_kind(true, false, true, false), "blanket");
    assert_eq!(classify_impl_kind(true, false, false, true), "derive");
    assert_eq!(classify_impl_kind(true, false, false, false), "trait");
    assert_eq!(extract_span(&None), (1, 1));
    assert_eq!(extract_span(&Some(SpanLines { begin_line: 0, end_line: 0 })), (1, 1));
    assert_eq!(extract_span(&Some(SpanLines { begin_line: 5, end_line: 9 })), (5, 9));
    assert_eq!(extract_span(&Some(SpanLines { begin_line: 7, end_line: 3 })), (7, 7));
    let impls = vec![
        ImplSummary { is_synthetic: true, trait_path: Some("core::marker::Send".to_string()) },
        ImplSummary { is_synthetic: false, trait_path: Some("core::clone::Clone".to_string()) },
        ImplSummary { is_synthetic: true, trait_path: Some("core::marker::Sync".to_string()) },
        ImplSummary { is_synthetic: true, trait_path: Some("Send".to_string()) },
        ImplSummary { is_synthetic: true, trait_path: None },
    ];
    assert_eq!(collect_auto_traits(&impls), vec!["Send".to_string(), "Sync".to_string()]);
}

#[test]
fn path_rank_prefers_fewer_segments_then_shorter_text() {
    assert_eq!(path_rank("my_crate::Error"), (2, 15, "my_crate::Error"));
    assert_eq!(path_rank("my_crate::internal::InnerError"), (3, 30, "my_crate::internal::InnerError"));
    assert_eq!(path_rank("::a::::b::"), (2, 10, "::a::::b::"));
    assert!(path_rank("my_crate::Error") < path_rank("my_crate::internal::InnerError"));
}
