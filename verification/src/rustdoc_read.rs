//! Reading a rustdoc JSON document with `serde_json` into `rustdoc_types`,
//! and moving each of its items, one variant to one variant, into the
//! library's plain model ([`DocItem`]). The trusted functions here do only
//! that; how a document is read (the fallback for older formats, the order
//! in which items are visited, the `::`-joined paths, the error message) is
//! verified in [`read_rustdoc_payload`].
use vstd::prelude::*;
use std::collections::HashMap;
use rustdoc_types::Attribute as RdAttr;
use crate::doc_model::{
    AttrDetail, AttrKind, DeprecationInfo, ReprKindTag, DocCrate, DocItem, DocItemInner, FnHeaderFlags, GenericsExpr,
    StructShape, VariantFields,
};
use crate::type_render::{
    BoundExpr, BoundModifier, FnInputExpr, FnSignatureExpr, GenericArgExpr, GenericArgsExpr,
    GenericParamExpr, GenericParamKind, PathExpr, SpanLines, TermExpr, TypeExpr, VisibilityKind,
    WherePredicateExpr,
};

verus! {

broadcast use vstd::std_specs::hash::group_hash_axioms;

#[verifier::external_type_specification]
#[verifier::external_body]
pub struct ExRdItem(rustdoc_types::Item);

#[verifier::external_type_specification]
#[verifier::external_body]
pub struct ExRdItemEnum(rustdoc_types::ItemEnum);

#[verifier::external_type_specification]
#[verifier::external_body]
pub struct ExRdPath(rustdoc_types::Path);

#[verifier::external_type_specification]
#[verifier::external_body]
pub struct ExRdGenericArgs(rustdoc_types::GenericArgs);

#[verifier::external_type_specification]
#[verifier::external_body]
pub struct ExRdGenericArg(rustdoc_types::GenericArg);

#[verifier::external_type_specification]
#[verifier::external_body]
pub struct ExRdGenericBound(rustdoc_types::GenericBound);

#[verifier::external_type_specification]
#[verifier::external_body]
pub struct ExRdTraitBoundModifier(rustdoc_types::TraitBoundModifier);

#[verifier::external_type_specification]
#[verifier::external_body]
pub struct ExRdFunctionSignature(rustdoc_types::FunctionSignature);

#[verifier::external_type_specification]
#[verifier::external_body]
pub struct ExRdType(rustdoc_types::Type);

#[verifier::external_type_specification]
#[verifier::external_body]
pub struct ExRdWherePredicate(rustdoc_types::WherePredicate);

#[verifier::external_type_specification]
#[verifier::external_body]
pub struct ExRdTerm(rustdoc_types::Term);

#[verifier::external_type_specification]
#[verifier::external_body]
pub struct ExRdGenericParamDef(rustdoc_types::GenericParamDef);

#[verifier::external_type_specification]
#[verifier::external_body]
pub struct ExRdGenericParamDefKind(rustdoc_types::GenericParamDefKind);

#[verifier::external_type_specification]
#[verifier::external_body]
pub struct ExRdVisibility(rustdoc_types::Visibility);

#[verifier::external_type_specification]
#[verifier::external_body]
pub struct ExRdGenerics(rustdoc_types::Generics);

#[verifier::external_type_specification]
#[verifier::external_body]
pub struct ExRdId(rustdoc_types::Id);

#[verifier::external_type_specification]
#[verifier::external_body]
pub struct ExRdAttribute(rustdoc_types::Attribute);

#[verifier::external_type_specification]
#[verifier::external_body]
pub struct ExRdReprKind(rustdoc_types::ReprKind);

#[verifier::external_type_specification]
#[verifier::external_body]
pub struct ExRdStruct(rustdoc_types::Struct);

#[verifier::external_type_specification]
#[verifier::external_body]
pub struct ExRdVariant(rustdoc_types::Variant);

#[verifier::external_type_specification]
#[verifier::external_body]
pub struct ExRdFunction(rustdoc_types::Function);

#[verifier::external_type_specification]
#[verifier::external_body]
pub struct ExRdTrait(rustdoc_types::Trait);

#[verifier::external_type_specification]
#[verifier::external_body]
pub struct ExRdImpl(rustdoc_types::Impl);

/// A path's name and its generic arguments.
#[verifier::external_body]
fn path_expr(path: &rustdoc_types::Path) -> PathExpr {
    PathExpr { path: path.path.clone(), args: path.args.as_ref().map(|a| Box::new(generic_args_expr(a))) }
}

/// Generic arguments, by variant; a constraint by its name.
#[verifier::external_body]
fn generic_args_expr(args: &rustdoc_types::GenericArgs) -> GenericArgsExpr {
    match args {
        rustdoc_types::GenericArgs::AngleBracketed { args, constraints } => GenericArgsExpr::AngleBracketed {
            args: args.iter().map(generic_arg_expr).collect(),
            constraints: constraints.iter().map(|c| c.name.clone()).collect(),
        },
        rustdoc_types::GenericArgs::Parenthesized { inputs, output } => GenericArgsExpr::Parenthesized {
            inputs: inputs.iter().map(type_expr).collect(),
            output: output.as_ref().map(|t| Box::new(type_expr(t))),
        },
        rustdoc_types::GenericArgs::ReturnTypeNotation => GenericArgsExpr::ReturnTypeNotation,
    }
}

/// One generic argument, by variant; a constant by its expression text.
#[verifier::external_body]
fn generic_arg_expr(arg: &rustdoc_types::GenericArg) -> GenericArgExpr {
    match arg {
        rustdoc_types::GenericArg::Lifetime(l) => GenericArgExpr::Lifetime(l.clone()),
        rustdoc_types::GenericArg::Type(t) => GenericArgExpr::Type(type_expr(t)),
        rustdoc_types::GenericArg::Const(c) => GenericArgExpr::Const(c.expr.clone()),
        rustdoc_types::GenericArg::Infer => GenericArgExpr::Infer,
    }
}

/// A trait bound's modifier, by variant.
#[verifier::external_body]
fn bound_modifier(m: &rustdoc_types::TraitBoundModifier) -> BoundModifier {
    match m {
        rustdoc_types::TraitBoundModifier::None => BoundModifier::Plain,
        rustdoc_types::TraitBoundModifier::Maybe => BoundModifier::Maybe,
        rustdoc_types::TraitBoundModifier::MaybeConst => BoundModifier::MaybeConst,
    }
}

/// A bound, by variant.
#[verifier::external_body]
fn bound_expr(bound: &rustdoc_types::GenericBound) -> BoundExpr {
    match bound {
        rustdoc_types::GenericBound::TraitBound { trait_, modifier, .. } => {
            BoundExpr::TraitBound { trait_: path_expr(trait_), modifier: bound_modifier(modifier) }
        },
        rustdoc_types::GenericBound::Outlives(l) => BoundExpr::Outlives(l.clone()),
        rustdoc_types::GenericBound::Use(_) => BoundExpr::Use,
    }
}

/// A function signature's named inputs and its output.
#[verifier::external_body]
fn fn_signature_expr(sig: &rustdoc_types::FunctionSignature) -> FnSignatureExpr {
    FnSignatureExpr {
        inputs: sig.inputs.iter().map(|(name, ty)| FnInputExpr { name: name.clone(), type_: type_expr(ty) }).collect(),
        output: sig.output.as_ref().map(|t| Box::new(type_expr(t))),
    }
}

/// A type, by variant (the first half of them; the rest by [`type_expr_rest`]).
#[verifier::external_body]
fn type_expr(ty: &rustdoc_types::Type) -> TypeExpr {
    match ty {
        rustdoc_types::Type::ResolvedPath(p) => TypeExpr::ResolvedPath(path_expr(p)),
        rustdoc_types::Type::DynTrait(d) => TypeExpr::DynTrait {
            traits: d.traits.iter().map(|p| path_expr(&p.trait_)).collect(),
            lifetime: d.lifetime.clone(),
        },
        rustdoc_types::Type::Generic(g) => TypeExpr::Generic(g.clone()),
        rustdoc_types::Type::Primitive(p) => TypeExpr::Primitive(p.clone()),
        rustdoc_types::Type::FunctionPointer(fp) => TypeExpr::FunctionPointer(fn_signature_expr(&fp.sig)),
        rustdoc_types::Type::Tuple(ts) => TypeExpr::Tuple(ts.iter().map(type_expr).collect()),
        rustdoc_types::Type::Slice(t) => TypeExpr::Slice(Box::new(type_expr(t))),
        other => type_expr_rest(other),
    }
}

/// The other variants of a type.
#[verifier::external_body]
fn type_expr_rest(ty: &rustdoc_types::Type) -> TypeExpr {
    match ty {
        rustdoc_types::Type::Array { type_, len } => TypeExpr::Array { type_: Box::new(type_expr(type_)), len: len.clone() },
        rustdoc_types::Type::Pat { type_, .. } => TypeExpr::Pat { type_: Box::new(type_expr(type_)) },
        rustdoc_types::Type::ImplTrait(bounds) => TypeExpr::ImplTrait(bounds.iter().map(bound_expr).collect()),
        rustdoc_types::Type::RawPointer { is_mutable, type_ } => {
            TypeExpr::RawPointer { is_mutable: *is_mutable, type_: Box::new(type_expr(type_)) }
        },
        rustdoc_types::Type::BorrowedRef { lifetime, is_mutable, type_ } => {
            TypeExpr::BorrowedRef { lifetime: lifetime.clone(), is_mutable: *is_mutable, type_: Box::new(type_expr(type_)) }
        },
        other => type_expr_last(other),
    }
}

/// The last variants of a type: `QualifiedPath`, and `Infer`, the one the
/// functions before it leave.
#[verifier::external_body]
fn type_expr_last(ty: &rustdoc_types::Type) -> TypeExpr {
    match ty {
        rustdoc_types::Type::QualifiedPath { name, self_type, trait_, .. } => TypeExpr::QualifiedPath {
            name: name.clone(),
            self_type: Box::new(type_expr(self_type)),
            trait_: trait_.as_ref().map(path_expr),
        },
        _ => TypeExpr::Infer,
    }
}

/// A `where` predicate, by variant.
#[verifier::external_body]
fn where_predicate_expr(pred: &rustdoc_types::WherePredicate) -> WherePredicateExpr {
    match pred {
        rustdoc_types::WherePredicate::BoundPredicate { type_, bounds, .. } => {
            WherePredicateExpr::BoundPredicate { type_: type_expr(type_), bounds: bounds.iter().map(bound_expr).collect() }
        },
        rustdoc_types::WherePredicate::LifetimePredicate { lifetime, outlives } => {
            WherePredicateExpr::LifetimePredicate { lifetime: lifetime.clone(), outlives: outlives.clone() }
        },
        rustdoc_types::WherePredicate::EqPredicate { lhs, rhs } => {
            WherePredicateExpr::EqPredicate { lhs: type_expr(lhs), rhs: term_expr(rhs) }
        },
    }
}

/// A term, by variant; a constant by its expression text.
#[verifier::external_body]
fn term_expr(t: &rustdoc_types::Term) -> TermExpr {
    match t {
        rustdoc_types::Term::Type(t) => TermExpr::Type(type_expr(t)),
        rustdoc_types::Term::Constant(c) => TermExpr::Constant(c.expr.clone()),
    }
}

/// A generic parameter's kind, by variant.
#[verifier::external_body]
fn generic_param_kind(k: &rustdoc_types::GenericParamDefKind) -> GenericParamKind {
    match k {
        rustdoc_types::GenericParamDefKind::Lifetime { outlives } => GenericParamKind::Lifetime { outlives: outlives.clone() },
        rustdoc_types::GenericParamDefKind::Type { bounds, default, is_synthetic } => GenericParamKind::Type {
            bounds: bounds.iter().map(bound_expr).collect(),
            default: default.as_ref().map(type_expr),
            is_synthetic: *is_synthetic,
        },
        rustdoc_types::GenericParamDefKind::Const { type_, default } => {
            GenericParamKind::Const { type_: type_expr(type_), default: default.clone() }
        },
    }
}

/// A generic parameter: its name and kind.
#[verifier::external_body]
fn generic_param_expr(p: &rustdoc_types::GenericParamDef) -> GenericParamExpr {
    GenericParamExpr { name: p.name.clone(), kind: generic_param_kind(&p.kind) }
}

/// Generic parameters and `where` predicates.
#[verifier::external_body]
fn generics_expr(g: &rustdoc_types::Generics) -> GenericsExpr {
    GenericsExpr {
        params: g.params.iter().map(generic_param_expr).collect(),
        where_predicates: g.where_predicates.iter().map(where_predicate_expr).collect(),
    }
}

/// A visibility, by variant.
#[verifier::external_body]
fn visibility_kind(vis: &rustdoc_types::Visibility) -> VisibilityKind {
    match vis {
        rustdoc_types::Visibility::Public => VisibilityKind::Public,
        rustdoc_types::Visibility::Default => VisibilityKind::Default,
        rustdoc_types::Visibility::Crate => VisibilityKind::Crate,
        rustdoc_types::Visibility::Restricted { path, .. } => VisibilityKind::Restricted { path: path.clone() },
    }
}

/// The numbers of a list of ids.
#[verifier::external_body]
fn ids(v: &[rustdoc_types::Id]) -> Vec<u32> {
    v.iter().map(|id| id.0).collect()
}

/// The numbers of a list of optional ids.
#[verifier::external_body]
fn opt_ids(v: &[Option<rustdoc_types::Id>]) -> Vec<Option<u32>> {
    v.iter().map(|id| id.map(|i| i.0)).collect()
}

/// An attribute's kind, by variant.
#[verifier::external_body]
fn attr_kind(attr: &rustdoc_types::Attribute) -> AttrKind {
    match attr {
        rustdoc_types::Attribute::NonExhaustive => AttrKind::NonExhaustive,
        rustdoc_types::Attribute::MustUse { .. } => AttrKind::MustUse,
        rustdoc_types::Attribute::MacroExport => AttrKind::MacroExport,
        rustdoc_types::Attribute::ExportName(_) => AttrKind::ExportName,
        rustdoc_types::Attribute::LinkSection(_) => AttrKind::LinkSection,
        rustdoc_types::Attribute::AutomaticallyDerived => AttrKind::AutomaticallyDerived,
        rustdoc_types::Attribute::Repr(_) => AttrKind::Repr,
        rustdoc_types::Attribute::NoMangle => AttrKind::NoMangle,
        rustdoc_types::Attribute::TargetFeature { .. } => AttrKind::TargetFeature,
        rustdoc_types::Attribute::Other(_) => AttrKind::Other,
    }
}

/// A `repr` kind, by variant.
#[verifier::external_body]
fn repr_kind_tag(k: &rustdoc_types::ReprKind) -> ReprKindTag {
    match k {
        rustdoc_types::ReprKind::Rust => ReprKindTag::Rust,
        rustdoc_types::ReprKind::C => ReprKindTag::C,
        rustdoc_types::ReprKind::Transparent => ReprKindTag::Transparent,
        rustdoc_types::ReprKind::Simd => ReprKindTag::Simd,
    }
}

/// An attribute with what it carries, by variant.
#[verifier::external_body]
fn attr_detail(attr: &RdAttr) -> AttrDetail {
    match attr {
        RdAttr::NonExhaustive => AttrDetail::NonExhaustive,
        RdAttr::MustUse { reason } => AttrDetail::MustUse { reason: reason.clone() },
        RdAttr::MacroExport => AttrDetail::MacroExport,
        RdAttr::ExportName(n) => AttrDetail::ExportName(n.clone()),
        RdAttr::LinkSection(n) => AttrDetail::LinkSection(n.clone()),
        RdAttr::AutomaticallyDerived => AttrDetail::AutomaticallyDerived,
        RdAttr::Repr(r) => AttrDetail::Repr { kind: repr_kind_tag(&r.kind), align: r.align, packed: r.packed, int_type: r.int.clone() },
        RdAttr::NoMangle => AttrDetail::NoMangle,
        RdAttr::TargetFeature { enable } => AttrDetail::TargetFeature { enable: enable.clone() },
        RdAttr::Other(raw) => AttrDetail::Other(raw.clone()),
    }
}

/// A struct: its shape (by variant), generics and impls.
#[verifier::external_body]
fn struct_inner(st: &rustdoc_types::Struct) -> DocItemInner {
    let shape = match &st.kind {
        rustdoc_types::StructKind::Plain { fields, .. } => StructShape::Plain { fields: ids(fields) },
        rustdoc_types::StructKind::Tuple(fields) => StructShape::Tuple(opt_ids(fields)),
        rustdoc_types::StructKind::Unit => StructShape::Unit,
    };
    DocItemInner::Struct { shape, generics: generics_expr(&st.generics), impls: ids(&st.impls) }
}

/// An enum variant: its fields (by variant) and discriminant text.
#[verifier::external_body]
fn variant_inner(v: &rustdoc_types::Variant) -> DocItemInner {
    let fields = match &v.kind {
        rustdoc_types::VariantKind::Plain => VariantFields::Plain,
        rustdoc_types::VariantKind::Tuple(fields) => VariantFields::Tuple(opt_ids(fields)),
        rustdoc_types::VariantKind::Struct { fields, .. } => VariantFields::Struct { fields: ids(fields) },
    };
    DocItemInner::Variant { fields, discriminant: v.discriminant.as_ref().map(|d| d.expr.clone()) }
}

/// A function: generics, signature, header flags and whether it has a body.
#[verifier::external_body]
fn function_inner(f: &rustdoc_types::Function) -> DocItemInner {
    DocItemInner::Function {
        generics: generics_expr(&f.generics),
        sig: fn_signature_expr(&f.sig),
        header: FnHeaderFlags { is_const: f.header.is_const, is_unsafe: f.header.is_unsafe, is_async: f.header.is_async },
        has_body: f.has_body,
    }
}

/// A trait: flags, items, generics and bounds.
#[verifier::external_body]
fn trait_inner(t: &rustdoc_types::Trait) -> DocItemInner {
    DocItemInner::Trait {
        is_auto: t.is_auto,
        is_unsafe: t.is_unsafe,
        is_dyn_compatible: t.is_dyn_compatible,
        items: ids(&t.items),
        generics: generics_expr(&t.generics),
        bounds: t.bounds.iter().map(bound_expr).collect(),
    }
}

/// An impl block: generics, trait, type, items and flags.
#[verifier::external_body]
fn impl_inner(imp: &rustdoc_types::Impl) -> DocItemInner {
    DocItemInner::Impl {
        generics: generics_expr(&imp.generics),
        trait_: imp.trait_.as_ref().map(path_expr),
        for_: type_expr(&imp.for_),
        items: ids(&imp.items),
        is_negative: imp.is_negative,
        is_synthetic: imp.is_synthetic,
        blanket_impl: imp.blanket_impl.as_ref().map(type_expr),
    }
}

/// What an item is, by variant (the first of them; the rest by
/// [`item_inner_rest`]).
#[verifier::external_body]
fn item_inner(inner: &rustdoc_types::ItemEnum) -> DocItemInner {
    match inner {
        rustdoc_types::ItemEnum::Module(_) => DocItemInner::Module,
        rustdoc_types::ItemEnum::ExternCrate { .. } => DocItemInner::ExternCrate,
        rustdoc_types::ItemEnum::Use(u) => DocItemInner::Use { target: u.id.map(|i| i.0), is_glob: u.is_glob },
        rustdoc_types::ItemEnum::Union(u) => {
            DocItemInner::Union { generics: generics_expr(&u.generics), fields: ids(&u.fields), impls: ids(&u.impls) }
        },
        rustdoc_types::ItemEnum::Struct(st) => struct_inner(st),
        rustdoc_types::ItemEnum::StructField(t) => DocItemInner::StructField(type_expr(t)),
        other => item_inner_rest(other),
    }
}

/// More variants of what an item is.
#[verifier::external_body]
fn item_inner_rest(inner: &rustdoc_types::ItemEnum) -> DocItemInner {
    match inner {
        rustdoc_types::ItemEnum::Enum(en) => {
            DocItemInner::Enum { generics: generics_expr(&en.generics), variants: ids(&en.variants), impls: ids(&en.impls) }
        },
        rustdoc_types::ItemEnum::Variant(v) => variant_inner(v),
        rustdoc_types::ItemEnum::Function(f) => function_inner(f),
        rustdoc_types::ItemEnum::Trait(t) => trait_inner(t),
        rustdoc_types::ItemEnum::TraitAlias(_) => DocItemInner::TraitAlias,
        rustdoc_types::ItemEnum::Impl(imp) => impl_inner(imp),
        other => item_inner_more(other),
    }
}

/// Further variants of what an item is.
#[verifier::external_body]
fn item_inner_more(inner: &rustdoc_types::ItemEnum) -> DocItemInner {
    match inner {
        rustdoc_types::ItemEnum::TypeAlias(t) => {
            DocItemInner::TypeAlias { generics: generics_expr(&t.generics), type_: type_expr(&t.type_) }
        },
        rustdoc_types::ItemEnum::Constant { type_, .. } => DocItemInner::Constant { type_: type_expr(type_) },
        rustdoc_types::ItemEnum::Static(st) => DocItemInner::Static { is_mutable: st.is_mutable, type_: type_expr(&st.type_) },
        rustdoc_types::ItemEnum::ExternType => DocItemInner::ExternType,
        rustdoc_types::ItemEnum::Macro(_) => DocItemInner::Macro,
        rustdoc_types::ItemEnum::ProcMacro(_) => DocItemInner::ProcMacro,
        other => item_inner_last(other),
    }
}

/// The last variants of what an item is; reached only for `AssocConst`,
/// `AssocType` and `Primitive`, the variants the functions before it leave.
#[verifier::external_body]
fn item_inner_last(inner: &rustdoc_types::ItemEnum) -> DocItemInner {
    match inner {
        rustdoc_types::ItemEnum::AssocConst { type_, value, .. } => {
            DocItemInner::AssocConst { type_: type_expr(type_), value: value.clone() }
        },
        rustdoc_types::ItemEnum::AssocType { bounds, type_, .. } => {
            DocItemInner::AssocType { bounds: bounds.iter().map(bound_expr).collect(), type_: type_.as_ref().map(type_expr) }
        },
        _ => DocItemInner::Primitive,
    }
}

/// An item: name, visibility, span lines, docs, deprecation, attribute
/// kinds and what it is.
#[verifier::external_body]
fn doc_item(item: &rustdoc_types::Item) -> DocItem {
    DocItem {
        name: item.name.clone(),
        visibility: visibility_kind(&item.visibility),
        span: item.span.as_ref().map(|s| SpanLines { begin_line: s.begin.0, end_line: s.end.0 }),
        docs: item.docs.clone(),
        deprecation: item.deprecation.as_ref().map(|d| DeprecationInfo { since: d.since.clone(), note: d.note.clone() }),
        attrs: item.attrs.iter().map(attr_kind).collect(),
        attr_details: item.attrs.iter().map(attr_detail).collect(),
        inner: item_inner(&item.inner),
    }
}

/// The items of a list of `(id, item)` entries, by id.
pub open spec fn entry_map(es: Seq<(u32, DocItem)>) -> Map<u32, DocItem>
    decreases es.len(),
{
    if es.len() == 0 {
        Map::empty()
    } else {
        entry_map(es.drop_last()).insert(es.last().0, es.last().1)
    }
}

/// The paths (as segments) of a list of `(id, segments)` entries, by id.
pub open spec fn segments_map(es: Seq<(u32, Vec<String>)>) -> Map<u32, Seq<Seq<char>>>
    decreases es.len(),
{
    if es.len() == 0 {
        Map::empty()
    } else {
        segments_map(es.drop_last()).insert(es.last().0, crate::text::str_views(es.last().1@))
    }
}

/// What `serde_json::from_str::<rustdoc_types::Crate>` reads from a text:
/// its items by id, each as a [`DocItem`], and the path segments of each id
/// in its `paths` table; or the error's message.
pub uninterp spec fn rustdoc_document(text: Seq<char>) -> Result<(Map<u32, DocItem>, Map<u32, Seq<Seq<char>>>), Seq<char>>;

/// Reads a rustdoc JSON text into `rustdoc_types::Crate` with
/// `serde_json::from_str` and lists its `index` and `paths` tables (each id
/// once, in the order the maps give); the tables are named
/// [`rustdoc_document`], and an error by its message (`to_string`).
#[verifier::external_body]
fn parse_rustdoc_crate(content: &str) -> (r: Result<(Vec<(u32, DocItem)>, Vec<(u32, Vec<String>)>), String>)
    ensures
        match r {
            Ok((items, paths)) => {
                &&& rustdoc_document(content@) == Ok::<_, Seq<char>>((entry_map(items@), segments_map(paths@)))
                &&& forall|i: int, j: int| 0 <= i < j < items@.len() ==> items@[i].0 != items@[j].0
                &&& forall|i: int, j: int| 0 <= i < j < paths@.len() ==> paths@[i].0 != paths@[j].0
            },
            Err(e) => rustdoc_document(content@) == Err::<(Map<u32, DocItem>, Map<u32, Seq<Seq<char>>>), Seq<char>>(e@),
        },
{
    let krate: rustdoc_types::Crate = serde_json::from_str(content).map_err(|e| e.to_string())?;
    let items = krate.index.iter().map(|(id, item)| (id.0, doc_item(item))).collect();
    let paths = krate.paths.iter().map(|(id, s)| (id.0, s.path.clone())).collect();
    Ok((items, paths))
}

/// Each entry of a list has its own id.
pub open spec fn distinct_ids<T>(es: Seq<(u32, T)>) -> bool {
    forall|i: int, j: int| 0 <= i < j < es.len() ==> es[i].0 != es[j].0
}

/// A list of ids in strictly increasing order.
pub open spec fn increasing(s: Seq<u32>) -> bool {
    forall|i: int, j: int| 0 <= i < j < s.len() ==> s[i] < s[j]
}

/// A document read as the tables say: the items by id, each path joined
/// with `::`, and the ids to visit in increasing order, each item once.
pub open spec fn doc_crate_ok(
    d: DocCrate,
    index: Map<u32, DocItem>,
    paths: Map<u32, Seq<Seq<char>>>,
) -> bool {
    &&& d.index@ == index
    &&& d.paths@.dom() == paths.dom()
    &&& forall|k: u32| #[trigger] d.paths@.contains_key(k) ==> d.paths@[k]@ == crate::text::join(paths[k], "::"@)
    &&& increasing(d.ids@)
    &&& d.ids@.to_set() == index.dom()
}

/// The map of a list of entries has the list's ids as its domain.
proof fn lemma_entry_map_dom(es: Seq<(u32, DocItem)>)
    ensures
        entry_map(es).dom() == es.map_values(|e: (u32, DocItem)| e.0).to_set(),
    decreases es.len(),
{
    if es.len() > 0 {
        lemma_entry_map_dom(es.drop_last());
        let f = |e: (u32, DocItem)| e.0;
        assert(es.map_values(f) =~= es.drop_last().map_values(f).push(es.last().0));
        es.drop_last().map_values(f).lemma_push_to_set_commute(es.last().0);
    } else {
        assert(es.map_values(|e: (u32, DocItem)| e.0).to_set() =~= Set::empty());
    }
}

/// Inserts a new id into a strictly increasing list.
fn insert_id(ids: &mut Vec<u32>, x: u32)
    requires
        increasing(old(ids)@),
        !old(ids)@.contains(x),
    ensures
        increasing(final(ids)@),
        final(ids)@.to_set() == old(ids)@.to_set().insert(x),
{
    let mut i: usize = 0;
    while i < ids.len() && ids[i] < x
        invariant
            i <= ids.len(),
            forall|k: int| 0 <= k < i ==> ids@[k] < x,
        decreases ids.len() - i,
    {
        i += 1;
    }
    let ghost before = ids@;
    ids.insert(i, x);
    proof {
        assert(ids@ == before.insert(i as int, x));
        assert forall|a: int, b: int| 0 <= a < b < ids@.len() implies ids@[a] < ids@[b] by {
            if i < before.len() {
                assert(before[i as int] != x);
                assert(before[i as int] >= x);
            }
        }
        assert forall|y: u32| ids@.to_set().contains(y) <==> before.to_set().insert(x).contains(y) by {
            if ids@.to_set().contains(y) {
                let k = choose|k: int| 0 <= k < ids@.len() && ids@[k] == y;
                if k < i {
                    assert(before[k] == y);
                } else if k > i {
                    assert(before[k - 1] == y);
                }
            }
            if before.to_set().contains(y) {
                let k = choose|k: int| 0 <= k < before.len() && before[k] == y;
                if k < i {
                    assert(ids@[k] == y);
                } else {
                    assert(ids@[k + 1] == y);
                }
            }
            if y == x {
                assert(ids@[i as int] == x);
            }
        }
        assert(ids@.to_set() =~= before.to_set().insert(x));
    }
}

/// A document from its tables: the items and the `::`-joined paths keyed
/// by id, and the ids in increasing order.
pub fn doc_crate_from(items: Vec<(u32, DocItem)>, paths: Vec<(u32, Vec<String>)>) -> (d: DocCrate)
    requires
        distinct_ids(items@),
        distinct_ids(paths@),
    ensures
        doc_crate_ok(d, entry_map(items@), segments_map(paths@)),
{
    let ghost orig = items@;
    let mut rest = items;
    let mut index: HashMap<u32, DocItem> = HashMap::new();
    let mut ids: Vec<u32> = Vec::new();
    let ghost mut n: int = 0;
    while rest.len() > 0
        invariant
            0 <= n <= orig.len(),
            rest@ == orig.skip(n),
            distinct_ids(orig),
            index@ == entry_map(orig.take(n)),
            increasing(ids@),
            ids@.to_set() == index@.dom(),
        decreases rest.len(),
    {
        let (k, v) = rest.remove(0);
        proof {
            assert((k, v) == orig[n]);
            assert(orig.skip(n + 1) =~= orig.skip(n).remove(0));
            assert(orig.take(n + 1).drop_last() =~= orig.take(n));
            lemma_entry_map_dom(orig.take(n));
            let keys = orig.take(n).map_values(|e: (u32, DocItem)| e.0);
            if ids@.contains(k) {
                assert(ids@.to_set().contains(k));
                assert(keys.to_set().contains(k));
                let j = choose|j: int| 0 <= j < keys.len() && keys[j] == k;
                assert(orig[j].0 == k);
            }
        }
        insert_id(&mut ids, k);
        index.insert(k, v);
        proof {
            n = n + 1;
        }
    }
    proof {
        assert(orig.take(n) =~= orig);
    }
    let ghost porig = paths@;
    let mut prest = paths;
    let mut path_table: HashMap<u32, String> = HashMap::new();
    let sep = crate::text::lit("::");
    let ghost mut m: int = 0;
    while prest.len() > 0
        invariant
            0 <= m <= porig.len(),
            prest@ == porig.skip(m),
            sep@ == "::"@,
            path_table@.dom() == segments_map(porig.take(m)).dom(),
            forall|k: u32| #[trigger] path_table@.contains_key(k) ==> path_table@[k]@ == crate::text::join(
                segments_map(porig.take(m))[k],
                "::"@,
            ),
        decreases prest.len(),
    {
        let (k, segs) = prest.remove(0);
        proof {
            assert((k, segs) == porig[m]);
            assert(porig.skip(m + 1) =~= porig.skip(m).remove(0));
            assert(porig.take(m + 1).drop_last() =~= porig.take(m));
        }
        let parts = crate::text::strings_to_chars(segs.as_slice());
        let joined = crate::text::string_of(&crate::text::join_chars(&parts, &sep));
        path_table.insert(k, joined);
        proof {
            m = m + 1;
            assert(path_table@.dom() =~= segments_map(porig.take(m)).dom());
        }
    }
    proof {
        assert(porig.take(m) =~= porig);
    }
    DocCrate { ids, index, paths: path_table }
}

/// The tables a rustdoc payload is read as: those of the text itself, or,
/// when it does not read, those of its older-format fallback
/// ([`compat_text`](crate::rustdoc_files::compat_text)); else the first
/// error.
pub open spec fn payload_tables(content: Seq<char>) -> Result<(Map<u32, DocItem>, Map<u32, Seq<Seq<char>>>), Seq<char>> {
    match rustdoc_document(content) {
        Ok(t) => Ok(t),
        Err(e) => match crate::rustdoc_files::compat_text(content) {
            Some(p) => match rustdoc_document(p) {
                Ok(t) => Ok(t),
                Err(_) => Err(e),
            },
            None => Err(e),
        },
    }
}

fn document_of(parsed: Result<(Vec<(u32, DocItem)>, Vec<(u32, Vec<String>)>), String>) -> (r: Result<DocCrate, String>)
    requires
        parsed matches Ok((items, paths)) ==> distinct_ids(items@) && distinct_ids(paths@),
    ensures
        match parsed {
            Ok((items, paths)) => r matches Ok(d) && doc_crate_ok(d, entry_map(items@), segments_map(paths@)),
            Err(e) => r == Err::<DocCrate, String>(e),
        },
{
    match parsed {
        Ok((items, paths)) => Ok(doc_crate_from(items, paths)),
        Err(e) => Err(e),
    }
}

/// Reads the rustdoc JSON payload of one crate version: the document the
/// text gives, else the one its older-format fallback gives; when neither
/// reads, the message of the first parse error (with the payload's format
/// version, for the crate, version and source named).
pub fn read_rustdoc_payload(crate_name: &str, version: &str, source_path: &str, content: &str) -> (r: Result<DocCrate, String>)
    ensures
        match payload_tables(content@) {
            Ok((index, paths)) => r matches Ok(d) && doc_crate_ok(d, index, paths),
            Err(e) => r matches Err(m) && m@ == crate::rustdoc_files::parse_error_text(
                crate_name@,
                version@,
                source_path@,
                e,
                crate::rustdoc_files::json_format_version(content@),
                61,
            ),
        },
{
    let first = match parse_rustdoc_crate(content) {
        Ok(tables) => {
            return document_of(Ok(tables));
        },
        Err(e) => e,
    };
    match crate::rustdoc_files::compat_payload(content) {
        Some(patched) => {
            match parse_rustdoc_crate(patched.as_str()) {
                Ok(tables) => {
                    return document_of(Ok(tables));
                },
                Err(_) => {},
            }
        },
        None => {},
    }
    Err(crate::rustdoc_files::format_rustdoc_parse_error(crate_name, version, source_path, content, first.as_str()))
}

} // verus!
