//! Extraction of the impls (with their methods) and the traits (with their
//! items) of a rustdoc document.
use vstd::prelude::*;
use std::collections::HashMap;
use crate::doc_extract::{
    copy_opt, extract_symbols, extract_types, params_ok, serialize_generic_params,
    serialize_where_predicates, symbol_ids, symbol_row_ok, type_ids, type_row_ok, wheres_ok,
    GenericParamRow, IndexedSymbol, IndexedType,
};
use crate::canonical_paths::{
    build_canonical_path_map, canonical_fold, lemma_fold_improves, paths_view, rank_le, UseEntry,
};
use crate::doc_model::{is_automatically_derived, AttrKind, DocCrate, DocItem, DocItemInner};
use crate::jobs::opt_view;
use crate::text::{after_last, after_last_chars, append_chars, chars_eq, chars_of_string, lit, string_of};
use crate::type_render::{
    bound_text, classify_impl_kind, extract_span, impl_kind_label, path_text, render_bound,
    render_fn_signature, render_path, render_type, signature_text, span_lines, terminal_name,
    type_terminal_name, type_text, visibility_label, visibility_string, BoundExpr,
    FnSignatureExpr, VisibilityKind,
};

verus! {

broadcast use vstd::std_specs::hash::group_hash_axioms;

/// One parameter of a method as stored.
#[derive(Debug, Clone)]
pub struct MethodParamRow {
    pub name: String,
    pub type_: String,
}

/// One method of an impl block as stored.
#[derive(Debug, Clone)]
pub struct ImplMethodRow {
    pub name: String,
    pub signature: String,
    pub has_self: bool,
    pub is_const: bool,
    pub is_async: bool,
    pub is_unsafe: bool,
    pub params: Vec<MethodParamRow>,
    pub return_type: Option<String>,
    pub visibility: Option<String>,
}

/// Whether an id names a named function item of the document.
pub open spec fn is_method(index: Map<u32, DocItem>, id: u32) -> bool {
    index.contains_key(id) && index[id].name is Some && index[id].inner is Function
}

/// The ids of an item list that name named function items, in order.
pub open spec fn method_ids(index: Map<u32, DocItem>, ids: Seq<u32>) -> Seq<u32>
    decreases ids.len(),
{
    if ids.len() == 0 {
        seq![]
    } else {
        let prev = method_ids(index, ids.drop_last());
        if is_method(index, ids.last()) {
            prev.push(ids.last())
        } else {
            prev
        }
    }
}

/// The text of a method's signature: `fn name(args) -> out`.
pub open spec fn method_signature(name: Seq<char>, sig: FnSignatureExpr) -> Seq<char> {
    "fn "@ + name + signature_text(sig)
}

/// The stored parameters of a signature, one row per input, in order.
pub open spec fn method_params_ok(sig: FnSignatureExpr, rows: Seq<MethodParamRow>) -> bool {
    &&& rows.len() == sig.inputs@.len()
    &&& forall|k: int|
        0 <= k < rows.len() ==> (#[trigger] rows[k]).name@ == sig.inputs@[k].name@
            && rows[k].type_@ == type_text(sig.inputs@[k].type_)
}

/// Whether a signature's first input is named `self`.
pub open spec fn takes_self(sig: FnSignatureExpr) -> bool {
    sig.inputs@.len() > 0 && sig.inputs@[0].name@ == "self"@
}

/// The stored return type of a signature.
pub open spec fn return_text(sig: FnSignatureExpr) -> Option<Seq<char>> {
    match sig.output {
        Some(t) => Some(type_text(*t)),
        None => None,
    }
}

/// The stored form of a method item.
pub open spec fn method_row_ok(item: DocItem, r: ImplMethodRow) -> bool {
    &&& opt_view(item.name) == Some(r.name@)
    &&& item.inner matches DocItemInner::Function { sig, header, .. } && {
        &&& r.signature@ == method_signature(r.name@, sig)
        &&& r.has_self == takes_self(sig)
        &&& r.is_const == header.is_const
        &&& r.is_async == header.is_async
        &&& r.is_unsafe == header.is_unsafe
        &&& method_params_ok(sig, r.params@)
        &&& opt_view(r.return_type) == return_text(sig)
    }
    &&& opt_view(r.visibility) == Some(visibility_label(item.visibility))
}

/// The stored methods of an impl's item list.
pub open spec fn methods_ok(index: Map<u32, DocItem>, ids: Seq<u32>, rows: Seq<ImplMethodRow>) -> bool {
    &&& rows.len() == method_ids(index, ids).len()
    &&& forall|k: int| 0 <= k < rows.len() ==> method_row_ok(index[method_ids(index, ids)[k]], #[trigger] rows[k])
}

fn method_params(sig: &FnSignatureExpr) -> (out: Vec<MethodParamRow>)
    ensures
        method_params_ok(*sig, out@),
{
    let mut out: Vec<MethodParamRow> = Vec::new();
    let mut i: usize = 0;
    while i < sig.inputs.len()
        invariant
            i <= sig.inputs@.len(),
            out@.len() == i,
            forall|k: int|
                0 <= k < i ==> (#[trigger] out@[k]).name@ == sig.inputs@[k].name@ && out@[k].type_@
                    == type_text(sig.inputs@[k].type_),
        decreases sig.inputs@.len() - i,
    {
        let input = &sig.inputs[i];
        out.push(MethodParamRow { name: input.name.clone(), type_: render_type(&input.type_) });
        i += 1;
    }
    out
}

fn signature_string(name: &String, sig: &FnSignatureExpr) -> (r: String)
    ensures
        r@ == method_signature(name@, *sig),
{
    let mut out = lit("fn ");
    append_chars(&mut out, &chars_of_string(name));
    append_chars(&mut out, &chars_of_string(&render_fn_signature(sig)));
    string_of(&out)
}

fn method_row(item: &DocItem) -> (r: Option<ImplMethodRow>)
    ensures
        (item.name is Some && item.inner is Function) <==> r is Some,
        r matches Some(row) ==> method_row_ok(*item, row),
{
    let name = match &item.name {
        Some(n) => n.clone(),
        None => {
            return None;
        },
    };
    match &item.inner {
        DocItemInner::Function { sig, header, .. } => {
            let has_self = sig.inputs.len() > 0 && chars_eq(
                &chars_of_string(&sig.inputs[0].name),
                &lit("self"),
            );
            let return_type = match &sig.output {
                Some(t) => Some(render_type(t)),
                None => None,
            };
            Some(
                ImplMethodRow {
                    signature: signature_string(&name, sig),
                    name,
                    has_self,
                    is_const: header.is_const,
                    is_async: header.is_async,
                    is_unsafe: header.is_unsafe,
                    params: method_params(sig),
                    return_type,
                    visibility: visibility_string(&item.visibility),
                },
            )
        },
        _ => None,
    }
}

/// The methods of an impl block; ids that do not name a named function item
/// are skipped.
pub fn extract_impl_methods(ids: &Vec<u32>, index: &HashMap<u32, DocItem>) -> (out: Vec<
    ImplMethodRow,
>)
    ensures
        methods_ok(index@, ids@, out@),
{
    let ghost m = index@;
    let mut out: Vec<ImplMethodRow> = Vec::new();
    let mut i: usize = 0;
    while i < ids.len()
        invariant
            i <= ids.len(),
            m == index@,
            methods_ok(m, ids@.take(i as int), out@),
        decreases ids.len() - i,
    {
        let ghost prev = method_ids(m, ids@.take(i as int));
        proof {
            assert(ids@.take(i + 1).drop_last() =~= ids@.take(i as int));
            assert(ids@.take(i + 1).last() == ids@[i as int]);
        }
        let id = ids[i];
        match index.get(&id) {
            Some(item) => {
                match method_row(item) {
                    Some(row) => {
                        out.push(row);
                        proof {
                            assert(method_ids(m, ids@.take(i + 1)) == prev.push(id));
                        }
                    },
                    None => {},
                }
            },
            None => {},
        }
        i += 1;
    }
    proof {
        assert(ids@.take(ids@.len() as int) =~= ids@);
    }
    out
}

/// One impl block as stored.
#[derive(Debug, Clone)]
pub struct IndexedImpl {
    /// The last path segment of the implementing type.
    pub for_type: String,
    /// The implementing type as rendered.
    pub for_type_display: Option<String>,
    pub trait_name: Option<String>,
    pub trait_name_display: Option<String>,
    pub impl_kind: String,
    pub methods: Vec<ImplMethodRow>,
    pub start_line: i32,
    pub end_line: i32,
    pub rustdoc_item_id: Option<i32>,
    pub is_blanket: bool,
    pub is_synthetic: bool,
    pub is_negative: bool,
    pub blanket_type: Option<String>,
    pub generics: Vec<GenericParamRow>,
    pub where_clauses: Vec<String>,
    pub docs: Option<String>,
}

/// Whether an item is an impl block.
pub open spec fn is_impl(index: Map<u32, DocItem>, id: u32) -> bool {
    index.contains_key(id) && index[id].inner is Impl
}

/// The ids of the impl blocks, in visiting order.
pub open spec fn impl_ids(index: Map<u32, DocItem>, ids: Seq<u32>) -> Seq<u32>
    decreases ids.len(),
{
    if ids.len() == 0 {
        seq![]
    } else {
        let prev = impl_ids(index, ids.drop_last());
        if is_impl(index, ids.last()) {
            prev.push(ids.last())
        } else {
            prev
        }
    }
}

/// The stored form of the impl block `id`.
pub open spec fn impl_row_ok(index: Map<u32, DocItem>, id: u32, item: DocItem, r: IndexedImpl) -> bool {
    &&& item.inner matches DocItemInner::Impl {
        generics,
        trait_,
        for_,
        items,
        is_negative,
        is_synthetic,
        blanket_impl,
    } && {
        &&& r.for_type@ == terminal_name(for_)
        &&& opt_view(r.for_type_display) == Some(type_text(for_))
        &&& opt_view(r.trait_name) == (match trait_ {
            Some(p) => Some(after_last(p.path@, "::"@)),
            None => None,
        })
        &&& opt_view(r.trait_name_display) == (match trait_ {
            Some(p) => Some(path_text(p)),
            None => None,
        })
        &&& r.impl_kind@ == impl_kind_label(
            trait_ is Some,
            is_synthetic,
            blanket_impl is Some,
            item.attrs@.contains(AttrKind::AutomaticallyDerived),
        )
        &&& methods_ok(index, items@, r.methods@)
        &&& r.is_blanket == blanket_impl is Some
        &&& r.is_synthetic == is_synthetic
        &&& r.is_negative == is_negative
        &&& opt_view(r.blanket_type) == (match blanket_impl {
            Some(t) => Some(type_text(t)),
            None => None,
        })
        &&& params_ok(generics.params@, r.generics@)
        &&& wheres_ok(generics.where_predicates@, r.where_clauses@)
    }
    &&& (r.start_line, r.end_line) == span_lines(item.span)
    &&& r.rustdoc_item_id == Some(id as i32)
    &&& opt_view(r.docs) == opt_view(item.docs)
}

fn impl_row(id: u32, item: &DocItem, index: &HashMap<u32, DocItem>) -> (r: Option<IndexedImpl>)
    ensures
        item.inner is Impl <==> r is Some,
        r matches Some(row) ==> impl_row_ok(index@, id, *item, row),
{
    match &item.inner {
        DocItemInner::Impl {
            generics,
            trait_,
            for_,
            items,
            is_negative,
            is_synthetic,
            blanket_impl,
        } => {
            let (trait_name, trait_name_display) = match trait_ {
                Some(p) => {
                    let terminal = after_last_chars(&chars_of_string(&p.path), &lit("::"));
                    (Some(string_of(&terminal)), Some(render_path(p)))
                },
                None => (None, None),
            };
            let blanket_type = match blanket_impl {
                Some(t) => Some(render_type(t)),
                None => None,
            };
            let kind = classify_impl_kind(
                trait_.is_some(),
                *is_synthetic,
                blanket_impl.is_some(),
                is_automatically_derived(&item.attrs),
            );
            let (start_line, end_line) = extract_span(&item.span);
            Some(
                IndexedImpl {
                    for_type: type_terminal_name(for_),
                    for_type_display: Some(render_type(for_)),
                    trait_name,
                    trait_name_display,
                    impl_kind: kind,
                    methods: extract_impl_methods(items, index),
                    start_line,
                    end_line,
                    rustdoc_item_id: Some(id as i32),
                    is_blanket: blanket_impl.is_some(),
                    is_synthetic: *is_synthetic,
                    is_negative: *is_negative,
                    blanket_type,
                    generics: serialize_generic_params(&generics.params),
                    where_clauses: serialize_where_predicates(&generics.where_predicates),
                    docs: copy_opt(&item.docs),
                },
            )
        },
        _ => None,
    }
}

/// The impl blocks of a document, in visiting order.
pub fn extract_impls(krate: &DocCrate) -> (out: Vec<IndexedImpl>)
    ensures
        out@.len() == impl_ids(krate.index@, krate.ids@).len(),
        forall|k: int|
            0 <= k < out@.len() ==> {
                let id = impl_ids(krate.index@, krate.ids@)[k];
                impl_row_ok(krate.index@, id, krate.index@[id], #[trigger] out@[k])
            },
{
    let ghost m = krate.index@;
    let ghost ids = krate.ids@;
    let mut out: Vec<IndexedImpl> = Vec::new();
    let mut i: usize = 0;
    while i < krate.ids.len()
        invariant
            i <= ids.len(),
            m == krate.index@,
            ids == krate.ids@,
            out@.len() == impl_ids(m, ids.take(i as int)).len(),
            forall|k: int|
                0 <= k < out@.len() ==> {
                    let id = impl_ids(m, ids.take(i as int))[k];
                    impl_row_ok(m, id, m[id], #[trigger] out@[k])
                },
        decreases ids.len() - i,
    {
        let ghost prev = impl_ids(m, ids.take(i as int));
        proof {
            assert(ids.take(i + 1).drop_last() =~= ids.take(i as int));
            assert(ids.take(i + 1).last() == ids[i as int]);
        }
        let id = krate.ids[i];
        match krate.index.get(&id) {
            Some(item) => {
                match impl_row(id, item, &krate.index) {
                    Some(row) => {
                        out.push(row);
                        proof {
                            assert(impl_ids(m, ids.take(i + 1)) == prev.push(id));
                        }
                    },
                    None => {},
                }
            },
            None => {},
        }
        i += 1;
    }
    proof {
        assert(ids.take(ids.len() as int) =~= ids);
    }
    out
}


/// A function item of a trait as stored.
#[derive(Debug, Clone)]
pub struct TraitMethodRow {
    pub name: String,
    pub signature: String,
    pub is_unsafe: bool,
    pub is_const: bool,
    pub is_async: bool,
}

/// An item a trait's implementors must provide: a method without a
/// default body, or an associated constant.
#[derive(Debug, Clone)]
pub enum RequiredItemRow {
    Method(TraitMethodRow),
    AssocConst { name: String, signature: String, value: Option<String> },
}

/// An associated type of a trait as stored.
#[derive(Debug, Clone)]
pub struct AssocTypeRow {
    pub name: String,
    pub bounds: Vec<String>,
    pub default: Option<String>,
}

/// The stored form of a trait's function item.
pub open spec fn trait_method_ok(item: DocItem, r: TraitMethodRow) -> bool {
    &&& opt_view(item.name) == Some(r.name@)
    &&& item.inner matches DocItemInner::Function { sig, header, .. } && {
        &&& r.signature@ == method_signature(r.name@, sig)
        &&& r.is_unsafe == header.is_unsafe
        &&& r.is_const == header.is_const
        &&& r.is_async == header.is_async
    }
}

/// The text of an associated constant's signature: `const NAME: Type`.
pub open spec fn const_signature(name: Seq<char>, ty: crate::type_render::TypeExpr) -> Seq<char> {
    "const "@ + name + ": "@ + type_text(ty)
}

/// The stored form of a required trait item.
pub open spec fn required_ok(item: DocItem, r: RequiredItemRow) -> bool {
    match r {
        RequiredItemRow::Method(m) => trait_method_ok(item, m) && body_state(item.inner) == Some(false),
        RequiredItemRow::AssocConst { name, signature, value } => {
            &&& opt_view(item.name) == Some(name@)
            &&& item.inner matches DocItemInner::AssocConst { type_, value: v } && {
                &&& signature@ == const_signature(name@, type_)
                &&& opt_view(value) == opt_view(v)
            }
        },
    }
}

/// The stored form of an associated type.
pub open spec fn assoc_type_ok(item: DocItem, r: AssocTypeRow) -> bool {
    &&& opt_view(item.name) == Some(r.name@)
    &&& item.inner matches DocItemInner::AssocType { bounds, type_ } && {
        &&& r.bounds@.len() == bounds@.len()
        &&& (forall|k: int| 0 <= k < bounds@.len() ==> (#[trigger] r.bounds@[k])@ == bound_text(bounds@[k]))
        &&& opt_view(r.default) == (match type_ {
            Some(t) => Some(type_text(t)),
            None => None,
        })
    }
}

/// Whether a function item has a body; none for other items.
pub open spec fn body_state(inner: DocItemInner) -> Option<bool> {
    match inner {
        DocItemInner::Function { has_body, .. } => Some(has_body),
        _ => None,
    }
}

/// Whether a trait item is required: a method without a body, or an
/// associated constant.
pub open spec fn is_required(index: Map<u32, DocItem>, id: u32) -> bool {
    &&& index.contains_key(id)
    &&& index[id].name is Some
    &&& body_state(index[id].inner) == Some(false) || index[id].inner is AssocConst
}

/// Whether a trait item is a method with a default body.
pub open spec fn is_provided(index: Map<u32, DocItem>, id: u32) -> bool {
    &&& index.contains_key(id)
    &&& index[id].name is Some
    &&& body_state(index[id].inner) == Some(true)
}

/// Whether a trait item is an associated type.
pub open spec fn is_assoc_type(index: Map<u32, DocItem>, id: u32) -> bool {
    index.contains_key(id) && index[id].name is Some && index[id].inner is AssocType
}

/// The ids of the trait items of one group (0: required, 1: provided,
/// 2: associated types), in order.
pub open spec fn trait_item_ids(index: Map<u32, DocItem>, ids: Seq<u32>, group: int) -> Seq<u32>
    decreases ids.len(),
{
    if ids.len() == 0 {
        seq![]
    } else {
        let prev = trait_item_ids(index, ids.drop_last(), group);
        let id = ids.last();
        let keep = if group == 0 {
            is_required(index, id)
        } else if group == 1 {
            is_provided(index, id)
        } else {
            is_assoc_type(index, id)
        };
        if keep {
            prev.push(id)
        } else {
            prev
        }
    }
}

/// The three groups of a trait's items as stored.
pub open spec fn partition_ok(
    index: Map<u32, DocItem>,
    ids: Seq<u32>,
    required: Seq<RequiredItemRow>,
    provided: Seq<TraitMethodRow>,
    assoc: Seq<AssocTypeRow>,
) -> bool {
    &&& required.len() == trait_item_ids(index, ids, 0).len()
    &&& forall|k: int| 0 <= k < required.len() ==> required_ok(index[trait_item_ids(index, ids, 0)[k]], #[trigger] required[k])
    &&& provided.len() == trait_item_ids(index, ids, 1).len()
    &&& forall|k: int| 0 <= k < provided.len() ==> trait_method_ok(index[trait_item_ids(index, ids, 1)[k]], #[trigger] provided[k])
    &&& assoc.len() == trait_item_ids(index, ids, 2).len()
    &&& forall|k: int| 0 <= k < assoc.len() ==> assoc_type_ok(index[trait_item_ids(index, ids, 2)[k]], #[trigger] assoc[k])
}

fn render_bounds(bounds: &Vec<BoundExpr>) -> (out: Vec<String>)
    ensures
        out@.len() == bounds@.len(),
        forall|k: int| 0 <= k < bounds@.len() ==> (#[trigger] out@[k])@ == bound_text(bounds@[k]),
{
    let mut out: Vec<String> = Vec::new();
    let mut i: usize = 0;
    while i < bounds.len()
        invariant
            i <= bounds.len(),
            out@.len() == i,
            forall|k: int| 0 <= k < i ==> (#[trigger] out@[k])@ == bound_text(bounds@[k]),
        decreases bounds.len() - i,
    {
        out.push(render_bound(&bounds[i]));
        i += 1;
    }
    out
}

/// Sorts a trait's items into required items (methods without a default
/// body and associated constants), provided methods and associated types;
/// unnamed items, items that are not in the document and other kinds are
/// skipped.
pub fn partition_trait_items(ids: &Vec<u32>, index: &HashMap<u32, DocItem>) -> (r: (
    Vec<RequiredItemRow>,
    Vec<TraitMethodRow>,
    Vec<AssocTypeRow>,
))
    ensures
        partition_ok(index@, ids@, r.0@, r.1@, r.2@),
{
    let ghost m = index@;
    let mut required: Vec<RequiredItemRow> = Vec::new();
    let mut provided: Vec<TraitMethodRow> = Vec::new();
    let mut assoc: Vec<AssocTypeRow> = Vec::new();
    let mut i: usize = 0;
    while i < ids.len()
        invariant
            i <= ids.len(),
            m == index@,
            partition_ok(m, ids@.take(i as int), required@, provided@, assoc@),
        decreases ids.len() - i,
    {
        let ghost t = ids@.take(i as int);
        let ghost t1 = ids@.take(i + 1);
        proof {
            assert(t1.drop_last() =~= t);
            assert(t1.last() == ids@[i as int]);
            assert(trait_item_ids(m, t1, 0) == if is_required(m, ids@[i as int]) {
                trait_item_ids(m, t, 0).push(ids@[i as int])
            } else {
                trait_item_ids(m, t, 0)
            });
            assert(trait_item_ids(m, t1, 1) == if is_provided(m, ids@[i as int]) {
                trait_item_ids(m, t, 1).push(ids@[i as int])
            } else {
                trait_item_ids(m, t, 1)
            });
            assert(trait_item_ids(m, t1, 2) == if is_assoc_type(m, ids@[i as int]) {
                trait_item_ids(m, t, 2).push(ids@[i as int])
            } else {
                trait_item_ids(m, t, 2)
            });
        }
        let id = ids[i];
        match index.get(&id) {
            Some(item) => {
                match &item.name {
                    Some(name) => {
                        match &item.inner {
                            DocItemInner::Function { sig, header, has_body, .. } => {
                                let row = TraitMethodRow {
                                    name: name.clone(),
                                    signature: signature_string(name, sig),
                                    is_unsafe: header.is_unsafe,
                                    is_const: header.is_const,
                                    is_async: header.is_async,
                                };
                                if *has_body {
                                    provided.push(row);
                                } else {
                                    required.push(RequiredItemRow::Method(row));
                                }
                            },
                            DocItemInner::AssocType { bounds, type_ } => {
                                let default = match type_ {
                                    Some(t) => Some(render_type(t)),
                                    None => None,
                                };
                                assoc.push(
                                    AssocTypeRow {
                                        name: name.clone(),
                                        bounds: render_bounds(bounds),
                                        default,
                                    },
                                );
                            },
                            DocItemInner::AssocConst { type_, value } => {
                                let mut sig = lit("const ");
                                append_chars(&mut sig, &chars_of_string(name));
                                append_chars(&mut sig, &lit(": "));
                                append_chars(&mut sig, &chars_of_string(&render_type(type_)));
                                required.push(
                                    RequiredItemRow::AssocConst {
                                        name: name.clone(),
                                        signature: string_of(&sig),
                                        value: copy_opt(value),
                                    },
                                );
                            },
                            _ => {},
                        }
                    },
                    None => {},
                }
            },
            None => {},
        }
        i += 1;
    }
    proof {
        assert(ids@.take(ids@.len() as int) =~= ids@);
    }
    (required, provided, assoc)
}

/// One trait definition as stored.
#[derive(Debug, Clone)]
pub struct IndexedTrait {
    pub trait_name: String,
    pub is_auto: bool,
    pub is_unsafe: bool,
    pub is_dyn_compatible: bool,
    pub supertraits: Vec<String>,
    pub required_methods: Vec<RequiredItemRow>,
    pub provided_methods: Vec<TraitMethodRow>,
    pub associated_types: Vec<AssocTypeRow>,
    pub generics: Vec<GenericParamRow>,
    pub rustdoc_item_id: Option<i32>,
    pub docs: Option<String>,
}

/// Whether an item is a named trait.
pub open spec fn is_trait(index: Map<u32, DocItem>, id: u32) -> bool {
    index.contains_key(id) && index[id].name is Some && index[id].inner is Trait
}

/// The ids of the named traits, in visiting order.
pub open spec fn trait_ids(index: Map<u32, DocItem>, ids: Seq<u32>) -> Seq<u32>
    decreases ids.len(),
{
    if ids.len() == 0 {
        seq![]
    } else {
        let prev = trait_ids(index, ids.drop_last());
        if is_trait(index, ids.last()) {
            prev.push(ids.last())
        } else {
            prev
        }
    }
}

/// The stored form of the trait `id`.
pub open spec fn trait_row_ok(index: Map<u32, DocItem>, id: u32, item: DocItem, r: IndexedTrait) -> bool {
    &&& opt_view(item.name) == Some(r.trait_name@)
    &&& item.inner matches DocItemInner::Trait {
        is_auto,
        is_unsafe,
        is_dyn_compatible,
        items,
        generics,
        bounds,
    } && {
        &&& r.is_auto == is_auto
        &&& r.is_unsafe == is_unsafe
        &&& r.is_dyn_compatible == is_dyn_compatible
        &&& r.supertraits@.len() == bounds@.len()
        &&& (forall|k: int| 0 <= k < bounds@.len() ==> (#[trigger] r.supertraits@[k])@ == bound_text(bounds@[k]))
        &&& partition_ok(index, items@, r.required_methods@, r.provided_methods@, r.associated_types@)
        &&& params_ok(generics.params@, r.generics@)
    }
    &&& r.rustdoc_item_id == Some(id as i32)
    &&& opt_view(r.docs) == opt_view(item.docs)
}

fn trait_row(id: u32, item: &DocItem, index: &HashMap<u32, DocItem>) -> (r: Option<IndexedTrait>)
    ensures
        (item.name is Some && item.inner is Trait) <==> r is Some,
        r matches Some(row) ==> trait_row_ok(index@, id, *item, row),
{
    let name = match &item.name {
        Some(n) => n.clone(),
        None => {
            return None;
        },
    };
    match &item.inner {
        DocItemInner::Trait { is_auto, is_unsafe, is_dyn_compatible, items, generics, bounds } => {
            let (required, provided, assoc) = partition_trait_items(items, index);
            Some(
                IndexedTrait {
                    trait_name: name,
                    is_auto: *is_auto,
                    is_unsafe: *is_unsafe,
                    is_dyn_compatible: *is_dyn_compatible,
                    supertraits: render_bounds(bounds),
                    required_methods: required,
                    provided_methods: provided,
                    associated_types: assoc,
                    generics: serialize_generic_params(&generics.params),
                    rustdoc_item_id: Some(id as i32),
                    docs: copy_opt(&item.docs),
                },
            )
        },
        _ => None,
    }
}

/// The named traits of a document, in visiting order.
pub fn extract_traits(krate: &DocCrate) -> (out: Vec<IndexedTrait>)
    ensures
        out@.len() == trait_ids(krate.index@, krate.ids@).len(),
        forall|k: int|
            0 <= k < out@.len() ==> {
                let id = trait_ids(krate.index@, krate.ids@)[k];
                trait_row_ok(krate.index@, id, krate.index@[id], #[trigger] out@[k])
            },
{
    let ghost m = krate.index@;
    let ghost ids = krate.ids@;
    let mut out: Vec<IndexedTrait> = Vec::new();
    let mut i: usize = 0;
    while i < krate.ids.len()
        invariant
            i <= ids.len(),
            m == krate.index@,
            ids == krate.ids@,
            out@.len() == trait_ids(m, ids.take(i as int)).len(),
            forall|k: int|
                0 <= k < out@.len() ==> {
                    let id = trait_ids(m, ids.take(i as int))[k];
                    trait_row_ok(m, id, m[id], #[trigger] out@[k])
                },
        decreases ids.len() - i,
    {
        let ghost prev = trait_ids(m, ids.take(i as int));
        proof {
            assert(ids.take(i + 1).drop_last() =~= ids.take(i as int));
            assert(ids.take(i + 1).last() == ids[i as int]);
        }
        let id = krate.ids[i];
        match krate.index.get(&id) {
            Some(item) => {
                match trait_row(id, item, &krate.index) {
                    Some(row) => {
                        out.push(row);
                        proof {
                            assert(trait_ids(m, ids.take(i + 1)) == prev.push(id));
                        }
                    },
                    None => {},
                }
            },
            None => {},
        }
        i += 1;
    }
    proof {
        assert(ids.take(ids.len() as int) =~= ids);
    }
    out
}


/// The target and glob flag of a `use` item; none for other items.
pub open spec fn use_parts(inner: DocItemInner) -> Option<(Option<u32>, bool)> {
    match inner {
        DocItemInner::Use { target, is_glob } => Some((target, is_glob)),
        _ => None,
    }
}

/// The `use` items among the ids, in order.
pub open spec fn doc_uses(index: Map<u32, DocItem>, ids: Seq<u32>) -> Seq<UseEntry>
    decreases ids.len(),
{
    if ids.len() == 0 {
        seq![]
    } else {
        let prev = doc_uses(index, ids.drop_last());
        let id = ids.last();
        if index.contains_key(id) && use_parts(index[id].inner) is Some {
            let (target, is_glob) = use_parts(index[id].inner)->0;
            prev.push(
                UseEntry { id, target, is_public: index[id].visibility is Public, is_glob },
            )
        } else {
            prev
        }
    }
}

/// The target of each `use` item among the ids.
pub open spec fn doc_use_targets(index: Map<u32, DocItem>, ids: Seq<u32>) -> Map<u32, Option<u32>>
    decreases ids.len(),
{
    if ids.len() == 0 {
        Map::empty()
    } else {
        let prev = doc_use_targets(index, ids.drop_last());
        let id = ids.last();
        if index.contains_key(id) && use_parts(index[id].inner) is Some {
            let (target, _) = use_parts(index[id].inner)->0;
            prev.insert(id, target)
        } else {
            prev
        }
    }
}

/// The canonical path of each item of a document: its documented path,
/// improved by the public re-exports among its `use` items.
pub open spec fn doc_canonical(krate: DocCrate) -> Map<u32, Seq<char>> {
    canonical_fold(
        paths_view(krate.paths@),
        doc_use_targets(krate.index@, krate.ids@),
        doc_uses(krate.index@, krate.ids@),
    )
}

/// The rows of a document's symbols, types, impls and traits.
#[derive(Debug, Clone)]
pub struct ExtractionBatch {
    pub symbols: Vec<IndexedSymbol>,
    pub types: Vec<IndexedType>,
    pub impls: Vec<IndexedImpl>,
    pub traits: Vec<IndexedTrait>,
}

/// What the extraction of a document gives: one row per symbol, type, impl
/// and trait item, in visiting order, each as its `*_row_ok` describes.
pub open spec fn extraction_ok(krate: DocCrate, b: ExtractionBatch) -> bool {
    let m = krate.index@;
    let ids = krate.ids@;
    let canonical = doc_canonical(krate);
    &&& b.symbols@.len() == symbol_ids(m, ids).len()
    &&& forall|k: int|
        0 <= k < b.symbols@.len() ==> {
            let id = symbol_ids(m, ids)[k];
            symbol_row_ok(canonical, krate.paths@, id, m[id], #[trigger] b.symbols@[k])
        }
    &&& b.types@.len() == type_ids(m, ids).len()
    &&& forall|k: int|
        0 <= k < b.types@.len() ==> {
            let id = type_ids(m, ids)[k];
            type_row_ok(m, canonical, krate.paths@, id, m[id], #[trigger] b.types@[k])
        }
    &&& b.impls@.len() == impl_ids(m, ids).len()
    &&& forall|k: int|
        0 <= k < b.impls@.len() ==> {
            let id = impl_ids(m, ids)[k];
            impl_row_ok(m, id, m[id], #[trigger] b.impls@[k])
        }
    &&& b.traits@.len() == trait_ids(m, ids).len()
    &&& forall|k: int|
        0 <= k < b.traits@.len() ==> {
            let id = trait_ids(m, ids)[k];
            trait_row_ok(m, id, m[id], #[trigger] b.traits@[k])
        }
}

/// The `use` items of a document and the target of each.
fn collect_uses(krate: &DocCrate) -> (r: (Vec<UseEntry>, HashMap<u32, Option<u32>>))
    ensures
        r.0@ == doc_uses(krate.index@, krate.ids@),
        r.1@ == doc_use_targets(krate.index@, krate.ids@),
{
    let ghost m = krate.index@;
    let ghost ids = krate.ids@;
    let mut uses: Vec<UseEntry> = Vec::new();
    let mut targets: HashMap<u32, Option<u32>> = HashMap::new();
    let mut i: usize = 0;
    while i < krate.ids.len()
        invariant
            i <= ids.len(),
            m == krate.index@,
            ids == krate.ids@,
            uses@ == doc_uses(m, ids.take(i as int)),
            targets@ == doc_use_targets(m, ids.take(i as int)),
        decreases ids.len() - i,
    {
        proof {
            assert(ids.take(i + 1).drop_last() =~= ids.take(i as int));
            assert(ids.take(i + 1).last() == ids[i as int]);
        }
        let id = krate.ids[i];
        match krate.index.get(&id) {
            Some(item) => {
                match &item.inner {
                    DocItemInner::Use { target, is_glob } => {
                        let is_public = match &item.visibility {
                            VisibilityKind::Public => true,
                            _ => false,
                        };
                        uses.push(UseEntry { id, target: *target, is_public, is_glob: *is_glob });
                        targets.insert(id, *target);
                    },
                    _ => {},
                }
            },
            None => {},
        }
        i += 1;
    }
    proof {
        assert(ids.take(ids.len() as int) =~= ids);
    }
    (uses, targets)
}

/// Extracts the symbols, types, impls and traits of a document. Canonical
/// paths prefer the best-ranked public re-export of an item.
pub fn extract_all(krate: &DocCrate) -> (out: ExtractionBatch)
    ensures
        extraction_ok(*krate, out),
{
    let (uses, targets) = collect_uses(krate);
    let canonical = build_canonical_path_map(krate.paths.clone(), &uses, &targets);
    ExtractionBatch {
        symbols: extract_symbols(krate, &canonical),
        types: extract_types(krate, &canonical),
        impls: extract_impls(krate),
        traits: extract_traits(krate),
    }
}

/// Extracting the same document twice gives the same rows: the same number
/// of each kind, and rows that agree wherever their contract pins them.
pub proof fn law_extraction_repeatable(krate: DocCrate, a: ExtractionBatch, b: ExtractionBatch)
    requires
        extraction_ok(krate, a),
        extraction_ok(krate, b),
    ensures
        a.symbols@.len() == b.symbols@.len(),
        a.types@.len() == b.types@.len(),
        a.impls@.len() == b.impls@.len(),
        a.traits@.len() == b.traits@.len(),
        forall|k: int|
            0 <= k < a.symbols@.len() ==> (#[trigger] a.symbols@[k]).name@ == b.symbols@[k].name@
                && opt_view(a.symbols@[k].canonical_path) == opt_view(b.symbols@[k].canonical_path),
{
    assert forall|k: int| 0 <= k < a.symbols@.len() implies (#[trigger] a.symbols@[k]).name@
        == b.symbols@[k].name@ && opt_view(a.symbols@[k].canonical_path) == opt_view(
        b.symbols@[k].canonical_path,
    ) by {
        let id = symbol_ids(krate.index@, krate.ids@)[k];
        let item = krate.index@[id];
        assert(symbol_row_ok(doc_canonical(krate), krate.paths@, id, item, a.symbols@[k]));
        assert(symbol_row_ok(doc_canonical(krate), krate.paths@, id, item, b.symbols@[k]));
    }
}


/// An extracted symbol that has a documented path also has a canonical
/// path, and that canonical path ranks no worse than the documented one
/// (fewer `::` segments, then shorter, then smaller text).
pub proof fn law_canonical_never_worse_than_definition(krate: DocCrate, b: ExtractionBatch, k: int)
    requires
        extraction_ok(krate, b),
        0 <= k < b.symbols@.len(),
        b.symbols@[k].definition_path is Some,
    ensures
        b.symbols@[k].canonical_path is Some,
        rank_le(
            b.symbols@[k].canonical_path->0@,
            b.symbols@[k].definition_path->0@,
        ),
{
    let m = krate.index@;
    let ids = krate.ids@;
    let id = symbol_ids(m, ids)[k];
    let c0 = paths_view(krate.paths@);
    let tm = doc_use_targets(m, ids);
    let uses = doc_uses(m, ids);
    assert(symbol_row_ok(doc_canonical(krate), krate.paths@, id, m[id], b.symbols@[k]));
    assert(c0.dom().contains(id));
    assert(uses.take(0) =~= Seq::<UseEntry>::empty());
    assert(uses.take(uses.len() as int) =~= uses);
    lemma_fold_improves(c0, tm, uses, 0, uses.len() as int, id);
}

} // verus!
