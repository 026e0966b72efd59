//! Extraction of a rustdoc document into the rows the index stores:
//! symbols, types (with fields and variants), impls (with methods) and
//! traits (with their items).
use vstd::prelude::*;
use std::collections::HashMap;
use crate::doc_model::{
    has_non_exhaustive, item_kind, kind_of, AttrKind, DocCrate, DocItem, DocItemInner, StructShape,
    VariantFields,
};
use crate::sorted::strictly_sorted;
use crate::canonical_paths::paths_view;
use crate::jobs::opt_view;
use crate::text::{
    after_last, chars_of, chars_of_string, decimal, decimal_chars, lit, str_views, string_of, trim,
    trim_chars,
};
use crate::type_render::{
    auto_trait_names, build_signature, collect_auto_traits, extract_span, item_enum_to_kind, item_kind_label, param_decl_text,
    render_generic_param, render_type, render_where_predicate, signature_of, span_lines,
    type_text, visibility_label, visibility_string, where_text, GenericParamExpr,
    GenericParamKind, ImplSummary, ItemKindTag, WherePredicateExpr,
};

verus! {

broadcast use vstd::std_specs::hash::group_hash_axioms;

/// A copy of an optional string.
pub(crate) fn copy_opt(o: &Option<String>) -> (r: Option<String>)
    ensures
        opt_view(r) == opt_view(*o),
{
    match o {
        Some(s) => Some(s.clone()),
        None => None,
    }
}

/// One generic parameter as stored: its name, its kind and its declaration.
#[derive(Debug, Clone)]
pub struct GenericParamRow {
    pub name: String,
    pub kind: String,
    pub rendered: String,
}

/// The kind label of a generic parameter.
pub open spec fn param_kind_text(k: GenericParamKind) -> Seq<char> {
    match k {
        GenericParamKind::Lifetime { .. } => "lifetime"@,
        GenericParamKind::Type { .. } => "type"@,
        GenericParamKind::Const { .. } => "const"@,
    }
}

/// The stored form of a generic parameter.
pub open spec fn param_row_ok(p: GenericParamExpr, r: GenericParamRow) -> bool {
    &&& r.name@ == p.name@
    &&& r.kind@ == param_kind_text(p.kind)
    &&& r.rendered@ == param_decl_text(p)
}

/// The stored form of a generic parameter list, one row each, in order.
pub open spec fn params_ok(params: Seq<GenericParamExpr>, rows: Seq<GenericParamRow>) -> bool {
    &&& rows.len() == params.len()
    &&& forall|k: int| 0 <= k < params.len() ==> param_row_ok(#[trigger] params[k], rows[k])
}

/// The stored form of generic parameters, one row each, in order.
pub fn serialize_generic_params(params: &Vec<GenericParamExpr>) -> (out: Vec<GenericParamRow>)
    ensures
        params_ok(params@, out@),
{
    let mut out: Vec<GenericParamRow> = Vec::new();
    let mut i: usize = 0;
    while i < params.len()
        invariant
            i <= params.len(),
            out@.len() == i,
            forall|k: int| 0 <= k < i ==> param_row_ok(#[trigger] params@[k], out@[k]),
        decreases params.len() - i,
    {
        let p = &params[i];
        let kind = match &p.kind {
            GenericParamKind::Lifetime { .. } => lit("lifetime"),
            GenericParamKind::Type { .. } => lit("type"),
            GenericParamKind::Const { .. } => lit("const"),
        };
        let row = GenericParamRow {
            name: p.name.clone(),
            kind: string_of(&kind),
            rendered: render_generic_param(p),
        };
        out.push(row);
        i += 1;
    }
    out
}

/// The stored form of `where` predicates: their source text, in order.
pub open spec fn wheres_ok(preds: Seq<WherePredicateExpr>, rows: Seq<String>) -> bool {
    &&& rows.len() == preds.len()
    &&& forall|k: int| 0 <= k < preds.len() ==> (#[trigger] rows[k])@ == where_text(preds[k])
}

/// The stored form of `where` predicates: their source text, in order.
pub fn serialize_where_predicates(preds: &Vec<WherePredicateExpr>) -> (out: Vec<String>)
    ensures
        wheres_ok(preds@, out@),
{
    let mut out: Vec<String> = Vec::new();
    let mut i: usize = 0;
    while i < preds.len()
        invariant
            i <= preds.len(),
            out@.len() == i,
            forall|k: int| 0 <= k < i ==> (#[trigger] out@[k])@ == where_text(preds@[k]),
        decreases preds.len() - i,
    {
        out.push(render_where_predicate(&preds[i]));
        i += 1;
    }
    out
}

/// The documented path of an item, if it has one.
pub fn resolve_definition_path(id: u32, paths: &HashMap<u32, String>) -> (r: Option<String>)
    ensures
        opt_view(r) == (if paths@.contains_key(id) {
            Some(paths@[id]@)
        } else {
            None
        }),
{
    match paths.get(&id) {
        Some(p) => Some(p.clone()),
        None => None,
    }
}

/// One field of a struct, union or variant as stored.
#[derive(Debug, Clone)]
pub struct FieldRow {
    pub name: Option<String>,
    pub type_: String,
    pub visibility: Option<String>,
}

/// Whether an id names a field item of the document.
pub open spec fn is_field(index: Map<u32, DocItem>, id: u32) -> bool {
    index.contains_key(id) && index[id].inner is StructField
}

/// The ids of a field list that name field items, in order.
pub open spec fn field_ids(index: Map<u32, DocItem>, ids: Seq<u32>) -> Seq<u32>
    decreases ids.len(),
{
    if ids.len() == 0 {
        seq![]
    } else {
        let prev = field_ids(index, ids.drop_last());
        if is_field(index, ids.last()) {
            prev.push(ids.last())
        } else {
            prev
        }
    }
}

/// The positions and ids of a positional field list that name field
/// items, in order.
pub open spec fn tuple_field_ids(index: Map<u32, DocItem>, ids: Seq<Option<u32>>) -> Seq<(nat, u32)>
    decreases ids.len(),
{
    if ids.len() == 0 {
        seq![]
    } else {
        let prev = tuple_field_ids(index, ids.drop_last());
        match ids.last() {
            Some(id) => if is_field(index, id) {
                prev.push(((ids.len() - 1) as nat, id))
            } else {
                prev
            },
            None => prev,
        }
    }
}

/// The stored form of a field item under the given name.
pub open spec fn field_row_ok(item: DocItem, name: Option<Seq<char>>, r: FieldRow) -> bool {
    &&& item.inner matches DocItemInner::StructField(t) && r.type_@ == type_text(t)
    &&& opt_view(r.name) == name
    &&& opt_view(r.visibility) == Some(visibility_label(item.visibility))
}

/// The stored fields of a named field list.
pub open spec fn fields_ok(index: Map<u32, DocItem>, ids: Seq<u32>, rows: Seq<FieldRow>) -> bool {
    &&& rows.len() == field_ids(index, ids).len()
    &&& forall|k: int|
        0 <= k < rows.len() ==> {
            let item = index[field_ids(index, ids)[k]];
            field_row_ok(item, opt_view(item.name), #[trigger] rows[k])
        }
}

/// The stored fields of a positional field list.
pub open spec fn tuple_fields_ok(index: Map<u32, DocItem>, ids: Seq<Option<u32>>, rows: Seq<FieldRow>) -> bool {
    &&& rows.len() == tuple_field_ids(index, ids).len()
    &&& forall|k: int|
        0 <= k < rows.len() ==> {
            let e = tuple_field_ids(index, ids)[k];
            field_row_ok(index[e.1], Some(decimal(e.0)), #[trigger] rows[k])
        }
}

fn field_row(item: &DocItem, name: Option<String>) -> (r: Option<FieldRow>)
    ensures
        item.inner is StructField <==> r is Some,
        r matches Some(row) ==> field_row_ok(*item, opt_view(name), row),
{
    match &item.inner {
        DocItemInner::StructField(t) => {
            let vis = visibility_string(&item.visibility);
            Some(FieldRow { name, type_: render_type(t), visibility: vis })
        },
        _ => None,
    }
}

/// The named fields of a list of field ids; ids that do not name a field
/// item are skipped.
pub fn resolve_fields(ids: &Vec<u32>, index: &HashMap<u32, DocItem>) -> (out: Vec<FieldRow>)
    ensures
        fields_ok(index@, ids@, out@),
{
    let ghost m = index@;
    let mut out: Vec<FieldRow> = Vec::new();
    let mut i: usize = 0;
    while i < ids.len()
        invariant
            i <= ids.len(),
            m == index@,
            out@.len() == field_ids(m, ids@.take(i as int)).len(),
            forall|k: int|
                0 <= k < out@.len() ==> {
                    let item = m[field_ids(m, ids@.take(i as int))[k]];
                    field_row_ok(item, opt_view(item.name), #[trigger] out@[k])
                },
        decreases ids.len() - i,
    {
        let ghost prev = field_ids(m, ids@.take(i as int));
        proof {
            assert(ids@.take(i + 1).drop_last() =~= ids@.take(i as int));
            assert(ids@.take(i + 1).last() == ids@[i as int]);
        }
        let id = ids[i];
        match index.get(&id) {
            Some(item) => {
                match field_row(item, copy_opt(&item.name)) {
                    Some(row) => {
                        out.push(row);
                        proof {
                            assert(field_ids(m, ids@.take(i + 1)) == prev.push(id));
                        }
                    },
                    None => {},
                }
            },
            None => {},
        }
        i += 1;
    }
    proof {
        assert(ids@.take(ids@.len() as int) =~= ids@);
    }
    out
}

/// The positional fields of a list of optional field ids, named by their
/// position; stripped positions and ids that do not name a field item are
/// skipped.
pub fn resolve_tuple_fields(ids: &Vec<Option<u32>>, index: &HashMap<u32, DocItem>) -> (out: Vec<
    FieldRow,
>)
    ensures
        tuple_fields_ok(index@, ids@, out@),
{
    let ghost m = index@;
    let mut out: Vec<FieldRow> = Vec::new();
    let mut i: usize = 0;
    while i < ids.len()
        invariant
            i <= ids.len(),
            m == index@,
            out@.len() == tuple_field_ids(m, ids@.take(i as int)).len(),
            forall|k: int|
                0 <= k < out@.len() ==> {
                    let e = tuple_field_ids(m, ids@.take(i as int))[k];
                    field_row_ok(m[e.1], Some(decimal(e.0)), #[trigger] out@[k])
                },
        decreases ids.len() - i,
    {
        let ghost prev = tuple_field_ids(m, ids@.take(i as int));
        proof {
            assert(ids@.take(i + 1).drop_last() =~= ids@.take(i as int));
            assert(ids@.take(i + 1).last() == ids@[i as int]);
        }
        match ids[i] {
            Some(id) => {
                match index.get(&id) {
                    Some(item) => {
                        let name = string_of(&decimal_chars(i as u64));
                        match field_row(item, Some(name)) {
                            Some(row) => {
                                out.push(row);
                                proof {
                                    assert(tuple_field_ids(m, ids@.take(i + 1)) == prev.push(
                                        (i as nat, id),
                                    ));
                                }
                            },
                            None => {},
                        }
                    },
                    None => {},
                }
            },
            None => {},
        }
        i += 1;
    }
    proof {
        assert(ids@.take(ids@.len() as int) =~= ids@);
    }
    out
}


/// One variant of an enum as stored.
#[derive(Debug, Clone)]
pub struct VariantRow {
    pub name: String,
    pub kind: String,
    pub fields: Vec<FieldRow>,
    pub discriminant: Option<String>,
}

/// Whether an id names a named variant item of the document.
pub open spec fn is_variant(index: Map<u32, DocItem>, id: u32) -> bool {
    index.contains_key(id) && index[id].name is Some && index[id].inner is Variant
}

/// The ids of a variant list that name variant items, in order.
pub open spec fn variant_ids(index: Map<u32, DocItem>, ids: Seq<u32>) -> Seq<u32>
    decreases ids.len(),
{
    if ids.len() == 0 {
        seq![]
    } else {
        let prev = variant_ids(index, ids.drop_last());
        if is_variant(index, ids.last()) {
            prev.push(ids.last())
        } else {
            prev
        }
    }
}

/// The stored form of a variant item.
pub open spec fn variant_row_ok(index: Map<u32, DocItem>, item: DocItem, r: VariantRow) -> bool {
    &&& opt_view(item.name) == Some(r.name@)
    &&& item.inner matches DocItemInner::Variant { fields, discriminant } && {
        &&& opt_view(r.discriminant) == opt_view(discriminant)
        &&& match fields {
            VariantFields::Plain => r.kind@ == "plain"@ && r.fields@.len() == 0,
            VariantFields::Tuple(ts) => r.kind@ == "tuple"@ && tuple_fields_ok(index, ts@, r.fields@),
            VariantFields::Struct { fields } => r.kind@ == "struct"@ && fields_ok(
                index,
                fields@,
                r.fields@,
            ),
        }
    }
}

/// The stored variants of a variant list.
pub open spec fn variants_ok(index: Map<u32, DocItem>, ids: Seq<u32>, rows: Seq<VariantRow>) -> bool {
    &&& rows.len() == variant_ids(index, ids).len()
    &&& forall|k: int|
        0 <= k < rows.len() ==> variant_row_ok(index, index[variant_ids(index, ids)[k]], #[trigger] rows[k])
}

fn variant_row(item: &DocItem, index: &HashMap<u32, DocItem>) -> (r: Option<VariantRow>)
    ensures
        (item.name is Some && item.inner is Variant) <==> r is Some,
        r matches Some(row) ==> variant_row_ok(index@, *item, row),
{
    let name = match &item.name {
        Some(n) => n.clone(),
        None => {
            return None;
        },
    };
    match &item.inner {
        DocItemInner::Variant { fields, discriminant } => {
            let (kind, rows) = match fields {
                VariantFields::Plain => (lit("plain"), Vec::new()),
                VariantFields::Tuple(ts) => (lit("tuple"), resolve_tuple_fields(ts, index)),
                VariantFields::Struct { fields } => (lit("struct"), resolve_fields(fields, index)),
            };
            Some(
                VariantRow {
                    name,
                    kind: string_of(&kind),
                    fields: rows,
                    discriminant: copy_opt(discriminant),
                },
            )
        },
        _ => None,
    }
}

/// The variants of an enum; ids that do not name a named variant item are
/// skipped.
pub fn collect_variants(ids: &Vec<u32>, index: &HashMap<u32, DocItem>) -> (out: Vec<VariantRow>)
    ensures
        variants_ok(index@, ids@, out@),
{
    let ghost m = index@;
    let mut out: Vec<VariantRow> = Vec::new();
    let mut i: usize = 0;
    while i < ids.len()
        invariant
            i <= ids.len(),
            m == index@,
            out@.len() == variant_ids(m, ids@.take(i as int)).len(),
            forall|k: int|
                0 <= k < out@.len() ==> variant_row_ok(
                    m,
                    m[variant_ids(m, ids@.take(i as int))[k]],
                    #[trigger] out@[k],
                ),
        decreases ids.len() - i,
    {
        let ghost prev = variant_ids(m, ids@.take(i as int));
        proof {
            assert(ids@.take(i + 1).drop_last() =~= ids@.take(i as int));
            assert(ids@.take(i + 1).last() == ids@[i as int]);
        }
        let id = ids[i];
        match index.get(&id) {
            Some(item) => {
                match variant_row(item, index) {
                    Some(row) => {
                        out.push(row);
                        proof {
                            assert(variant_ids(m, ids@.take(i + 1)) == prev.push(id));
                        }
                    },
                    None => {},
                }
            },
            None => {},
        }
        i += 1;
    }
    proof {
        assert(ids@.take(ids@.len() as int) =~= ids@);
    }
    out
}


/// The documented path of an item, if it has one.
pub open spec fn def_path(paths: Map<u32, String>, id: u32) -> Option<Seq<char>> {
    if paths.contains_key(id) {
        Some(paths[id]@)
    } else {
        None
    }
}

/// The canonical path of an item: from the canonical map, else its
/// documented path.
pub open spec fn canon_path(canonical: Map<u32, Seq<char>>, paths: Map<u32, String>, id: u32) -> Option<Seq<char>> {
    if canonical.contains_key(id) {
        Some(canonical[id])
    } else {
        def_path(paths, id)
    }
}

/// The version an item was deprecated in, if it says.
pub open spec fn deprecated_since_of(item: DocItem) -> Option<Seq<char>> {
    match item.deprecation {
        Some(d) => opt_view(d.since),
        None => None,
    }
}

/// The deprecation note of an item, if it has one.
pub open spec fn deprecated_note_of(item: DocItem) -> Option<Seq<char>> {
    match item.deprecation {
        Some(d) => opt_view(d.note),
        None => None,
    }
}

fn deprecation_parts(item: &DocItem) -> (r: (Option<String>, Option<String>))
    ensures
        opt_view(r.0) == deprecated_since_of(*item),
        opt_view(r.1) == deprecated_note_of(*item),
{
    match &item.deprecation {
        Some(d) => (copy_opt(&d.since), copy_opt(&d.note)),
        None => (None, None),
    }
}

fn canonical_path_of(id: u32, canonical: &HashMap<u32, String>, paths: &HashMap<u32, String>) -> (r:
    Option<String>)
    ensures
        opt_view(r) == canon_path(paths_view(canonical@), paths@, id),
{
    match canonical.get(&id) {
        Some(c) => Some(c.clone()),
        None => resolve_definition_path(id, paths),
    }
}

/// One symbol of a document as stored.
#[derive(Debug, Clone)]
pub struct IndexedSymbol {
    pub name: String,
    pub kind: String,
    pub visibility: Option<String>,
    pub signature: Option<String>,
    pub start_line: i32,
    pub end_line: i32,
    pub rustdoc_item_id: Option<i32>,
    pub canonical_path: Option<String>,
    pub definition_path: Option<String>,
    pub deprecated_since: Option<String>,
    pub deprecated_note: Option<String>,
    pub docs: Option<String>,
}

/// Whether an item is stored as a symbol: it has a name that is not blank,
/// and it is not a module, a `use` or an `extern crate`.
pub open spec fn is_symbol(index: Map<u32, DocItem>, id: u32) -> bool {
    &&& index.contains_key(id)
    &&& index[id].name matches Some(n) && trim(n@).len() > 0
    &&& !(kind_of(index[id].inner) is Module || kind_of(index[id].inner) is Use || kind_of(
        index[id].inner,
    ) is ExternCrate)
}

/// The ids of the items stored as symbols, in visiting order.
pub open spec fn symbol_ids(index: Map<u32, DocItem>, ids: Seq<u32>) -> Seq<u32>
    decreases ids.len(),
{
    if ids.len() == 0 {
        seq![]
    } else {
        let prev = symbol_ids(index, ids.drop_last());
        if is_symbol(index, ids.last()) {
            prev.push(ids.last())
        } else {
            prev
        }
    }
}

/// The stored form of the symbol of item `id`.
pub open spec fn symbol_row_ok(
    canonical: Map<u32, Seq<char>>,
    paths: Map<u32, String>,
    id: u32,
    item: DocItem,
    r: IndexedSymbol,
) -> bool {
    &&& item.name matches Some(n) && r.name@ == trim(n@)
    &&& r.kind@ == item_kind_label(kind_of(item.inner))
    &&& opt_view(r.visibility) == Some(visibility_label(item.visibility))
    &&& opt_view(r.signature) == signature_of(item.name, item.inner)
    &&& (r.start_line, r.end_line) == span_lines(item.span)
    &&& r.rustdoc_item_id == Some(id as i32)
    &&& opt_view(r.canonical_path) == canon_path(canonical, paths, id)
    &&& opt_view(r.definition_path) == def_path(paths, id)
    &&& opt_view(r.deprecated_since) == deprecated_since_of(item)
    &&& opt_view(r.deprecated_note) == deprecated_note_of(item)
    &&& opt_view(r.docs) == opt_view(item.docs)
}

fn str_string(s: &str) -> (r: String)
    ensures
        r@ == s@,
{
    string_of(&chars_of(s))
}

fn symbol_row(
    id: u32,
    item: &DocItem,
    canonical: &HashMap<u32, String>,
    paths: &HashMap<u32, String>,
) -> (r: Option<IndexedSymbol>)
    ensures
        r is Some <==> (item.name matches Some(n) && trim(n@).len() > 0 && !(kind_of(item.inner) is Module
            || kind_of(item.inner) is Use || kind_of(item.inner) is ExternCrate)),
        r matches Some(row) ==> symbol_row_ok(paths_view(canonical@), paths@, id, *item, row),
{
    let name = match &item.name {
        Some(n) => trim_chars(&chars_of_string(n)),
        None => {
            return None;
        },
    };
    if name.len() == 0 {
        return None;
    }
    let kind = item_kind(&item.inner);
    match kind {
        ItemKindTag::Module | ItemKindTag::Use | ItemKindTag::ExternCrate => {
            return None;
        },
        _ => {},
    }
    let (start_line, end_line) = extract_span(&item.span);
    let (since, note) = deprecation_parts(item);
    Some(
        IndexedSymbol {
            name: string_of(&name),
            kind: str_string(item_enum_to_kind(kind)),
            visibility: visibility_string(&item.visibility),
            signature: build_signature(&item.name, &item.inner),
            start_line,
            end_line,
            rustdoc_item_id: Some(id as i32),
            canonical_path: canonical_path_of(id, canonical, paths),
            definition_path: resolve_definition_path(id, paths),
            deprecated_since: since,
            deprecated_note: note,
            docs: copy_opt(&item.docs),
        },
    )
}

/// The symbols of a document, in visiting order: every item with a
/// non-blank name except modules, `use` items and `extern crate` items.
pub fn extract_symbols(krate: &DocCrate, canonical: &HashMap<u32, String>) -> (out: Vec<IndexedSymbol>)
    ensures
        out@.len() == symbol_ids(krate.index@, krate.ids@).len(),
        forall|k: int|
            0 <= k < out@.len() ==> {
                let id = symbol_ids(krate.index@, krate.ids@)[k];
                symbol_row_ok(paths_view(canonical@), krate.paths@, id, krate.index@[id], #[trigger] out@[k])
            },
{
    let ghost m = krate.index@;
    let ghost ids = krate.ids@;
    let mut out: Vec<IndexedSymbol> = Vec::new();
    let mut i: usize = 0;
    while i < krate.ids.len()
        invariant
            i <= ids.len(),
            m == krate.index@,
            ids == krate.ids@,
            out@.len() == symbol_ids(m, ids.take(i as int)).len(),
            forall|k: int|
                0 <= k < out@.len() ==> {
                    let id = symbol_ids(m, ids.take(i as int))[k];
                    symbol_row_ok(paths_view(canonical@), krate.paths@, id, m[id], #[trigger] out@[k])
                },
        decreases ids.len() - i,
    {
        let ghost prev = symbol_ids(m, ids.take(i as int));
        proof {
            assert(ids.take(i + 1).drop_last() =~= ids.take(i as int));
            assert(ids.take(i + 1).last() == ids[i as int]);
        }
        let id = krate.ids[i];
        match krate.index.get(&id) {
            Some(item) => {
                match symbol_row(id, item, canonical, &krate.paths) {
                    Some(row) => {
                        out.push(row);
                        proof {
                            assert(symbol_ids(m, ids.take(i + 1)) == prev.push(id));
                        }
                    },
                    None => {},
                }
            },
            None => {},
        }
        i += 1;
    }
    proof {
        assert(ids.take(ids.len() as int) =~= ids);
    }
    out
}


/// The name of the trait of a synthetic trait impl (rustdoc writes those for
/// auto traits).
pub open spec fn synthetic_trait_name(inner: DocItemInner) -> Option<Seq<char>> {
    match inner {
        DocItemInner::Impl { is_synthetic, trait_, .. } => if is_synthetic {
            match trait_ {
                Some(t) => Some(after_last(t.path@, "::"@)),
                None => None,
            }
        } else {
            None
        },
        _ => None,
    }
}

/// The auto-trait names of the synthetic trait impls among a type's impl
/// ids, in order (before sorting).
pub open spec fn doc_auto_trait_names(index: Map<u32, DocItem>, ids: Seq<u32>) -> Seq<Seq<char>>
    decreases ids.len(),
{
    if ids.len() == 0 {
        seq![]
    } else {
        let prev = doc_auto_trait_names(index, ids.drop_last());
        let id = ids.last();
        if index.contains_key(id) && synthetic_trait_name(index[id].inner) is Some {
            prev.push(synthetic_trait_name(index[id].inner)->0)
        } else {
            prev
        }
    }
}

/// The stored auto traits of a type: the distinct names, sorted.
pub open spec fn auto_traits_ok(index: Map<u32, DocItem>, impls: Seq<u32>, rows: Seq<String>) -> bool {
    &&& strictly_sorted(str_views(rows))
    &&& str_views(rows).to_set() == doc_auto_trait_names(index, impls).to_set()
}

/// The auto traits of a type, from the synthetic impls among its impl ids.
pub fn auto_traits_of(impls: &Vec<u32>, index: &HashMap<u32, DocItem>) -> (out: Vec<String>)
    ensures
        auto_traits_ok(index@, impls@, out@),
{
    let ghost m = index@;
    let mut sums: Vec<ImplSummary> = Vec::new();
    let mut i: usize = 0;
    while i < impls.len()
        invariant
            i <= impls.len(),
            m == index@,
            auto_trait_names(sums@) == doc_auto_trait_names(m, impls@.take(i as int)),
        decreases impls.len() - i,
    {
        proof {
            assert(impls@.take(i + 1).drop_last() =~= impls@.take(i as int));
            assert(impls@.take(i + 1).last() == impls@[i as int]);
        }
        let id = impls[i];
        match index.get(&id) {
            Some(item) => {
                match &item.inner {
                    DocItemInner::Impl { is_synthetic, trait_, .. } => {
                        let path = match trait_ {
                            Some(t) => Some(t.path.clone()),
                            None => None,
                        };
                        let s = ImplSummary { is_synthetic: *is_synthetic, trait_path: path };
                        let ghost before = sums@;
                        sums.push(s);
                        proof {
                            assert(sums@.drop_last() =~= before);
                        }
                    },
                    _ => {},
                }
            },
            None => {},
        }
        i += 1;
    }
    proof {
        assert(impls@.take(impls@.len() as int) =~= impls@);
    }
    collect_auto_traits(&sums)
}

/// One type (struct, enum, union or type alias) as stored.
#[derive(Debug, Clone)]
pub struct IndexedType {
    pub name: String,
    pub kind: String,
    pub visibility: Option<String>,
    pub generic_params: Vec<GenericParamRow>,
    pub fields: Vec<FieldRow>,
    pub variants: Vec<VariantRow>,
    pub start_line: i32,
    pub end_line: i32,
    pub rustdoc_item_id: Option<i32>,
    pub canonical_path: Option<String>,
    pub definition_path: Option<String>,
    pub deprecated_since: Option<String>,
    pub deprecated_note: Option<String>,
    pub is_non_exhaustive: bool,
    pub auto_traits: Vec<String>,
    pub where_clauses: Vec<String>,
    pub docs: Option<String>,
}

/// Whether an item is stored as a type.
pub open spec fn is_type_item(index: Map<u32, DocItem>, id: u32) -> bool {
    index.contains_key(id) && (index[id].inner is Struct || index[id].inner is Enum
        || index[id].inner is Union || index[id].inner is TypeAlias)
}

/// The ids of the items stored as types, in visiting order.
pub open spec fn type_ids(index: Map<u32, DocItem>, ids: Seq<u32>) -> Seq<u32>
    decreases ids.len(),
{
    if ids.len() == 0 {
        seq![]
    } else {
        let prev = type_ids(index, ids.drop_last());
        if is_type_item(index, ids.last()) {
            prev.push(ids.last())
        } else {
            prev
        }
    }
}

/// The fields of a type row that every kind fills the same way.
pub open spec fn type_common_ok(
    canonical: Map<u32, Seq<char>>,
    paths: Map<u32, String>,
    id: u32,
    item: DocItem,
    r: IndexedType,
) -> bool {
    &&& r.name@ == (match item.name {
        Some(n) => n@,
        None => seq![],
    })
    &&& opt_view(r.visibility) == Some(visibility_label(item.visibility))
    &&& (r.start_line, r.end_line) == span_lines(item.span)
    &&& r.rustdoc_item_id == Some(id as i32)
    &&& opt_view(r.canonical_path) == canon_path(canonical, paths, id)
    &&& opt_view(r.definition_path) == def_path(paths, id)
    &&& opt_view(r.deprecated_since) == deprecated_since_of(item)
    &&& opt_view(r.deprecated_note) == deprecated_note_of(item)
    &&& opt_view(r.docs) == opt_view(item.docs)
}

/// The stored form of the type of item `id`.
pub open spec fn type_row_ok(
    index: Map<u32, DocItem>,
    canonical: Map<u32, Seq<char>>,
    paths: Map<u32, String>,
    id: u32,
    item: DocItem,
    r: IndexedType,
) -> bool {
    &&& type_common_ok(canonical, paths, id, item, r)
    &&& match item.inner {
        DocItemInner::Struct { shape, generics, impls } => {
            &&& r.kind@ == "struct"@
            &&& params_ok(generics.params@, r.generic_params@)
            &&& wheres_ok(generics.where_predicates@, r.where_clauses@)
            &&& match shape {
                StructShape::Plain { fields } => fields_ok(index, fields@, r.fields@),
                StructShape::Tuple(ts) => tuple_fields_ok(index, ts@, r.fields@),
                StructShape::Unit => r.fields@.len() == 0,
            }
            &&& r.variants@.len() == 0
            &&& r.is_non_exhaustive == item.attrs@.contains(AttrKind::NonExhaustive)
            &&& auto_traits_ok(index, impls@, r.auto_traits@)
        },
        DocItemInner::Enum { generics, variants, impls } => {
            &&& r.kind@ == "enum"@
            &&& params_ok(generics.params@, r.generic_params@)
            &&& wheres_ok(generics.where_predicates@, r.where_clauses@)
            &&& r.fields@.len() == 0
            &&& variants_ok(index, variants@, r.variants@)
            &&& r.is_non_exhaustive == item.attrs@.contains(AttrKind::NonExhaustive)
            &&& auto_traits_ok(index, impls@, r.auto_traits@)
        },
        DocItemInner::Union { generics, fields, impls } => {
            &&& r.kind@ == "union"@
            &&& params_ok(generics.params@, r.generic_params@)
            &&& wheres_ok(generics.where_predicates@, r.where_clauses@)
            &&& fields_ok(index, fields@, r.fields@)
            &&& r.variants@.len() == 0
            &&& r.is_non_exhaustive == item.attrs@.contains(AttrKind::NonExhaustive)
            &&& auto_traits_ok(index, impls@, r.auto_traits@)
        },
        DocItemInner::TypeAlias { generics, .. } => {
            &&& r.kind@ == "type_alias"@
            &&& params_ok(generics.params@, r.generic_params@)
            &&& wheres_ok(generics.where_predicates@, r.where_clauses@)
            &&& r.fields@.len() == 0
            &&& r.variants@.len() == 0
            &&& !r.is_non_exhaustive
            &&& r.auto_traits@.len() == 0
        },
        _ => false,
    }
}

fn type_row(
    id: u32,
    item: &DocItem,
    index: &HashMap<u32, DocItem>,
    canonical: &HashMap<u32, String>,
    paths: &HashMap<u32, String>,
) -> (r: Option<IndexedType>)
    ensures
        r is Some <==> (item.inner is Struct || item.inner is Enum || item.inner is Union
            || item.inner is TypeAlias),
        r matches Some(row) ==> type_row_ok(index@, paths_view(canonical@), paths@, id, *item, row),
{
    let (kind, generics, fields, variants, non_exhaustive, auto_traits) = match &item.inner {
        DocItemInner::Struct { shape, generics, impls } => {
            let fields = match shape {
                StructShape::Plain { fields } => resolve_fields(fields, index),
                StructShape::Tuple(ts) => resolve_tuple_fields(ts, index),
                StructShape::Unit => Vec::new(),
            };
            (
                lit("struct"),
                generics,
                fields,
                Vec::new(),
                has_non_exhaustive(&item.attrs),
                auto_traits_of(impls, index),
            )
        },
        DocItemInner::Enum { generics, variants, impls } => (
            lit("enum"),
            generics,
            Vec::new(),
            collect_variants(variants, index),
            has_non_exhaustive(&item.attrs),
            auto_traits_of(impls, index),
        ),
        DocItemInner::Union { generics, fields, impls } => (
            lit("union"),
            generics,
            resolve_fields(fields, index),
            Vec::new(),
            has_non_exhaustive(&item.attrs),
            auto_traits_of(impls, index),
        ),
        DocItemInner::TypeAlias { generics, .. } => (
            lit("type_alias"),
            generics,
            Vec::new(),
            Vec::new(),
            false,
            Vec::new(),
        ),
        _ => {
            return None;
        },
    };
    let name = match &item.name {
        Some(n) => n.clone(),
        None => String::new(),
    };
    let (start_line, end_line) = extract_span(&item.span);
    let (since, note) = deprecation_parts(item);
    let row = IndexedType {
        name,
        kind: string_of(&kind),
        visibility: visibility_string(&item.visibility),
        generic_params: serialize_generic_params(&generics.params),
        fields,
        variants,
        start_line,
        end_line,
        rustdoc_item_id: Some(id as i32),
        canonical_path: canonical_path_of(id, canonical, paths),
        definition_path: resolve_definition_path(id, paths),
        deprecated_since: since,
        deprecated_note: note,
        is_non_exhaustive: non_exhaustive,
        auto_traits,
        where_clauses: serialize_where_predicates(&generics.where_predicates),
        docs: copy_opt(&item.docs),
    };
    Some(row)
}

/// The types of a document, in visiting order: structs, enums, unions and
/// type aliases.
pub fn extract_types(krate: &DocCrate, canonical: &HashMap<u32, String>) -> (out: Vec<IndexedType>)
    ensures
        out@.len() == type_ids(krate.index@, krate.ids@).len(),
        forall|k: int|
            0 <= k < out@.len() ==> {
                let id = type_ids(krate.index@, krate.ids@)[k];
                type_row_ok(krate.index@, paths_view(canonical@), krate.paths@, id, krate.index@[id], #[trigger] out@[k])
            },
{
    let ghost m = krate.index@;
    let ghost ids = krate.ids@;
    let mut out: Vec<IndexedType> = Vec::new();
    let mut i: usize = 0;
    while i < krate.ids.len()
        invariant
            i <= ids.len(),
            m == krate.index@,
            ids == krate.ids@,
            out@.len() == type_ids(m, ids.take(i as int)).len(),
            forall|k: int|
                0 <= k < out@.len() ==> {
                    let id = type_ids(m, ids.take(i as int))[k];
                    type_row_ok(m, paths_view(canonical@), krate.paths@, id, m[id], #[trigger] out@[k])
                },
        decreases ids.len() - i,
    {
        let ghost prev = type_ids(m, ids.take(i as int));
        proof {
            assert(ids.take(i + 1).drop_last() =~= ids.take(i as int));
            assert(ids.take(i + 1).last() == ids[i as int]);
        }
        let id = krate.ids[i];
        match krate.index.get(&id) {
            Some(item) => {
                match type_row(id, item, &krate.index, canonical, &krate.paths) {
                    Some(row) => {
                        out.push(row);
                        proof {
                            assert(type_ids(m, ids.take(i + 1)) == prev.push(id));
                        }
                    },
                    None => {},
                }
            },
            None => {},
        }
        i += 1;
    }
    proof {
        assert(ids.take(ids.len() as int) =~= ids);
    }
    out
}

} // verus!
