//! A rustdoc JSON document as plain values: the items, with what the
//! extraction of symbols, types, impls and traits reads of each.
use vstd::prelude::*;
use std::collections::HashMap;
use crate::json_tree::{json_opt_view, json_view, JsonData, JsonValue};
use crate::text::{chars_of, string_of};
use crate::type_render::{
    BoundExpr, FnSignatureExpr, GenericParamExpr, ItemKindTag, PathExpr, SpanLines, TypeExpr,
    VisibilityKind, WherePredicateExpr,
};

verus! {

/// The generic parameters and `where` predicates of a declaration.
pub struct GenericsExpr {
    pub params: Vec<GenericParamExpr>,
    pub where_predicates: Vec<WherePredicateExpr>,
}

/// The fields of a struct, by item id: named, positional (a stripped
/// position has no id), or none.
pub enum StructShape {
    Plain { fields: Vec<u32> },
    Tuple(Vec<Option<u32>>),
    Unit,
}

/// The fields of an enum variant, by item id.
pub enum VariantFields {
    Plain,
    Tuple(Vec<Option<u32>>),
    Struct { fields: Vec<u32> },
}

/// The qualifiers of a function header.
#[derive(Clone, Copy, Debug, PartialEq, Eq, Structural)]
pub struct FnHeaderFlags {
    pub is_const: bool,
    pub is_unsafe: bool,
    pub is_async: bool,
}

/// The kind of an item attribute.
#[derive(Clone, Copy, Debug, PartialEq, Eq, Structural)]
pub enum AttrKind {
    NonExhaustive,
    MustUse,
    MacroExport,
    ExportName,
    LinkSection,
    AutomaticallyDerived,
    Repr,
    NoMangle,
    TargetFeature,
    Other,
}

/// The label stored for an attribute kind.
pub open spec fn attr_label(k: AttrKind) -> Seq<char> {
    match k {
        AttrKind::NonExhaustive => "non_exhaustive"@,
        AttrKind::MustUse => "must_use"@,
        AttrKind::MacroExport => "macro_export"@,
        AttrKind::ExportName => "export_name"@,
        AttrKind::LinkSection => "link_section"@,
        AttrKind::AutomaticallyDerived => "automatically_derived"@,
        AttrKind::Repr => "repr"@,
        AttrKind::NoMangle => "no_mangle"@,
        AttrKind::TargetFeature => "target_feature"@,
        AttrKind::Other => "other"@,
    }
}

/// The label of an attribute kind.
pub fn attr_kind_label(k: AttrKind) -> (r: &'static str)
    ensures
        r@ == attr_label(k),
{
    match k {
        AttrKind::NonExhaustive => "non_exhaustive",
        AttrKind::MustUse => "must_use",
        AttrKind::MacroExport => "macro_export",
        AttrKind::ExportName => "export_name",
        AttrKind::LinkSection => "link_section",
        AttrKind::AutomaticallyDerived => "automatically_derived",
        AttrKind::Repr => "repr",
        AttrKind::NoMangle => "no_mangle",
        AttrKind::TargetFeature => "target_feature",
        AttrKind::Other => "other",
    }
}

/// Whether an item is marked `#[non_exhaustive]`.
pub fn has_non_exhaustive(attrs: &Vec<AttrKind>) -> (b: bool)
    ensures
        b == attrs@.contains(AttrKind::NonExhaustive),
{
    has_attr(attrs, AttrKind::NonExhaustive)
}

/// Whether an item carries the attribute `derive` leaves on what it writes.
pub fn is_automatically_derived(attrs: &Vec<AttrKind>) -> (b: bool)
    ensures
        b == attrs@.contains(AttrKind::AutomaticallyDerived),
{
    has_attr(attrs, AttrKind::AutomaticallyDerived)
}

fn has_attr(attrs: &Vec<AttrKind>, k: AttrKind) -> (b: bool)
    ensures
        b == attrs@.contains(k),
{
    let mut i: usize = 0;
    while i < attrs.len()
        invariant
            i <= attrs.len(),
            forall|j: int| 0 <= j < i ==> attrs@[j] != k,
        decreases attrs.len() - i,
    {
        if attrs[i] == k {
            return true;
        }
        i += 1;
    }
    false
}


/// The kind of a `#[repr(..)]`.
#[derive(Clone, Copy, Debug, PartialEq, Eq, Structural)]
pub enum ReprKindTag {
    Rust,
    C,
    Transparent,
    Simd,
}

/// An attribute of an item with what it carries.
pub enum AttrDetail {
    NonExhaustive,
    MustUse { reason: Option<String> },
    MacroExport,
    ExportName(String),
    LinkSection(String),
    AutomaticallyDerived,
    Repr { kind: ReprKindTag, align: Option<u64>, packed: Option<u64>, int_type: Option<String> },
    NoMangle,
    TargetFeature { enable: Vec<String> },
    Other(String),
}

/// The kind of an attribute.
pub open spec fn detail_kind(d: AttrDetail) -> AttrKind {
    match d {
        AttrDetail::NonExhaustive => AttrKind::NonExhaustive,
        AttrDetail::MustUse { .. } => AttrKind::MustUse,
        AttrDetail::MacroExport => AttrKind::MacroExport,
        AttrDetail::ExportName(_) => AttrKind::ExportName,
        AttrDetail::LinkSection(_) => AttrKind::LinkSection,
        AttrDetail::AutomaticallyDerived => AttrKind::AutomaticallyDerived,
        AttrDetail::Repr { .. } => AttrKind::Repr,
        AttrDetail::NoMangle => AttrKind::NoMangle,
        AttrDetail::TargetFeature { .. } => AttrKind::TargetFeature,
        AttrDetail::Other(_) => AttrKind::Other,
    }
}

/// The stored name of a `repr` kind.
pub open spec fn repr_label(k: ReprKindTag) -> Seq<char> {
    match k {
        ReprKindTag::Rust => "Rust"@,
        ReprKindTag::C => "C"@,
        ReprKindTag::Transparent => "transparent"@,
        ReprKindTag::Simd => "simd"@,
    }
}

/// A JSON string, or `null`.
pub open spec fn opt_string_json(o: Option<String>) -> JsonData {
    match o {
        Some(s) => JsonData::Str(s@),
        None => JsonData::Null,
    }
}

/// A JSON number (its decimal text), or `null`.
pub open spec fn opt_number_json(o: Option<u64>) -> JsonData {
    match o {
        Some(n) => JsonData::Number(crate::text::decimal(n as nat)),
        None => JsonData::Null,
    }
}

/// How one attribute is stored: an object with its `kind` label and what
/// the attribute carries.
pub open spec fn attr_json(d: AttrDetail) -> JsonData {
    let kind = ("kind"@, JsonData::Str(attr_label(detail_kind(d))));
    JsonData::Object(
        match d {
            AttrDetail::MustUse { reason } => seq![kind, ("reason"@, opt_string_json(reason))],
            AttrDetail::ExportName(name) => seq![kind, ("name"@, JsonData::Str(name@))],
            AttrDetail::LinkSection(name) => seq![kind, ("name"@, JsonData::Str(name@))],
            AttrDetail::Repr { kind: r, align, packed, int_type } => seq![
                kind,
                ("repr_kind"@, JsonData::Str(repr_label(r))),
                ("align"@, opt_number_json(align)),
                ("packed"@, opt_number_json(packed)),
                ("int"@, opt_string_json(int_type)),
            ],
            AttrDetail::TargetFeature { enable } => seq![
                kind,
                ("enable"@, JsonData::Array(enable@.map_values(|s: String| JsonData::Str(s@)))),
            ],
            AttrDetail::Other(raw) => seq![kind, ("raw"@, JsonData::Str(raw@))],
            _ => seq![kind],
        },
    )
}

/// How an item's attributes are stored: none when it has none, else the
/// array of each one's object.
pub open spec fn attrs_json_spec(ds: Seq<AttrDetail>) -> Option<JsonData> {
    if ds.len() == 0 {
        None
    } else {
        Some(JsonData::Array(ds.map_values(|d: AttrDetail| attr_json(d))))
    }
}

fn text_json(s: &str) -> (r: JsonValue)
    ensures
        json_view(r) == JsonData::Str(s@),
{
    JsonValue::Str(string_of(&chars_of(s)))
}

fn copy_string(s: &String) -> (r: String)
    ensures
        r@ == s@,
{
    string_of(&crate::text::chars_of_string(s))
}

fn opt_string_value(o: &Option<String>) -> (r: JsonValue)
    ensures
        json_view(r) == opt_string_json(*o),
{
    match o {
        Some(s) => JsonValue::Str(copy_string(s)),
        None => JsonValue::Null,
    }
}

fn opt_number_value(o: Option<u64>) -> (r: JsonValue)
    ensures
        json_view(r) == opt_number_json(o),
{
    match o {
        Some(n) => JsonValue::Number(string_of(&crate::text::decimal_chars(n))),
        None => JsonValue::Null,
    }
}

fn repr_kind_text(k: ReprKindTag) -> (r: &'static str)
    ensures
        r@ == repr_label(k),
{
    match k {
        ReprKindTag::Rust => "Rust",
        ReprKindTag::C => "C",
        ReprKindTag::Transparent => "transparent",
        ReprKindTag::Simd => "simd",
    }
}

fn detail_kind_of(d: &AttrDetail) -> (k: AttrKind)
    ensures
        k == detail_kind(*d),
{
    match d {
        AttrDetail::NonExhaustive => AttrKind::NonExhaustive,
        AttrDetail::MustUse { .. } => AttrKind::MustUse,
        AttrDetail::MacroExport => AttrKind::MacroExport,
        AttrDetail::ExportName(_) => AttrKind::ExportName,
        AttrDetail::LinkSection(_) => AttrKind::LinkSection,
        AttrDetail::AutomaticallyDerived => AttrKind::AutomaticallyDerived,
        AttrDetail::Repr { .. } => AttrKind::Repr,
        AttrDetail::NoMangle => AttrKind::NoMangle,
        AttrDetail::TargetFeature { .. } => AttrKind::TargetFeature,
        AttrDetail::Other(_) => AttrKind::Other,
    }
}

fn strings_json(v: &Vec<String>) -> (r: JsonValue)
    ensures
        json_view(r) == JsonData::Array(v@.map_values(|s: String| JsonData::Str(s@))),
{
    let mut out: Vec<JsonValue> = Vec::new();
    let mut i: usize = 0;
    while i < v.len()
        invariant
            i <= v.len(),
            out@.len() == i,
            forall|k: int| 0 <= k < i ==> #[trigger] json_view(out@[k]) == JsonData::Str(v@[k]@),
        decreases v.len() - i,
    {
        out.push(JsonValue::Str(copy_string(&v[i])));
        i += 1;
    }
    let r = JsonValue::Array(out);
    proof {
        let got = json_view(r)->Array_0;
        let want = v@.map_values(|s: String| JsonData::Str(s@));
        assert(got.len() == want.len());
        assert forall|k: int| 0 <= k < got.len() implies got[k] == want[k] by {
            assert(got[k] == json_view(out@[k]));
        }
        assert(got =~= want);
    }
    r
}

fn member(key: &str, value: JsonValue) -> (r: (String, JsonValue))
    ensures
        r.0@ == key@,
        r.1 == value,
{
    (string_of(&chars_of(key)), value)
}

fn object_of(ms: Vec<(String, JsonValue)>, Ghost(want): Ghost<Seq<(Seq<char>, JsonData)>>) -> (r: JsonValue)
    requires
        ms@.len() == want.len(),
        forall|k: int| 0 <= k < want.len() ==> (#[trigger] ms@[k]).0@ == want[k].0 && json_view(ms@[k].1) == want[k].1,
    ensures
        json_view(r) == JsonData::Object(want),
{
    let r = JsonValue::Object(ms);
    proof {
        let got = json_view(r)->Object_0;
        assert forall|k: int| 0 <= k < got.len() implies got[k] == want[k] by {
            assert(got[k] == (ms@[k].0@, json_view(ms@[k].1)));
        }
        assert(got =~= want);
    }
    r
}

/// How one attribute is stored (see [`attr_json`]).
pub fn attr_value(d: &AttrDetail) -> (r: JsonValue)
    ensures
        json_view(r) == attr_json(*d),
{
    let label = attr_kind_label(detail_kind_of(d));
    let kind = member("kind", text_json(label));
    let ghost want = attr_json(*d)->Object_0;
    let mut ms: Vec<(String, JsonValue)> = Vec::new();
    ms.push(kind);
    match d {
        AttrDetail::MustUse { reason } => ms.push(member("reason", opt_string_value(reason))),
        AttrDetail::ExportName(name) => ms.push(member("name", JsonValue::Str(copy_string(name)))),
        AttrDetail::LinkSection(name) => ms.push(member("name", JsonValue::Str(copy_string(name)))),
        AttrDetail::Repr { kind, align, packed, int_type } => {
            ms.push(member("repr_kind", text_json(repr_kind_text(*kind))));
            ms.push(member("align", opt_number_value(*align)));
            ms.push(member("packed", opt_number_value(*packed)));
            ms.push(member("int", opt_string_value(int_type)));
        },
        AttrDetail::TargetFeature { enable } => ms.push(member("enable", strings_json(enable))),
        AttrDetail::Other(raw) => ms.push(member("raw", JsonValue::Str(copy_string(raw)))),
        _ => {},
    }
    object_of(ms, Ghost(want))
}

/// How an item's attributes are stored: none when it has none, else the
/// array of each one's object.
pub fn attrs_json(ds: &Vec<AttrDetail>) -> (r: Option<JsonValue>)
    ensures
        json_opt_view(r) == attrs_json_spec(ds@),
{
    if ds.len() == 0 {
        return None;
    }
    let mut out: Vec<JsonValue> = Vec::new();
    let mut i: usize = 0;
    while i < ds.len()
        invariant
            i <= ds.len(),
            out@.len() == i,
            forall|k: int| 0 <= k < i ==> #[trigger] json_view(out@[k]) == attr_json(ds@[k]),
        decreases ds.len() - i,
    {
        out.push(attr_value(&ds[i]));
        i += 1;
    }
    let r = JsonValue::Array(out);
    proof {
        let got = json_view(r)->Array_0;
        let want = ds@.map_values(|d: AttrDetail| attr_json(d));
        assert(got.len() == want.len());
        assert forall|k: int| 0 <= k < got.len() implies got[k] == want[k] by {
            assert(got[k] == json_view(out@[k]));
        }
        assert(got =~= want);
    }
    Some(r)
}

/// The deprecation notice of an item.
pub struct DeprecationInfo {
    pub since: Option<String>,
    pub note: Option<String>,
}

/// What an item is, with the parts of it that the extraction reads; other
/// items are referred to by id.
#[allow(inconsistent_fields)]
pub enum DocItemInner {
    Module,
    ExternCrate,
    Use { target: Option<u32>, is_glob: bool },
    Union { generics: GenericsExpr, fields: Vec<u32>, impls: Vec<u32> },
    Struct { shape: StructShape, generics: GenericsExpr, impls: Vec<u32> },
    StructField(TypeExpr),
    Enum { generics: GenericsExpr, variants: Vec<u32>, impls: Vec<u32> },
    Variant { fields: VariantFields, discriminant: Option<String> },
    Function { generics: GenericsExpr, sig: FnSignatureExpr, header: FnHeaderFlags, has_body: bool },
    Trait {
        is_auto: bool,
        is_unsafe: bool,
        is_dyn_compatible: bool,
        items: Vec<u32>,
        generics: GenericsExpr,
        bounds: Vec<BoundExpr>,
    },
    TraitAlias,
    Impl {
        generics: GenericsExpr,
        trait_: Option<PathExpr>,
        for_: TypeExpr,
        items: Vec<u32>,
        is_negative: bool,
        is_synthetic: bool,
        blanket_impl: Option<TypeExpr>,
    },
    TypeAlias { generics: GenericsExpr, type_: TypeExpr },
    Constant { type_: TypeExpr },
    Static { is_mutable: bool, type_: TypeExpr },
    ExternType,
    Macro,
    ProcMacro,
    Primitive,
    AssocConst { type_: TypeExpr, value: Option<String> },
    AssocType { bounds: Vec<BoundExpr>, type_: Option<TypeExpr> },
}

/// The kind of an item.
pub open spec fn kind_of(inner: DocItemInner) -> ItemKindTag {
    match inner {
        DocItemInner::Module => ItemKindTag::Module,
        DocItemInner::ExternCrate => ItemKindTag::ExternCrate,
        DocItemInner::Use { .. } => ItemKindTag::Use,
        DocItemInner::Union { .. } => ItemKindTag::Union,
        DocItemInner::Struct { .. } => ItemKindTag::Struct,
        DocItemInner::StructField(_) => ItemKindTag::StructField,
        DocItemInner::Enum { .. } => ItemKindTag::Enum,
        DocItemInner::Variant { .. } => ItemKindTag::Variant,
        DocItemInner::Function { .. } => ItemKindTag::Function,
        DocItemInner::Trait { .. } => ItemKindTag::Trait,
        DocItemInner::TraitAlias => ItemKindTag::TraitAlias,
        DocItemInner::Impl { .. } => ItemKindTag::Impl,
        DocItemInner::TypeAlias { .. } => ItemKindTag::TypeAlias,
        DocItemInner::Constant { .. } => ItemKindTag::Constant,
        DocItemInner::Static { .. } => ItemKindTag::Static,
        DocItemInner::ExternType => ItemKindTag::ExternType,
        DocItemInner::Macro => ItemKindTag::Macro,
        DocItemInner::ProcMacro => ItemKindTag::ProcMacro,
        DocItemInner::Primitive => ItemKindTag::Primitive,
        DocItemInner::AssocConst { .. } => ItemKindTag::AssocConst,
        DocItemInner::AssocType { .. } => ItemKindTag::AssocType,
    }
}

/// The kind of an item.
pub fn item_kind(inner: &DocItemInner) -> (k: ItemKindTag)
    ensures
        k == kind_of(*inner),
{
    match inner {
        DocItemInner::Module => ItemKindTag::Module,
        DocItemInner::ExternCrate => ItemKindTag::ExternCrate,
        DocItemInner::Use { .. } => ItemKindTag::Use,
        DocItemInner::Union { .. } => ItemKindTag::Union,
        DocItemInner::Struct { .. } => ItemKindTag::Struct,
        DocItemInner::StructField(_) => ItemKindTag::StructField,
        DocItemInner::Enum { .. } => ItemKindTag::Enum,
        DocItemInner::Variant { .. } => ItemKindTag::Variant,
        DocItemInner::Function { .. } => ItemKindTag::Function,
        DocItemInner::Trait { .. } => ItemKindTag::Trait,
        DocItemInner::TraitAlias => ItemKindTag::TraitAlias,
        DocItemInner::Impl { .. } => ItemKindTag::Impl,
        DocItemInner::TypeAlias { .. } => ItemKindTag::TypeAlias,
        DocItemInner::Constant { .. } => ItemKindTag::Constant,
        DocItemInner::Static { .. } => ItemKindTag::Static,
        DocItemInner::ExternType => ItemKindTag::ExternType,
        DocItemInner::Macro => ItemKindTag::Macro,
        DocItemInner::ProcMacro => ItemKindTag::ProcMacro,
        DocItemInner::Primitive => ItemKindTag::Primitive,
        DocItemInner::AssocConst { .. } => ItemKindTag::AssocConst,
        DocItemInner::AssocType { .. } => ItemKindTag::AssocType,
    }
}

/// One item of a rustdoc document.
pub struct DocItem {
    pub name: Option<String>,
    pub visibility: VisibilityKind,
    pub span: Option<SpanLines>,
    pub docs: Option<String>,
    pub deprecation: Option<DeprecationInfo>,
    pub attrs: Vec<AttrKind>,
    /// The attributes with what each carries, in the same order.
    pub attr_details: Vec<AttrDetail>,
    pub inner: DocItemInner,
}

/// A rustdoc document: its items by id, the ids to extract in the order
/// they are visited, and the documented path of each item that has one.
pub struct DocCrate {
    pub ids: Vec<u32>,
    pub index: HashMap<u32, DocItem>,
    pub paths: HashMap<u32, String>,
}

} // verus!
