//! Reading Rust source files with `syn`. The trusted functions here only
//! call `syn` and `quote` and move what they return, one syntax node to one
//! value, into a plain [`SyntaxItem`] tree; which attributes are derives,
//! which impl members are methods and what a type's last segment is are
//! decided by the verified functions below, which turn each [`SyntaxItem`]
//! into the [`SourceItem`] that `source_symbols` reads.
use vstd::prelude::*;
use crate::source_symbols::{
    same_reading, DeriveEntry, ImplTraitRef, PlainItemKind, SourceField, SourceItem, SourceMethod,
    SourceVariant,
};
use crate::text::{chars_eq, chars_of_string, lit};

verus! {

#[verifier::external_type_specification]
#[verifier::external_body]
pub struct ExSynItem(syn::Item);

#[verifier::external_type_specification]
#[verifier::external_body]
pub struct ExSynItemStruct(syn::ItemStruct);

#[verifier::external_type_specification]
#[verifier::external_body]
pub struct ExSynItemEnum(syn::ItemEnum);

#[verifier::external_type_specification]
#[verifier::external_body]
pub struct ExSynItemUnion(syn::ItemUnion);

#[verifier::external_type_specification]
#[verifier::external_body]
pub struct ExSynItemImpl(syn::ItemImpl);

#[verifier::external_type_specification]
#[verifier::external_body]
pub struct ExSynImplItem(syn::ImplItem);

#[verifier::external_type_specification]
#[verifier::external_body]
pub struct ExSynVisibility(syn::Visibility);

#[verifier::external_type_specification]
#[verifier::external_body]
pub struct ExSynGenerics(syn::Generics);

#[verifier::external_type_specification]
#[verifier::external_body]
pub struct ExSynFields(syn::Fields);

#[verifier::external_type_specification]
#[verifier::external_body]
pub struct ExSynAttribute(syn::Attribute);

#[verifier::external_type_specification]
#[verifier::external_body]
pub struct ExSynPath(syn::Path);

#[verifier::external_type_specification]
#[verifier::external_body]
pub struct ExSynType(syn::Type);

#[verifier::external_type_specification]
#[verifier::external_body]
pub struct ExSynIdent(syn::Ident);

/// The shape of a type as far as its last path segment goes: a path (its
/// segments' identifiers), a reference, parenthesised or invisible group
/// around another type, or anything else.
pub enum TypeShape {
    Path(Vec<String>),
    Reference(Box<TypeShape>),
    Paren(Box<TypeShape>),
    Group(Box<TypeShape>),
    Other,
}

/// A path: its segments' identifiers and the whole path as source tokens.
pub struct PathSyntax {
    pub segments: Vec<String>,
    pub display: String,
}

/// An attribute: whether its path starts with `::`, its path segments
/// (identifier, and whether the segment has generic arguments), and the
/// comma-separated paths of its arguments when they read as such.
pub struct AttributeSyntax {
    pub leading_colon: bool,
    pub segments: Vec<(String, bool)>,
    pub args: Option<Vec<PathSyntax>>,
}

/// A member of an impl block: a function (name and signature tokens) or
/// anything else.
pub enum ImplMember {
    Fn { name: String, sig_tokens: String },
    Other,
}

/// A top-level item of a source file as the parser gives it.
pub enum SyntaxItem {
    Plain { kind: PlainItemKind, name: String, is_pub: bool },
    Struct {
        name: String,
        is_pub: bool,
        generic_params: Vec<String>,
        fields: Vec<SourceField>,
        attrs: Vec<AttributeSyntax>,
    },
    Enum {
        name: String,
        is_pub: bool,
        generic_params: Vec<String>,
        variants: Vec<SourceVariant>,
        attrs: Vec<AttributeSyntax>,
    },
    Union {
        name: String,
        is_pub: bool,
        generic_params: Vec<String>,
        fields: Vec<SourceField>,
        attrs: Vec<AttributeSyntax>,
    },
    Impl {
        self_ty: TypeShape,
        self_display: String,
        trait_: Option<PathSyntax>,
        members: Vec<ImplMember>,
    },
    Other,
}

/// The top-level items of a Rust source file as `syn::parse_file` reads
/// them, each moved into a [`SyntaxItem`], or the parser's error message.
pub uninterp spec fn rust_syntax(content: Seq<char>) -> Result<Seq<SyntaxItem>, Seq<char>>;

/// The last segment of a type's path, through references, parentheses and
/// groups; none for other types and for a path without segments.
pub open spec fn terminal_of(t: TypeShape) -> Option<String>
    decreases t,
{
    match t {
        TypeShape::Path(segs) => if segs@.len() > 0 {
            Some(segs@.last())
        } else {
            None
        },
        TypeShape::Reference(b) => terminal_of(*b),
        TypeShape::Paren(b) => terminal_of(*b),
        TypeShape::Group(b) => terminal_of(*b),
        TypeShape::Other => None,
    }
}

/// The derive entries a list of paths gives: each path with a segment gives
/// its last segment and its tokens.
pub open spec fn path_derives(ps: Seq<PathSyntax>) -> Seq<DeriveEntry>
    decreases ps.len(),
{
    if ps.len() == 0 {
        Seq::empty()
    } else {
        let p = ps.last();
        path_derives(ps.drop_last()) + if p.segments@.len() > 0 {
            seq![DeriveEntry { terminal: p.segments@.last(), display: p.display }]
        } else {
            Seq::empty()
        }
    }
}

/// Whether an attribute's path is the single identifier `derive`.
pub open spec fn is_derive_attr(a: AttributeSyntax) -> bool {
    &&& !a.leading_colon
    &&& a.segments@.len() == 1
    &&& !a.segments@[0].1
    &&& a.segments@[0].0@ == "derive"@
}

/// The derive entries of the `#[derive(..)]` attributes among `attrs`, in
/// order; a derive whose arguments do not read as paths gives none.
pub open spec fn derives_of(attrs: Seq<AttributeSyntax>) -> Seq<DeriveEntry>
    decreases attrs.len(),
{
    if attrs.len() == 0 {
        Seq::empty()
    } else {
        let a = attrs.last();
        derives_of(attrs.drop_last()) + if is_derive_attr(a) {
            match a.args {
                Some(ps) => path_derives(ps@),
                None => Seq::empty(),
            }
        } else {
            Seq::empty()
        }
    }
}

/// The methods among an impl block's members, in order.
pub open spec fn methods_of(ms: Seq<ImplMember>) -> Seq<SourceMethod>
    decreases ms.len(),
{
    if ms.len() == 0 {
        Seq::empty()
    } else {
        methods_of(ms.drop_last()) + match ms.last() {
            ImplMember::Fn { name, sig_tokens } => seq![SourceMethod { name, sig_tokens }],
            ImplMember::Other => Seq::empty(),
        }
    }
}

/// The trait of an impl: its last segment, if any, and its tokens.
pub open spec fn trait_ref_of(p: PathSyntax) -> ImplTraitRef {
    ImplTraitRef {
        terminal: if p.segments@.len() > 0 {
            Some(p.segments@.last())
        } else {
            None
        },
        display: p.display,
    }
}

/// What the symbol extraction reads of a parsed item.
pub open spec fn source_item_of(s: SyntaxItem) -> SourceItem {
    match s {
        SyntaxItem::Plain { kind, name, is_pub } => SourceItem::Plain { kind, name, is_pub },
        SyntaxItem::Struct { name, is_pub, generic_params, fields, attrs } => SourceItem::Struct {
            name,
            is_pub,
            generic_params,
            fields,
            derives: vec_of(derives_of(attrs@)),
        },
        SyntaxItem::Enum { name, is_pub, generic_params, variants, attrs } => SourceItem::Enum {
            name,
            is_pub,
            generic_params,
            variants,
            derives: vec_of(derives_of(attrs@)),
        },
        SyntaxItem::Union { name, is_pub, generic_params, fields, attrs } => SourceItem::Union {
            name,
            is_pub,
            generic_params,
            fields,
            derives: vec_of(derives_of(attrs@)),
        },
        SyntaxItem::Impl { self_ty, self_display, trait_, members } => SourceItem::Impl {
            self_terminal: terminal_of(self_ty),
            self_display,
            trait_: match trait_ {
                Some(p) => Some(trait_ref_of(p)),
                None => None,
            },
            methods: vec_of(methods_of(members@)),
        },
        SyntaxItem::Other => SourceItem::Other,
    }
}

/// Some vector whose contents are `s`.
pub open spec fn vec_of<T>(s: Seq<T>) -> Vec<T> {
    choose|v: Vec<T>| v@ == s
}


/// `vec_of(v@)` has the contents of `v`.
pub proof fn lemma_vec_of<T>(v: Vec<T>)
    ensures
        vec_of(v@)@ == v@,
{
    assert(exists|w: Vec<T>| w@ == v@) by {
        assert(v@ == v@);
    }
}

/// The last segment of a type's path, through references, parentheses and
/// groups.
pub fn type_terminal(t: TypeShape) -> (r: Option<String>)
    ensures
        r == terminal_of(t),
    decreases t,
{
    match t {
        TypeShape::Path(segs) => {
            let mut segs = segs;
            segs.pop()
        },
        TypeShape::Reference(b) => type_terminal(*b),
        TypeShape::Paren(b) => type_terminal(*b),
        TypeShape::Group(b) => type_terminal(*b),
        TypeShape::Other => None,
    }
}

/// The derive entries of a list of paths.
pub fn derive_entries(ps: Vec<PathSyntax>) -> (r: Vec<DeriveEntry>)
    ensures
        r@ == path_derives(ps@),
{
    let ghost orig = ps@;
    let mut rest = ps;
    let mut out: Vec<DeriveEntry> = Vec::new();
    let ghost mut i: int = 0;
    while rest.len() > 0
        invariant
            0 <= i <= orig.len(),
            rest@ == orig.skip(i),
            out@ == path_derives(orig.take(i)),
        decreases rest.len(),
    {
        let p = rest.remove(0);
        proof {
            assert(orig.take(i + 1).drop_last() =~= orig.take(i));
            assert(orig.take(i + 1).last() == p);
            assert(orig.skip(i + 1) =~= orig.skip(i).remove(0));
        }
        let PathSyntax { segments, display } = p;
        let mut segments = segments;
        match segments.pop() {
            Some(t) => {
                out.push(DeriveEntry { terminal: t, display });
            },
            None => {},
        }
        proof {
            i = i + 1;
        }
    }
    proof {
        assert(orig.take(i) =~= orig);
    }
    out
}

/// Whether an attribute's path is the single identifier `derive`.
pub fn attr_is_derive(a: &AttributeSyntax) -> (b: bool)
    ensures
        b == is_derive_attr(*a),
{
    if a.leading_colon || a.segments.len() != 1 || a.segments[0].1 {
        return false;
    }
    chars_eq(&chars_of_string(&a.segments[0].0), &lit("derive"))
}

/// The derive entries of an item's `#[derive(..)]` attributes.
pub fn derive_list(attrs: Vec<AttributeSyntax>) -> (r: Vec<DeriveEntry>)
    ensures
        r@ == derives_of(attrs@),
{
    let ghost orig = attrs@;
    let mut rest = attrs;
    let mut out: Vec<DeriveEntry> = Vec::new();
    let ghost mut i: int = 0;
    while rest.len() > 0
        invariant
            0 <= i <= orig.len(),
            rest@ == orig.skip(i),
            out@ == derives_of(orig.take(i)),
        decreases rest.len(),
    {
        let a = rest.remove(0);
        proof {
            assert(orig.take(i + 1).drop_last() =~= orig.take(i));
            assert(orig.take(i + 1).last() == a);
            assert(orig.skip(i + 1) =~= orig.skip(i).remove(0));
        }
        if attr_is_derive(&a) {
            match a.args {
                Some(ps) => {
                    let mut more = derive_entries(ps);
                    out.append(&mut more);
                },
                None => {},
            }
        }
        proof {
            i = i + 1;
        }
    }
    proof {
        assert(orig.take(i) =~= orig);
    }
    out
}

/// The methods among an impl block's members.
pub fn impl_methods(members: Vec<ImplMember>) -> (r: Vec<SourceMethod>)
    ensures
        r@ == methods_of(members@),
{
    let ghost orig = members@;
    let mut rest = members;
    let mut out: Vec<SourceMethod> = Vec::new();
    let ghost mut i: int = 0;
    while rest.len() > 0
        invariant
            0 <= i <= orig.len(),
            rest@ == orig.skip(i),
            out@ == methods_of(orig.take(i)),
        decreases rest.len(),
    {
        let m = rest.remove(0);
        proof {
            assert(orig.take(i + 1).drop_last() =~= orig.take(i));
            assert(orig.take(i + 1).last() == m);
            assert(orig.skip(i + 1) =~= orig.skip(i).remove(0));
        }
        match m {
            ImplMember::Fn { name, sig_tokens } => {
                out.push(SourceMethod { name, sig_tokens });
            },
            ImplMember::Other => {},
        }
        proof {
            i = i + 1;
        }
    }
    proof {
        assert(orig.take(i) =~= orig);
    }
    out
}

/// What the symbol extraction reads of a parsed item.
pub fn source_item_from(s: SyntaxItem) -> (r: SourceItem)
    ensures
        same_reading(r, source_item_of(s)),
{
    match s {
        SyntaxItem::Plain { kind, name, is_pub } => SourceItem::Plain { kind, name, is_pub },
        SyntaxItem::Struct { name, is_pub, generic_params, fields, attrs } => {
            let derives = derive_list(attrs);
            proof {
                lemma_vec_of(derives);
            }
            SourceItem::Struct { name, is_pub, generic_params, fields, derives }
        },
        SyntaxItem::Enum { name, is_pub, generic_params, variants, attrs } => {
            let derives = derive_list(attrs);
            proof {
                lemma_vec_of(derives);
            }
            SourceItem::Enum { name, is_pub, generic_params, variants, derives }
        },
        SyntaxItem::Union { name, is_pub, generic_params, fields, attrs } => {
            let derives = derive_list(attrs);
            proof {
                lemma_vec_of(derives);
            }
            SourceItem::Union { name, is_pub, generic_params, fields, derives }
        },
        SyntaxItem::Impl { self_ty, self_display, trait_, members } => {
            let self_terminal = type_terminal(self_ty);
            let trait_ = match trait_ {
                Some(p) => {
                    let PathSyntax { segments, display } = p;
                    let mut segments = segments;
                    Some(ImplTraitRef { terminal: segments.pop(), display })
                },
                None => None,
            };
            let methods = impl_methods(members);
            proof {
                lemma_vec_of(methods);
            }
            SourceItem::Impl { self_terminal, self_display, trait_, methods }
        },
        SyntaxItem::Other => SourceItem::Other,
    }
}

/// What the symbol extraction reads of each parsed item, in order.
pub fn source_items_from(raw: Vec<SyntaxItem>) -> (r: Vec<SourceItem>)
    ensures
        r@.len() == raw@.len(),
        forall|k: int| 0 <= k < r@.len() ==> same_reading(#[trigger] r@[k], source_item_of(raw@[k])),
{
    let ghost orig = raw@;
    let mut rest = raw;
    let mut out: Vec<SourceItem> = Vec::new();
    while rest.len() > 0
        invariant
            out@.len() <= orig.len(),
            rest@ == orig.skip(out@.len() as int),
            forall|k: int| 0 <= k < out@.len() ==> same_reading(#[trigger] out@[k], source_item_of(orig[k])),
        decreases rest.len(),
    {
        let s = rest.remove(0);
        proof {
            assert(s == orig[out@.len() as int]);
            assert(orig.skip(out@.len() + 1int) =~= orig.skip(out@.len() as int).remove(0));
        }
        let it = source_item_from(s);
        out.push(it);
    }
    out
}

/// `syn::Path` moved into a [`PathSyntax`]: each segment's identifier
/// (`Ident::to_string`) and the path's token text.
#[verifier::external_body]
fn path_syntax(p: &syn::Path) -> PathSyntax {
    PathSyntax { segments: p.segments.iter().map(|s| s.ident.to_string()).collect(), display: token_text(p) }
}

/// `syn::Type` moved into a [`TypeShape`], one variant to one variant.
#[verifier::external_body]
fn type_shape(ty: &syn::Type) -> TypeShape {
    match ty {
        syn::Type::Path(p) => TypeShape::Path(p.path.segments.iter().map(|s| s.ident.to_string()).collect()),
        syn::Type::Reference(r) => TypeShape::Reference(Box::new(type_shape(&r.elem))),
        syn::Type::Paren(p) => TypeShape::Paren(Box::new(type_shape(&p.elem))),
        syn::Type::Group(g) => TypeShape::Group(Box::new(type_shape(&g.elem))),
        _ => TypeShape::Other,
    }
}

/// `syn::Attribute` moved into an [`AttributeSyntax`]: its path (leading
/// `::`, each segment's identifier and whether it has arguments) and its
/// arguments read with `Attribute::parse_args_with(Punctuated::<Path,
/// Comma>::parse_terminated)`, none when they do not read.
#[verifier::external_body]
fn attribute_syntax(a: &syn::Attribute) -> AttributeSyntax {
    let parser = syn::punctuated::Punctuated::<syn::Path, syn::token::Comma>::parse_terminated;
    AttributeSyntax {
        leading_colon: a.path().leading_colon.is_some(),
        segments: a.path().segments.iter().map(|s| (s.ident.to_string(), !s.arguments.is_none())).collect(),
        args: a.parse_args_with(parser).ok().map(|ps| ps.iter().map(path_syntax).collect()),
    }
}

/// Each attribute of a list, in order.
#[verifier::external_body]
fn attribute_list(attrs: &[syn::Attribute]) -> Vec<AttributeSyntax> {
    attrs.iter().map(attribute_syntax).collect()
}

/// `syn::ImplItem` moved into an [`ImplMember`]: a function's name and
/// signature token text, or `Other`.
#[verifier::external_body]
fn impl_member(m: &syn::ImplItem) -> ImplMember {
    match m {
        syn::ImplItem::Fn(f) => ImplMember::Fn { name: f.sig.ident.to_string(), sig_tokens: token_text(&f.sig) },
        _ => ImplMember::Other,
    }
}

/// An impl block: its type's shape and token text, its trait path and its
/// members.
#[verifier::external_body]
fn impl_item(imp: &syn::ItemImpl) -> SyntaxItem {
    SyntaxItem::Impl {
        self_ty: type_shape(&imp.self_ty),
        self_display: token_text(&imp.self_ty),
        trait_: imp.trait_.as_ref().map(|(_, path, _)| path_syntax(path)),
        members: imp.items.iter().map(impl_member).collect(),
    }
}


/// `quote::ToTokens::to_token_stream` rendered with `to_string`: the token
/// text of a syntax node.
#[verifier::external_body]
fn token_text<T: quote::ToTokens>(t: &T) -> String {
    t.to_token_stream().to_string()
}

/// Whether a visibility is `syn::Visibility::Public` (`pub`).
#[verifier::external_body]
fn is_public(v: &syn::Visibility) -> bool {
    matches!(v, syn::Visibility::Public(_))
}

/// The token text of each generic parameter.
#[verifier::external_body]
fn generic_param_texts(g: &syn::Generics) -> Vec<String> {
    g.params.iter().map(|p| token_text(p)).collect()
}

/// The name (`Ident::to_string`) and the type's token text of each field.
#[verifier::external_body]
fn field_list(f: &syn::Fields) -> Vec<SourceField> {
    f.iter()
        .map(|x| SourceField { name: x.ident.as_ref().map(|i| i.to_string()), type_: token_text(&x.ty) })
        .collect()
}

/// A struct: name, visibility, generic parameters, fields and attributes.
#[verifier::external_body]
fn struct_item(s: &syn::ItemStruct) -> SyntaxItem {
    SyntaxItem::Struct {
        name: s.ident.to_string(),
        is_pub: is_public(&s.vis),
        generic_params: generic_param_texts(&s.generics),
        fields: field_list(&s.fields),
        attrs: attribute_list(&s.attrs),
    }
}

/// The variants of an enum: name, fields and discriminant token text.
#[verifier::external_body]
fn variant_list(e: &syn::ItemEnum) -> Vec<SourceVariant> {
    e.variants
        .iter()
        .map(|v| SourceVariant {
            name: v.ident.to_string(),
            fields: field_list(&v.fields),
            discriminant: v.discriminant.as_ref().map(|(_, expr)| token_text(expr)),
        })
        .collect()
}

/// An enum: name, visibility, generic parameters, variants and attributes.
#[verifier::external_body]
fn enum_item(e: &syn::ItemEnum) -> SyntaxItem {
    SyntaxItem::Enum {
        name: e.ident.to_string(),
        is_pub: is_public(&e.vis),
        generic_params: generic_param_texts(&e.generics),
        variants: variant_list(e),
        attrs: attribute_list(&e.attrs),
    }
}

/// A union: name, visibility, generic parameters, named fields and
/// attributes.
#[verifier::external_body]
fn union_item(u: &syn::ItemUnion) -> SyntaxItem {
    SyntaxItem::Union {
        name: u.ident.to_string(),
        is_pub: is_public(&u.vis),
        generic_params: generic_param_texts(&u.generics),
        fields: field_list(&syn::Fields::Named(u.fields.clone())),
        attrs: attribute_list(&u.attrs),
    }
}

/// An item that gives a symbol only: its kind, name and visibility.
#[verifier::external_body]
fn plain_item(kind: PlainItemKind, name: &syn::Ident, vis: &syn::Visibility) -> SyntaxItem {
    SyntaxItem::Plain { kind, name: name.to_string(), is_pub: is_public(vis) }
}

/// An item that gives a symbol only, by its `syn::Item` variant (other
/// variants give `SyntaxItem::Other`).
#[verifier::external_body]
fn symbol_only_item(item: &syn::Item) -> SyntaxItem {
    match item {
        syn::Item::Fn(f) => plain_item(PlainItemKind::Function, &f.sig.ident, &f.vis),
        syn::Item::Trait(t) => plain_item(PlainItemKind::Trait, &t.ident, &t.vis),
        syn::Item::Type(t) => plain_item(PlainItemKind::TypeAlias, &t.ident, &t.vis),
        syn::Item::Const(c) => plain_item(PlainItemKind::Const, &c.ident, &c.vis),
        syn::Item::Static(s) => plain_item(PlainItemKind::Static, &s.ident, &s.vis),
        syn::Item::Mod(m) => plain_item(PlainItemKind::Module, &m.ident, &m.vis),
        _ => SyntaxItem::Other,
    }
}

/// One top-level item, by its `syn::Item` variant.
#[verifier::external_body]
fn syntax_item(item: &syn::Item) -> SyntaxItem {
    match item {
        syn::Item::Struct(s) => struct_item(s),
        syn::Item::Enum(e) => enum_item(e),
        syn::Item::Union(u) => union_item(u),
        syn::Item::Impl(i) => impl_item(i),
        other => symbol_only_item(other),
    }
}

/// `syn::parse_file` on a file's text, each top-level item moved by
/// [`syntax_item`]; the error is the parser's message (`to_string`). The
/// result is a function of the text, named [`rust_syntax`].
#[verifier::external_body]
pub(crate) fn parse_syntax_items(content: &str) -> (r: Result<Vec<SyntaxItem>, String>)
    ensures
        match r {
            Ok(items) => rust_syntax(content@) == Ok::<Seq<SyntaxItem>, Seq<char>>(items@),
            Err(e) => rust_syntax(content@) == Err::<Seq<SyntaxItem>, Seq<char>>(e@),
        },
{
    match syn::parse_file(content) {
        Ok(file) => Ok(file.items.iter().map(syntax_item).collect()),
        Err(e) => Err(e.to_string()),
    }
}

} // verus!
