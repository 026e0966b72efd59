//! Extraction of symbols, types and impls from the top-level items of a
//! Rust source file, as a parser reads them, with line numbers and
//! signatures taken from the file's text.
use vstd::prelude::*;
use crate::jobs::opt_view;
use crate::source_index::{
    line_for_method_name, line_for_symbol_name, normalize_symbol_signature, symbol_line,
    symbol_signature,
};
use crate::text::{chars_of, lines, lines_of, lit, string_of, views};

verus! {

/// One field of a parsed struct, union or variant: its name (none for a
/// positional field) and its type as source tokens.
#[derive(Debug, Clone)]
pub struct SourceField {
    pub name: Option<String>,
    pub type_: String,
}

/// One variant of a parsed enum.
#[derive(Debug, Clone)]
pub struct SourceVariant {
    pub name: String,
    pub fields: Vec<SourceField>,
    /// The discriminant expression as source tokens.
    pub discriminant: Option<String>,
}

/// One trait named in a `#[derive(..)]` attribute: its last path segment
/// and its whole path as source tokens.
#[derive(Debug, Clone)]
pub struct DeriveEntry {
    pub terminal: String,
    pub display: String,
}

/// One method of a parsed impl block: its name and its signature as source
/// tokens.
#[derive(Debug, Clone)]
pub struct SourceMethod {
    pub name: String,
    pub sig_tokens: String,
}

/// The trait of a parsed trait impl: the last segment of its path (if the
/// path has one) and the path as source tokens.
#[derive(Debug, Clone)]
pub struct ImplTraitRef {
    pub terminal: Option<String>,
    pub display: String,
}

/// The kinds of items that give a symbol and nothing else.
#[derive(Clone, Copy, Debug, PartialEq, Eq, Structural)]
pub enum PlainItemKind {
    Function,
    Trait,
    TypeAlias,
    Const,
    Static,
    Module,
}

/// A top-level item of a parsed source file, with what the extraction
/// reads of it.
#[derive(Debug, Clone)]
pub enum SourceItem {
    Plain { kind: PlainItemKind, name: String, is_pub: bool },
    Struct {
        name: String,
        is_pub: bool,
        generic_params: Vec<String>,
        fields: Vec<SourceField>,
        derives: Vec<DeriveEntry>,
    },
    Enum {
        name: String,
        is_pub: bool,
        generic_params: Vec<String>,
        variants: Vec<SourceVariant>,
        derives: Vec<DeriveEntry>,
    },
    Union {
        name: String,
        is_pub: bool,
        generic_params: Vec<String>,
        fields: Vec<SourceField>,
        derives: Vec<DeriveEntry>,
    },
    Impl {
        /// The last path segment of the implementing type, when it is a
        /// path (through references, parentheses and groups).
        self_terminal: Option<String>,
        /// The implementing type as source tokens.
        self_display: String,
        trait_: Option<ImplTraitRef>,
        methods: Vec<SourceMethod>,
    },
    Other,
}

/// A symbol found in a source file, as stored.
#[derive(Debug, Clone)]
pub struct ExtractedSymbol {
    pub name: String,
    pub kind: String,
    pub signature: Option<String>,
    pub visibility: Option<String>,
    pub start_line: i32,
    pub end_line: i32,
}

/// A type found in a source file, as stored.
#[derive(Debug, Clone)]
pub struct ExtractedType {
    pub name: String,
    pub kind: String,
    pub visibility: Option<String>,
    pub generic_params: Vec<String>,
    pub fields: Vec<SourceField>,
    pub variants: Vec<SourceVariant>,
    pub start_line: i32,
    pub end_line: i32,
}

/// A method of an impl found in a source file, as stored.
#[derive(Debug, Clone)]
pub struct ExtractedMethod {
    pub name: String,
    pub signature: Option<String>,
}

/// An impl (written or derived) found in a source file, as stored.
#[derive(Debug, Clone)]
pub struct ExtractedImpl {
    pub for_type: String,
    pub for_type_display: Option<String>,
    pub trait_name: Option<String>,
    pub trait_name_display: Option<String>,
    pub impl_kind: String,
    pub methods: Vec<ExtractedMethod>,
    pub start_line: i32,
    pub end_line: i32,
}

/// What a source file gives.
#[derive(Debug, Clone)]
pub struct RustExtraction {
    pub symbols: Vec<ExtractedSymbol>,
    pub types: Vec<ExtractedType>,
    pub impls: Vec<ExtractedImpl>,
    /// Trait definitions; a source scan records none (rustdoc JSON does).
    pub traits: Vec<crate::doc_members::IndexedTrait>,
}

/// The label of a plain item kind.
pub open spec fn plain_kind_label(k: PlainItemKind) -> Seq<char> {
    match k {
        PlainItemKind::Function => "function"@,
        PlainItemKind::Trait => "trait"@,
        PlainItemKind::TypeAlias => "type_alias"@,
        PlainItemKind::Const => "const"@,
        PlainItemKind::Static => "static"@,
        PlainItemKind::Module => "module"@,
    }
}

/// Items of different kinds give symbols with different kind labels, and
/// a `static` item's symbol is labelled `static`.
pub proof fn law_source_kind_labels(content: Seq<char>, name: String, is_pub: bool, a: PlainItemKind, b: PlainItemKind)
    ensures
        item_symbol(content, SourceItem::Plain { kind: a, name, is_pub }) matches Some(x) && x.0 == name@,
        a != b ==> (item_symbol(content, SourceItem::Plain { kind: a, name, is_pub }) matches Some(x)
            && item_symbol(content, SourceItem::Plain { kind: b, name, is_pub }) matches Some(y)
            && x.1 != y.1),
        a == PlainItemKind::Static ==> (item_symbol(content, SourceItem::Plain { kind: a, name, is_pub })
            matches Some(x) && x.1 == seq!['s', 't', 'a', 't', 'i', 'c']),
        item_symbol(content, SourceItem::Plain { kind: a, name, is_pub }) matches Some(x) && x.1 == match a {
            PlainItemKind::Function => seq!['f', 'u', 'n', 'c', 't', 'i', 'o', 'n'],
            PlainItemKind::Trait => seq!['t', 'r', 'a', 'i', 't'],
            PlainItemKind::TypeAlias => seq!['t', 'y', 'p', 'e', '_', 'a', 'l', 'i', 'a', 's'],
            PlainItemKind::Const => seq!['c', 'o', 'n', 's', 't'],
            PlainItemKind::Static => seq!['s', 't', 'a', 't', 'i', 'c'],
            PlainItemKind::Module => seq!['m', 'o', 'd', 'u', 'l', 'e'],
        },
{
    reveal_strlit("function");
    reveal_strlit("trait");
    reveal_strlit("type_alias");
    reveal_strlit("const");
    reveal_strlit("static");
    reveal_strlit("module");
    let la = plain_kind_label(a);
    let lb = plain_kind_label(b);
    if a != b {
        if la.len() == lb.len() {
            assert(la[0] != lb[0] || la[1] != lb[1]);
        }
    }
    assert(la =~= match a {
        PlainItemKind::Function => seq!['f', 'u', 'n', 'c', 't', 'i', 'o', 'n'],
        PlainItemKind::Trait => seq!['t', 'r', 'a', 'i', 't'],
        PlainItemKind::TypeAlias => seq!['t', 'y', 'p', 'e', '_', 'a', 'l', 'i', 'a', 's'],
        PlainItemKind::Const => seq!['c', 'o', 'n', 's', 't'],
        PlainItemKind::Static => seq!['s', 't', 'a', 't', 'i', 'c'],
        PlainItemKind::Module => seq!['m', 'o', 'd', 'u', 'l', 'e'],
    });
}

/// A struct, enum or union gives a symbol of its own name labelled
/// `struct`, `enum` or `union`.
pub proof fn law_type_symbol_labels(content: Seq<char>, item: SourceItem)
    ensures
        match item {
            SourceItem::Struct { name, .. } => item_symbol(content, item) matches Some(x) && x.0 == name@
                && x.1 == seq!['s', 't', 'r', 'u', 'c', 't'],
            SourceItem::Enum { name, .. } => item_symbol(content, item) matches Some(x) && x.0 == name@
                && x.1 == seq!['e', 'n', 'u', 'm'],
            SourceItem::Union { name, .. } => item_symbol(content, item) matches Some(x) && x.0 == name@
                && x.1 == seq!['u', 'n', 'i', 'o', 'n'],
            SourceItem::Impl { .. } => item_symbol(content, item) is None,
            SourceItem::Other => item_symbol(content, item) is None,
            SourceItem::Plain { .. } => true,
        },
{
    reveal_strlit("struct");
    reveal_strlit("enum");
    reveal_strlit("union");
}

/// The visibility label of an item: `public` for `pub`, else `private`.
pub open spec fn vis_label(is_pub: bool) -> Seq<char> {
    if is_pub {
        "public"@
    } else {
        "private"@
    }
}

/// The stored signature of the declaration at 1-based line `start`: that
/// line of the file, normalised; none past the end of the file.
pub open spec fn line_signature(content: Seq<char>, start: i32) -> Option<Seq<char>> {
    let ls = lines(content);
    if start >= 1 && start - 1 < ls.len() {
        symbol_signature(ls[start - 1])
    } else {
        None
    }
}

/// The view of a stored symbol.
pub open spec fn symbol_view(s: ExtractedSymbol) -> (Seq<char>, Seq<char>, Option<Seq<char>>, Option<Seq<char>>, i32, i32) {
    (s.name@, s.kind@, opt_view(s.signature), opt_view(s.visibility), s.start_line, s.end_line)
}

/// The symbol of a named item of the given kind label.
pub open spec fn named_symbol(content: Seq<char>, name: Seq<char>, kind: Seq<char>, is_pub: bool) -> (Seq<char>, Seq<char>, Option<Seq<char>>, Option<Seq<char>>, i32, i32) {
    let start = symbol_line(content, name);
    (name, kind, line_signature(content, start), Some(vis_label(is_pub)), start, start)
}

/// The symbol an item gives, if any (impl blocks and other items give none).
pub open spec fn item_symbol(content: Seq<char>, item: SourceItem) -> Option<(Seq<char>, Seq<char>, Option<Seq<char>>, Option<Seq<char>>, i32, i32)> {
    match item {
        SourceItem::Plain { kind, name, is_pub } => Some(named_symbol(content, name@, plain_kind_label(kind), is_pub)),
        SourceItem::Struct { name, is_pub, .. } => Some(named_symbol(content, name@, "struct"@, is_pub)),
        SourceItem::Enum { name, is_pub, .. } => Some(named_symbol(content, name@, "enum"@, is_pub)),
        SourceItem::Union { name, is_pub, .. } => Some(named_symbol(content, name@, "union"@, is_pub)),
        _ => None,
    }
}

/// The symbols of a file's items, in order.
pub open spec fn source_symbols(content: Seq<char>, items: Seq<SourceItem>) -> Seq<(Seq<char>, Seq<char>, Option<Seq<char>>, Option<Seq<char>>, i32, i32)>
    decreases items.len(),
{
    if items.len() == 0 {
        seq![]
    } else {
        let prev = source_symbols(content, items.drop_last());
        match item_symbol(content, items.last()) {
            Some(s) => prev.push(s),
            None => prev,
        }
    }
}

/// The view of a stored field.
pub open spec fn field_view(f: SourceField) -> (Option<Seq<char>>, Seq<char>) {
    (opt_view(f.name), f.type_@)
}

/// The views of stored fields.
pub open spec fn field_views(fs: Seq<SourceField>) -> Seq<(Option<Seq<char>>, Seq<char>)> {
    fs.map_values(|f: SourceField| field_view(f))
}

/// The view of a stored variant.
pub open spec fn variant_view(v: SourceVariant) -> (Seq<char>, Seq<(Option<Seq<char>>, Seq<char>)>, Option<Seq<char>>) {
    (v.name@, field_views(v.fields@), opt_view(v.discriminant))
}

/// The views of stored variants.
pub open spec fn variant_views(vs: Seq<SourceVariant>) -> Seq<(Seq<char>, Seq<(Option<Seq<char>>, Seq<char>)>, Option<Seq<char>>)> {
    vs.map_values(|v: SourceVariant| variant_view(v))
}

/// The view of a stored type: name, kind, visibility, generic parameters,
/// fields, variants and lines.
pub open spec fn type_view(t: ExtractedType) -> (Seq<char>, Seq<char>, Option<Seq<char>>, Seq<Seq<char>>, Seq<(Option<Seq<char>>, Seq<char>)>, Seq<(Seq<char>, Seq<(Option<Seq<char>>, Seq<char>)>, Option<Seq<char>>)>, i32, i32) {
    (
        t.name@,
        t.kind@,
        opt_view(t.visibility),
        views_of_strings(t.generic_params@),
        field_views(t.fields@),
        variant_views(t.variants@),
        t.start_line,
        t.end_line,
    )
}

/// The views of strings.
pub open spec fn views_of_strings(s: Seq<String>) -> Seq<Seq<char>> {
    s.map_values(|x: String| x@)
}

/// The type a struct, enum or union gives.
pub open spec fn item_type(content: Seq<char>, item: SourceItem) -> Option<(Seq<char>, Seq<char>, Option<Seq<char>>, Seq<Seq<char>>, Seq<(Option<Seq<char>>, Seq<char>)>, Seq<(Seq<char>, Seq<(Option<Seq<char>>, Seq<char>)>, Option<Seq<char>>)>, i32, i32)> {
    match item {
        SourceItem::Struct { name, is_pub, generic_params, fields, .. } => {
            let start = symbol_line(content, name@);
            Some((name@, "struct"@, Some(vis_label(is_pub)), views_of_strings(generic_params@), field_views(fields@), seq![], start, start))
        },
        SourceItem::Enum { name, is_pub, generic_params, variants, .. } => {
            let start = symbol_line(content, name@);
            Some((name@, "enum"@, Some(vis_label(is_pub)), views_of_strings(generic_params@), seq![], variant_views(variants@), start, start))
        },
        SourceItem::Union { name, is_pub, generic_params, fields, .. } => {
            let start = symbol_line(content, name@);
            Some((name@, "union"@, Some(vis_label(is_pub)), views_of_strings(generic_params@), field_views(fields@), seq![], start, start))
        },
        _ => None,
    }
}

/// The types of a file's items, in order.
pub open spec fn source_types(content: Seq<char>, items: Seq<SourceItem>) -> Seq<(Seq<char>, Seq<char>, Option<Seq<char>>, Seq<Seq<char>>, Seq<(Option<Seq<char>>, Seq<char>)>, Seq<(Seq<char>, Seq<(Option<Seq<char>>, Seq<char>)>, Option<Seq<char>>)>, i32, i32)>
    decreases items.len(),
{
    if items.len() == 0 {
        seq![]
    } else {
        let prev = source_types(content, items.drop_last());
        match item_type(content, items.last()) {
            Some(t) => prev.push(t),
            None => prev,
        }
    }
}


/// The view of a stored method.
pub open spec fn method_view(m: ExtractedMethod) -> (Seq<char>, Option<Seq<char>>) {
    (m.name@, opt_view(m.signature))
}

/// The view of a stored impl: implementing type and its display, trait name
/// and display, kind, methods and lines.
pub open spec fn impl_view(i: ExtractedImpl) -> (Seq<char>, Option<Seq<char>>, Option<Seq<char>>, Option<Seq<char>>, Seq<char>, Seq<(Seq<char>, Option<Seq<char>>)>, i32, i32) {
    (
        i.for_type@,
        opt_view(i.for_type_display),
        opt_view(i.trait_name),
        opt_view(i.trait_name_display),
        i.impl_kind@,
        i.methods@.map_values(|m: ExtractedMethod| method_view(m)),
        i.start_line,
        i.end_line,
    )
}

/// The line of a method: the first line holding `fn name`.
pub open spec fn method_line(content: Seq<char>, m: SourceMethod) -> i32 {
    symbol_line(content, "fn "@ + m.name@)
}

/// The stored signature of a method: its line, normalised, else its
/// signature tokens.
pub open spec fn method_signature_text(content: Seq<char>, m: SourceMethod) -> Seq<char> {
    match line_signature(content, method_line(content, m)) {
        Some(s) => s,
        None => m.sig_tokens@,
    }
}

/// The earliest line of a non-empty list of methods.
pub open spec fn first_method_line(content: Seq<char>, ms: Seq<SourceMethod>) -> i32
    decreases ms.len(),
{
    if ms.len() <= 1 {
        method_line(content, ms[0])
    } else {
        let prev = first_method_line(content, ms.drop_last());
        let l = method_line(content, ms.last());
        if l < prev {
            l
        } else {
            prev
        }
    }
}

/// The impls a derive list stands for: one `derive` impl per trait, at the
/// type's line.
pub open spec fn derive_impls(name: Seq<char>, ds: Seq<DeriveEntry>, start: i32) -> Seq<(Seq<char>, Option<Seq<char>>, Option<Seq<char>>, Option<Seq<char>>, Seq<char>, Seq<(Seq<char>, Option<Seq<char>>)>, i32, i32)> {
    ds.map_values(|d: DeriveEntry| (name, Some(name), Some(d.terminal@), Some(d.display@), "derive"@, seq![], start, start))
}

/// The impls an item gives: the derives of a struct, enum or union, or an
/// impl block whose implementing type has a name.
pub open spec fn item_impls(content: Seq<char>, item: SourceItem) -> Seq<(Seq<char>, Option<Seq<char>>, Option<Seq<char>>, Option<Seq<char>>, Seq<char>, Seq<(Seq<char>, Option<Seq<char>>)>, i32, i32)> {
    match item {
        SourceItem::Struct { name, derives, .. } => derive_impls(name@, derives@, symbol_line(content, name@)),
        SourceItem::Enum { name, derives, .. } => derive_impls(name@, derives@, symbol_line(content, name@)),
        SourceItem::Union { name, derives, .. } => derive_impls(name@, derives@, symbol_line(content, name@)),
        SourceItem::Impl { self_terminal, self_display, trait_, methods } => match self_terminal {
            None => seq![],
            Some(t) => {
                let start = if methods@.len() == 0 {
                    symbol_line(content, t@)
                } else {
                    first_method_line(content, methods@)
                };
                seq![(
                    t@,
                    Some(self_display@),
                    match trait_ {
                        Some(r) => opt_view(r.terminal),
                        None => None,
                    },
                    match trait_ {
                        Some(r) => Some(r.display@),
                        None => None,
                    },
                    if trait_ is Some {
                        "trait"@
                    } else {
                        "inherent"@
                    },
                    methods@.map_values(|m: SourceMethod| (m.name@, Some(method_signature_text(content, m)))),
                    start,
                    start,
                )]
            },
        },
        _ => seq![],
    }
}

/// The impls of a file's items, in order.
pub open spec fn source_impls(content: Seq<char>, items: Seq<SourceItem>) -> Seq<(Seq<char>, Option<Seq<char>>, Option<Seq<char>>, Option<Seq<char>>, Seq<char>, Seq<(Seq<char>, Option<Seq<char>>)>, i32, i32)>
    decreases items.len(),
{
    if items.len() == 0 {
        seq![]
    } else {
        source_impls(content, items.drop_last()) + item_impls(content, items.last())
    }
}

fn signature_at_line(content: &str, ls: &Vec<Vec<char>>, start: i32) -> (r: Option<String>)
    requires
        views(ls@) == lines(content@),
    ensures
        opt_view(r) == line_signature(content@, start),
{
    if start >= 1 && ((start - 1) as usize) < ls.len() {
        let idx = (start - 1) as usize;
        let line = string_of(&ls[idx]);
        proof {
            assert(views(ls@)[idx as int] == ls@[idx as int]@);
        }
        normalize_symbol_signature(line.as_str())
    } else {
        None
    }
}

fn vis_string(is_pub: bool) -> (r: Option<String>)
    ensures
        opt_view(r) == Some(vis_label(is_pub)),
{
    if is_pub {
        Some(string_of(&lit("public")))
    } else {
        Some(string_of(&lit("private")))
    }
}

fn named_symbol_row(content: &str, ls: &Vec<Vec<char>>, name: &String, kind: &str, is_pub: bool) -> (r: ExtractedSymbol)
    requires
        views(ls@) == lines(content@),
    ensures
        symbol_view(r) == named_symbol(content@, name@, kind@, is_pub),
{
    let start = line_for_symbol_name(content, name.as_str());
    ExtractedSymbol {
        name: name.clone(),
        kind: string_of(&chars_of(kind)),
        signature: signature_at_line(content, ls, start),
        visibility: vis_string(is_pub),
        start_line: start,
        end_line: start,
    }
}

fn copy_strings(v: &Vec<String>) -> (out: Vec<String>)
    ensures
        views_of_strings(out@) == views_of_strings(v@),
{
    let mut out: Vec<String> = Vec::new();
    let mut i: usize = 0;
    while i < v.len()
        invariant
            i <= v.len(),
            views_of_strings(out@) == views_of_strings(v@.take(i as int)),
        decreases v.len() - i,
    {
        out.push(v[i].clone());
        proof {
            assert(views_of_strings(v@.take(i + 1)) =~= views_of_strings(v@.take(i as int)).push(v@[i as int]@));
            assert(views_of_strings(out@) =~= views_of_strings(out@.drop_last()).push(out@.last()@));
        }
        i += 1;
    }
    proof {
        assert(v@.take(v@.len() as int) =~= v@);
    }
    out
}

fn copy_fields(v: &Vec<SourceField>) -> (out: Vec<SourceField>)
    ensures
        field_views(out@) == field_views(v@),
{
    let mut out: Vec<SourceField> = Vec::new();
    let mut i: usize = 0;
    while i < v.len()
        invariant
            i <= v.len(),
            field_views(out@) == field_views(v@.take(i as int)),
        decreases v.len() - i,
    {
        let f = SourceField { name: crate::doc_extract::copy_opt(&v[i].name), type_: v[i].type_.clone() };
        out.push(f);
        proof {
            assert(field_views(v@.take(i + 1)) =~= field_views(v@.take(i as int)).push(field_view(v@[i as int])));
            assert(field_views(out@) =~= field_views(out@.drop_last()).push(field_view(out@.last())));
        }
        i += 1;
    }
    proof {
        assert(v@.take(v@.len() as int) =~= v@);
    }
    out
}

fn copy_variants(v: &Vec<SourceVariant>) -> (out: Vec<SourceVariant>)
    ensures
        variant_views(out@) == variant_views(v@),
{
    let mut out: Vec<SourceVariant> = Vec::new();
    let mut i: usize = 0;
    while i < v.len()
        invariant
            i <= v.len(),
            variant_views(out@) == variant_views(v@.take(i as int)),
        decreases v.len() - i,
    {
        let x = SourceVariant {
            name: v[i].name.clone(),
            fields: copy_fields(&v[i].fields),
            discriminant: crate::doc_extract::copy_opt(&v[i].discriminant),
        };
        out.push(x);
        proof {
            assert(variant_views(v@.take(i + 1)) =~= variant_views(v@.take(i as int)).push(variant_view(v@[i as int])));
            assert(variant_views(out@) =~= variant_views(out@.drop_last()).push(variant_view(out@.last())));
        }
        i += 1;
    }
    proof {
        assert(v@.take(v@.len() as int) =~= v@);
    }
    out
}


/// The views of stored impls.
pub open spec fn impl_views(v: Seq<ExtractedImpl>) -> Seq<(Seq<char>, Option<Seq<char>>, Option<Seq<char>>, Option<Seq<char>>, Seq<char>, Seq<(Seq<char>, Option<Seq<char>>)>, i32, i32)> {
    v.map_values(|i: ExtractedImpl| impl_view(i))
}

/// The views of stored symbols.
pub open spec fn symbol_views(v: Seq<ExtractedSymbol>) -> Seq<(Seq<char>, Seq<char>, Option<Seq<char>>, Option<Seq<char>>, i32, i32)> {
    v.map_values(|s: ExtractedSymbol| symbol_view(s))
}

/// The views of stored types.
pub open spec fn type_views(v: Seq<ExtractedType>) -> Seq<(Seq<char>, Seq<char>, Option<Seq<char>>, Seq<Seq<char>>, Seq<(Option<Seq<char>>, Seq<char>)>, Seq<(Seq<char>, Seq<(Option<Seq<char>>, Seq<char>)>, Option<Seq<char>>)>, i32, i32)> {
    v.map_values(|t: ExtractedType| type_view(t))
}

fn push_derive_impls(out: &mut Vec<ExtractedImpl>, name: &String, ds: &Vec<DeriveEntry>, start: i32)
    ensures
        impl_views(final(out)@) == impl_views(old(out)@) + derive_impls(name@, ds@, start),
{
    let ghost base = impl_views(out@);
    let mut i: usize = 0;
    while i < ds.len()
        invariant
            i <= ds.len(),
            impl_views(out@) == base + derive_impls(name@, ds@.take(i as int), start),
        decreases ds.len() - i,
    {
        let row = ExtractedImpl {
            for_type: name.clone(),
            for_type_display: Some(name.clone()),
            trait_name: Some(ds[i].terminal.clone()),
            trait_name_display: Some(ds[i].display.clone()),
            impl_kind: string_of(&lit("derive")),
            methods: Vec::new(),
            start_line: start,
            end_line: start,
        };
        let ghost before = out@;
        out.push(row);
        proof {
            assert(row.methods@.map_values(|m: ExtractedMethod| method_view(m)) =~= seq![]);
            assert(impl_views(out@) =~= impl_views(before).push(impl_view(row)));
            assert(derive_impls(name@, ds@.take(i + 1), start) =~= derive_impls(name@, ds@.take(i as int), start).push(
                (name@, Some(name@), Some(ds@[i as int].terminal@), Some(ds@[i as int].display@), "derive"@, seq![], start, start),
            ));
        }
        i += 1;
    }
    proof {
        assert(ds@.take(ds@.len() as int) =~= ds@);
    }
}

fn impl_block_row(
    content: &str,
    ls: &Vec<Vec<char>>,
    terminal: &String,
    display: &String,
    trait_: &Option<ImplTraitRef>,
    methods: &Vec<SourceMethod>,
) -> (r: ExtractedImpl)
    requires
        views(ls@) == lines(content@),
    ensures
        seq![impl_view(r)] == item_impls(
            content@,
            SourceItem::Impl {
                self_terminal: Some(*terminal),
                self_display: *display,
                trait_: *trait_,
                methods: *methods,
            },
        ),
{
    let ghost ms = methods@;
    let mut rows: Vec<ExtractedMethod> = Vec::new();
    let mut first: i32 = 0;
    let mut i: usize = 0;
    while i < methods.len()
        invariant
            i <= methods.len(),
            ms == methods@,
            views(ls@) == lines(content@),
            rows@.map_values(|m: ExtractedMethod| method_view(m)) == ms.take(i as int).map_values(
                |m: SourceMethod| (m.name@, Some(method_signature_text(content@, m))),
            ),
            i > 0 ==> first == first_method_line(content@, ms.take(i as int)),
        decreases methods.len() - i,
    {
        let m = &methods[i];
        let line = line_for_method_name(content, m.name.as_str());
        let sig = match signature_at_line(content, ls, line) {
            Some(s) => s,
            None => m.sig_tokens.clone(),
        };
        let row = ExtractedMethod { name: m.name.clone(), signature: Some(sig) };
        let ghost before = rows@;
        rows.push(row);
        proof {
            assert(ms.take(i + 1).drop_last() =~= ms.take(i as int));
            assert(ms.take(i + 1).last() == ms[i as int]);
            assert(rows@.map_values(|m: ExtractedMethod| method_view(m)) =~= before.map_values(
                |m: ExtractedMethod| method_view(m),
            ).push(method_view(row)));
            assert(ms.take(i + 1).map_values(
                |m: SourceMethod| (m.name@, Some(method_signature_text(content@, m))),
            ) =~= ms.take(i as int).map_values(
                |m: SourceMethod| (m.name@, Some(method_signature_text(content@, m))),
            ).push((ms[i as int].name@, Some(method_signature_text(content@, ms[i as int])))));
        }
        if i == 0 || line < first {
            first = line;
        }
        i += 1;
    }
    let start = if methods.len() == 0 {
        line_for_symbol_name(content, terminal.as_str())
    } else {
        first
    };
    proof {
        assert(ms.take(ms.len() as int) =~= ms);
    }
    let (trait_name, trait_name_display, kind) = match trait_ {
        Some(t) => (crate::doc_extract::copy_opt(&t.terminal), Some(t.display.clone()), lit("trait")),
        None => (None, None, lit("inherent")),
    };
    ExtractedImpl {
        for_type: terminal.clone(),
        for_type_display: Some(display.clone()),
        trait_name,
        trait_name_display,
        impl_kind: string_of(&kind),
        methods: rows,
        start_line: start,
        end_line: start,
    }
}

/// The message of a source file that does not parse.
pub open spec fn parse_error_text(e: Seq<char>) -> Seq<char> {
    "rust parser error: "@ + e
}

/// Extracts the symbols, types and impls of a source file from its parsed
/// top-level items: every named item gives a symbol at the first line that
/// holds its name, structs, enums and unions give a type and one `derive`
/// impl per derived trait, and impl blocks of a named type give an impl
/// that starts at its earliest method. A file that did not parse gives the
/// parser's error.
pub fn extract_symbols_from_items(content: &str, parsed: Result<Vec<SourceItem>, String>) -> (r: Result<
    RustExtraction,
    String,
>)
    ensures
        match parsed {
            Err(e) => r matches Err(m) && m@ == parse_error_text(e@),
            Ok(items) => r matches Ok(x) && {
                &&& symbol_views(x.symbols@) == source_symbols(content@, items@)
                &&& type_views(x.types@) == source_types(content@, items@)
                &&& impl_views(x.impls@) == source_impls(content@, items@)
                &&& x.traits@.len() == 0
            },
        },
{
    let items = match parsed {
        Ok(items) => items,
        Err(e) => {
            let mut m = lit("rust parser error: ");
            crate::text::append_chars(&mut m, &crate::text::chars_of_string(&e));
            return Err(string_of(&m));
        },
    };
    let ls = lines_of(&chars_of(content));
    let mut symbols: Vec<ExtractedSymbol> = Vec::new();
    let mut types: Vec<ExtractedType> = Vec::new();
    let mut impls: Vec<ExtractedImpl> = Vec::new();
    let ghost its = items@;
    let mut i: usize = 0;
    while i < items.len()
        invariant
            i <= items.len(),
            its == items@,
            views(ls@) == lines(content@),
            symbol_views(symbols@) == source_symbols(content@, its.take(i as int)),
            type_views(types@) == source_types(content@, its.take(i as int)),
            impl_views(impls@) == source_impls(content@, its.take(i as int)),
        decreases items.len() - i,
    {
        proof {
            assert(its.take(i + 1).drop_last() =~= its.take(i as int));
            assert(its.take(i + 1).last() == its[i as int]);
        }
        let ghost sym0 = symbols@;
        let ghost ty0 = types@;
        let ghost im0 = impls@;
        match &items[i] {
            SourceItem::Plain { kind, name, is_pub } => {
                let label = match kind {
                    PlainItemKind::Function => "function",
                    PlainItemKind::Trait => "trait",
                    PlainItemKind::TypeAlias => "type_alias",
                    PlainItemKind::Const => "const",
                    PlainItemKind::Static => "static",
                    PlainItemKind::Module => "module",
                };
                let row = named_symbol_row(content, &ls, name, label, *is_pub);
                let ghost rv = symbol_view(row);
                symbols.push(row);
                proof {
                    assert(symbol_views(symbols@) =~= symbol_views(sym0).push(rv));
                    assert(impl_views(impls@) =~= impl_views(im0) + seq![]);
                }
            },
            SourceItem::Struct { name, is_pub, generic_params, fields, derives } => {
                let row = named_symbol_row(content, &ls, name, "struct", *is_pub);
                let start = row.start_line;
                let ghost rv = symbol_view(row);
                symbols.push(row);
                let t = ExtractedType {
                    name: name.clone(),
                    kind: string_of(&lit("struct")),
                    visibility: vis_string(*is_pub),
                    generic_params: copy_strings(generic_params),
                    fields: copy_fields(fields),
                    variants: Vec::new(),
                    start_line: start,
                    end_line: start,
                };
                proof { assert(variant_views(t.variants@) =~= seq![]); }
                let ghost tv = type_view(t);
                types.push(t);
                push_derive_impls(&mut impls, name, derives, start);
                proof {
                    assert(symbol_views(symbols@) =~= symbol_views(sym0).push(rv));
                    assert(type_views(types@) =~= type_views(ty0).push(tv));
                }
            },
            SourceItem::Enum { name, is_pub, generic_params, variants, derives } => {
                let row = named_symbol_row(content, &ls, name, "enum", *is_pub);
                let start = row.start_line;
                let ghost rv = symbol_view(row);
                symbols.push(row);
                let t = ExtractedType {
                    name: name.clone(),
                    kind: string_of(&lit("enum")),
                    visibility: vis_string(*is_pub),
                    generic_params: copy_strings(generic_params),
                    fields: Vec::new(),
                    variants: copy_variants(variants),
                    start_line: start,
                    end_line: start,
                };
                proof { assert(field_views(t.fields@) =~= seq![]); }
                let ghost tv = type_view(t);
                types.push(t);
                push_derive_impls(&mut impls, name, derives, start);
                proof {
                    assert(symbol_views(symbols@) =~= symbol_views(sym0).push(rv));
                    assert(type_views(types@) =~= type_views(ty0).push(tv));
                }
            },
            SourceItem::Union { name, is_pub, generic_params, fields, derives } => {
                let row = named_symbol_row(content, &ls, name, "union", *is_pub);
                let start = row.start_line;
                let ghost rv = symbol_view(row);
                symbols.push(row);
                let t = ExtractedType {
                    name: name.clone(),
                    kind: string_of(&lit("union")),
                    visibility: vis_string(*is_pub),
                    generic_params: copy_strings(generic_params),
                    fields: copy_fields(fields),
                    variants: Vec::new(),
                    start_line: start,
                    end_line: start,
                };
                proof { assert(variant_views(t.variants@) =~= seq![]); }
                let ghost tv = type_view(t);
                types.push(t);
                push_derive_impls(&mut impls, name, derives, start);
                proof {
                    assert(symbol_views(symbols@) =~= symbol_views(sym0).push(rv));
                    assert(type_views(types@) =~= type_views(ty0).push(tv));
                }
            },
            SourceItem::Impl { self_terminal, self_display, trait_, methods } => {
                match self_terminal {
                    Some(terminal) => {
                        let row = impl_block_row(content, &ls, terminal, self_display, trait_, methods);
                        let ghost iv = impl_view(row);
                        impls.push(row);
                        proof {
                            assert(impl_views(impls@) =~= impl_views(im0) + seq![iv]);
                        }
                    },
                    None => {
                        proof {
                            assert(impl_views(impls@) =~= impl_views(im0) + seq![]);
                        }
                    },
                }
            },
            SourceItem::Other => {
                proof {
                    assert(impl_views(impls@) =~= impl_views(im0) + seq![]);
                }
            },
        }
        i += 1;
    }
    proof {
        assert(its.take(its.len() as int) =~= its);
    }
    Ok(RustExtraction { symbols, types, impls, traits: Vec::new() })
}


/// The top-level items of a Rust source file as `syn::parse_file` reads
/// them, each as the symbol extraction reads it, or the parser's error
/// message.
pub open spec fn rust_items(content: Seq<char>) -> Result<Seq<SourceItem>, Seq<char>> {
    match crate::rust_parse::rust_syntax(content) {
        Ok(raw) => Ok(raw.map_values(|s: crate::rust_parse::SyntaxItem| crate::rust_parse::source_item_of(s))),
        Err(e) => Err(e),
    }
}

/// Two items that the extraction reads alike: the same fields, with lists
/// of derives and methods of the same contents.
pub open spec fn same_reading(x: SourceItem, y: SourceItem) -> bool {
    match (x, y) {
        (SourceItem::Struct { name: a, is_pub: b, generic_params: c, fields: d, derives: e },
         SourceItem::Struct { name: a2, is_pub: b2, generic_params: c2, fields: d2, derives: e2 }) =>
            a == a2 && b == b2 && c == c2 && d == d2 && e@ == e2@,
        (SourceItem::Enum { name: a, is_pub: b, generic_params: c, variants: d, derives: e },
         SourceItem::Enum { name: a2, is_pub: b2, generic_params: c2, variants: d2, derives: e2 }) =>
            a == a2 && b == b2 && c == c2 && d == d2 && e@ == e2@,
        (SourceItem::Union { name: a, is_pub: b, generic_params: c, fields: d, derives: e },
         SourceItem::Union { name: a2, is_pub: b2, generic_params: c2, fields: d2, derives: e2 }) =>
            a == a2 && b == b2 && c == c2 && d == d2 && e@ == e2@,
        (SourceItem::Impl { self_terminal: a, self_display: b, trait_: c, methods: d },
         SourceItem::Impl { self_terminal: a2, self_display: b2, trait_: c2, methods: d2 }) =>
            a == a2 && b == b2 && c == c2 && d@ == d2@,
        _ => x == y,
    }
}

proof fn lemma_same_reading(content: Seq<char>, x: SourceItem, y: SourceItem)
    requires
        same_reading(x, y),
    ensures
        item_symbol(content, x) == item_symbol(content, y),
        item_type(content, x) == item_type(content, y),
        item_impls(content, x) == item_impls(content, y),
{
}

/// Items read alike give the same symbols, types and impls.
proof fn lemma_same_readings(content: Seq<char>, a: Seq<SourceItem>, b: Seq<SourceItem>)
    requires
        a.len() == b.len(),
        forall|k: int| 0 <= k < a.len() ==> same_reading(#[trigger] a[k], b[k]),
    ensures
        source_symbols(content, a) == source_symbols(content, b),
        source_types(content, a) == source_types(content, b),
        source_impls(content, a) == source_impls(content, b),
    decreases a.len(),
{
    if a.len() > 0 {
        lemma_same_readings(content, a.drop_last(), b.drop_last());
        lemma_same_reading(content, a.last(), b.last());
    }
}

/// Parses a Rust source file and extracts its symbols, types and impls: the
/// extraction of [`extract_symbols_from_items`] on the items the parser
/// reads from the text, or `rust parser error: ` and the parser's message.
pub fn extract_rust_symbols(content: &str) -> (r: Result<RustExtraction, String>)
    ensures
        match rust_items(content@) {
            Err(e) => r matches Err(m) && m@ == parse_error_text(e),
            Ok(items) => r matches Ok(x) && {
                &&& symbol_views(x.symbols@) == source_symbols(content@, items)
                &&& type_views(x.types@) == source_types(content@, items)
                &&& impl_views(x.impls@) == source_impls(content@, items)
                &&& x.traits@.len() == 0
            },
        },
{
    match crate::rust_parse::parse_syntax_items(content) {
        Err(e) => extract_symbols_from_items(content, Err(e)),
        Ok(raw) => {
            let ghost rs = raw@;
            let items = crate::rust_parse::source_items_from(raw);
            proof {
                let spec_items = rs.map_values(|s: crate::rust_parse::SyntaxItem| crate::rust_parse::source_item_of(s));
                assert forall|k: int| 0 <= k < items@.len() implies same_reading(#[trigger] items@[k], spec_items[k]) by {
                    assert(same_reading(items@[k], crate::rust_parse::source_item_of(rs[k])));
                }
                lemma_same_readings(content@, items@, spec_items);
            }
            extract_symbols_from_items(content, Ok(items))
        },
    }
}

} // verus!
