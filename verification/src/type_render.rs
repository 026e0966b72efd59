//! Rendering of rustdoc type expressions as Rust source text.
//!
//! The types here hold what the renderer reads of a rustdoc JSON type tree:
//! paths, generic arguments, bounds, function signatures and generic
//! parameter lists.
use vstd::prelude::*;
use crate::text::{
    after_last, after_last_chars, append_chars, chars_of, chars_of_string, join, join_chars, lit,
    split, split_chars, str_views, string_of, strings_to_chars, chars_to_strings, views,
};
use crate::sorted::{sort_dedup, strictly_sorted};
use crate::doc_model::DocItemInner;

verus! {

/// A type expression of a rustdoc document.
pub enum TypeExpr {
    ResolvedPath(PathExpr),
    DynTrait { traits: Vec<PathExpr>, lifetime: Option<String> },
    Generic(String),
    Primitive(String),
    FunctionPointer(FnSignatureExpr),
    Tuple(Vec<TypeExpr>),
    Slice(Box<TypeExpr>),
    Array { type_: Box<TypeExpr>, len: String },
    Pat { type_: Box<TypeExpr> },
    ImplTrait(Vec<BoundExpr>),
    Infer,
    RawPointer { is_mutable: bool, type_: Box<TypeExpr> },
    BorrowedRef { lifetime: Option<String>, is_mutable: bool, type_: Box<TypeExpr> },
    QualifiedPath { name: String, self_type: Box<TypeExpr>, trait_: Option<PathExpr> },
}

/// A path with optional generic arguments, such as `Vec<T>`.
pub struct PathExpr {
    pub path: String,
    pub args: Option<Box<GenericArgsExpr>>,
}

/// The generic arguments that follow a path segment.
pub enum GenericArgsExpr {
    /// `<'a, T, N, Item = ...>`; the constraints are given by their names.
    AngleBracketed { args: Vec<GenericArgExpr>, constraints: Vec<String> },
    /// `(A, B) -> C`, as in `Fn(A, B) -> C`.
    Parenthesized { inputs: Vec<TypeExpr>, output: Option<Box<TypeExpr>> },
    ReturnTypeNotation,
}

/// One generic argument; a constant is given by its expression text.
pub enum GenericArgExpr {
    Lifetime(String),
    Type(TypeExpr),
    Const(String),
    Infer,
}

/// The modifier of a trait bound.
#[derive(PartialEq, Eq, Structural, Clone, Copy, Debug)]
pub enum BoundModifier {
    Plain,
    Maybe,
    MaybeConst,
}

/// A bound on a generic parameter or an `impl Trait` type.
pub enum BoundExpr {
    TraitBound { trait_: PathExpr, modifier: BoundModifier },
    Outlives(String),
    Use,
}

/// One named input of a function signature.
pub struct FnInputExpr {
    pub name: String,
    pub type_: TypeExpr,
}

/// The inputs and output of a function signature.
pub struct FnSignatureExpr {
    pub inputs: Vec<FnInputExpr>,
    pub output: Option<Box<TypeExpr>>,
}

/// The text of an optional suffix: `pre` then `s`, or nothing.
pub open spec fn opt_text(o: Option<String>, pre: Seq<char>, post: Seq<char>) -> Seq<char> {
    match o {
        Some(s) => pre + s@ + post,
        None => seq![],
    }
}

/// The prefix of a bound modifier.
pub open spec fn modifier_text(m: BoundModifier) -> Seq<char> {
    match m {
        BoundModifier::Plain => seq![],
        BoundModifier::Maybe => "?"@,
        BoundModifier::MaybeConst => "~const "@,
    }
}

/// The text of each constraint name: `Name = ...`.
pub open spec fn constraint_texts(s: Seq<String>) -> Seq<Seq<char>> {
    Seq::new(s.len(), |i: int| s[i]@ + " = ..."@)
}

/// The source text of a type expression.
pub open spec fn type_text(t: TypeExpr) -> Seq<char>
    decreases t,
{
    match t {
        TypeExpr::ResolvedPath(p) => path_text(p),
        TypeExpr::DynTrait { traits, lifetime } => "dyn "@ + join(path_texts(traits@), " + "@)
            + opt_text(lifetime, " + "@, seq![]),
        TypeExpr::Generic(n) => n@,
        TypeExpr::Primitive(n) => n@,
        TypeExpr::FunctionPointer(sig) => "fn"@ + signature_text(sig),
        TypeExpr::Tuple(ts) => "("@ + join(type_texts(ts@), ", "@) + ")"@,
        TypeExpr::Slice(inner) => "["@ + type_text(*inner) + "]"@,
        TypeExpr::Array { type_, len } => "["@ + type_text(*type_) + "; "@ + len@ + "]"@,
        TypeExpr::Pat { type_ } => type_text(*type_),
        TypeExpr::ImplTrait(bs) => "impl "@ + join(bound_texts(bs@), " + "@),
        TypeExpr::Infer => "_"@,
        TypeExpr::RawPointer { is_mutable, type_ } => "*"@ + (if is_mutable {
            "mut"@
        } else {
            "const"@
        }) + " "@ + type_text(*type_),
        TypeExpr::BorrowedRef { lifetime, is_mutable, type_ } => "&"@ + opt_text(
            lifetime,
            seq![],
            " "@,
        ) + (if is_mutable {
            "mut "@
        } else {
            seq![]
        }) + type_text(*type_),
        TypeExpr::QualifiedPath { name, self_type, trait_ } => match trait_ {
            Some(tr) => "<"@ + type_text(*self_type) + " as "@ + path_text(tr) + ">::"@ + name@,
            None => type_text(*self_type) + "::"@ + name@,
        },
    }
}

/// The source text of a path and its generic arguments.
pub open spec fn path_text(p: PathExpr) -> Seq<char>
    decreases p,
{
    match p.args {
        Some(a) => p.path@ + args_text(*a),
        None => p.path@,
    }
}

/// The source text of generic arguments.
pub open spec fn args_text(a: GenericArgsExpr) -> Seq<char>
    decreases a,
{
    match a {
        GenericArgsExpr::AngleBracketed { args, constraints } => {
            let parts = arg_texts(args@) + constraint_texts(constraints@);
            if parts.len() == 0 {
                seq![]
            } else {
                "<"@ + join(parts, ", "@) + ">"@
            }
        },
        GenericArgsExpr::Parenthesized { inputs, output } => "("@ + join(
            type_texts(inputs@),
            ", "@,
        ) + ")"@ + match output {
            Some(o) => " -> "@ + type_text(*o),
            None => seq![],
        },
        GenericArgsExpr::ReturnTypeNotation => "(..)"@,
    }
}

/// The source text of one generic argument.
pub open spec fn arg_text(a: GenericArgExpr) -> Seq<char>
    decreases a,
{
    match a {
        GenericArgExpr::Lifetime(l) => l@,
        GenericArgExpr::Type(t) => type_text(t),
        GenericArgExpr::Const(e) => e@,
        GenericArgExpr::Infer => "_"@,
    }
}

/// The source text of a bound.
pub open spec fn bound_text(b: BoundExpr) -> Seq<char>
    decreases b,
{
    match b {
        BoundExpr::TraitBound { trait_, modifier } => modifier_text(modifier) + path_text(trait_),
        BoundExpr::Outlives(l) => l@,
        BoundExpr::Use => "use<...>"@,
    }
}

/// The source text of a signature: `(a: A, b: B) -> C`.
pub open spec fn signature_text(s: FnSignatureExpr) -> Seq<char>
    decreases s,
{
    "("@ + join(input_texts(s.inputs@), ", "@) + ")"@ + match s.output {
        Some(o) => " -> "@ + type_text(*o),
        None => seq![],
    }
}

/// The source text of a named input: `name: Type`.
pub open spec fn input_text(i: FnInputExpr) -> Seq<char>
    decreases i,
{
    i.name@ + ": "@ + type_text(i.type_)
}

/// The text of each type of a sequence.
pub open spec fn type_texts(s: Seq<TypeExpr>) -> Seq<Seq<char>>
    decreases s,
{
    if s.len() == 0 {
        seq![]
    } else {
        type_texts(s.subrange(0, s.len() - 1)).push(type_text(s[s.len() - 1]))
    }
}

/// The text of each path of a sequence.
pub open spec fn path_texts(s: Seq<PathExpr>) -> Seq<Seq<char>>
    decreases s,
{
    if s.len() == 0 {
        seq![]
    } else {
        path_texts(s.subrange(0, s.len() - 1)).push(path_text(s[s.len() - 1]))
    }
}

/// The text of each generic argument of a sequence.
pub open spec fn arg_texts(s: Seq<GenericArgExpr>) -> Seq<Seq<char>>
    decreases s,
{
    if s.len() == 0 {
        seq![]
    } else {
        arg_texts(s.subrange(0, s.len() - 1)).push(arg_text(s[s.len() - 1]))
    }
}

/// The text of each bound of a sequence.
pub open spec fn bound_texts(s: Seq<BoundExpr>) -> Seq<Seq<char>>
    decreases s,
{
    if s.len() == 0 {
        seq![]
    } else {
        bound_texts(s.subrange(0, s.len() - 1)).push(bound_text(s[s.len() - 1]))
    }
}

/// The text of each input of a sequence.
pub open spec fn input_texts(s: Seq<FnInputExpr>) -> Seq<Seq<char>>
    decreases s,
{
    if s.len() == 0 {
        seq![]
    } else {
        input_texts(s.subrange(0, s.len() - 1)).push(input_text(s[s.len() - 1]))
    }
}


fn push_lit(out: &mut Vec<char>, s: &str)
    ensures
        final(out)@ == old(out)@ + s@,
{
    append_chars(out, &lit(s));
}

fn push_string(out: &mut Vec<char>, s: &String)
    ensures
        final(out)@ == old(out)@ + s@,
{
    append_chars(out, &chars_of_string(s));
}

fn type_chars(t: &TypeExpr) -> (out: Vec<char>)
    ensures
        out@ == type_text(*t),
    decreases t,
{
    let mut out: Vec<char> = Vec::new();
    match t {
        TypeExpr::ResolvedPath(p) => {
            out = path_chars(p);
        },
        TypeExpr::DynTrait { traits, lifetime } => {
            push_lit(&mut out, "dyn ");
            append_chars(&mut out, &join_chars(&paths_chars(traits), &lit(" + ")));
            match lifetime {
                Some(lt) => {
                    push_lit(&mut out, " + ");
                    push_string(&mut out, lt);
                },
                None => {},
            }
        },
        TypeExpr::Generic(n) => {
            out = chars_of_string(n);
        },
        TypeExpr::Primitive(n) => {
            out = chars_of_string(n);
        },
        TypeExpr::FunctionPointer(sig) => {
            push_lit(&mut out, "fn");
            append_chars(&mut out, &signature_chars(sig));
        },
        TypeExpr::Tuple(ts) => {
            push_lit(&mut out, "(");
            append_chars(&mut out, &join_chars(&types_chars(ts), &lit(", ")));
            push_lit(&mut out, ")");
        },
        TypeExpr::Slice(inner) => {
            push_lit(&mut out, "[");
            append_chars(&mut out, &type_chars(inner));
            push_lit(&mut out, "]");
        },
        TypeExpr::Array { type_, len } => {
            push_lit(&mut out, "[");
            append_chars(&mut out, &type_chars(type_));
            push_lit(&mut out, "; ");
            push_string(&mut out, len);
            push_lit(&mut out, "]");
        },
        TypeExpr::Pat { type_ } => {
            out = type_chars(type_);
        },
        TypeExpr::ImplTrait(bs) => {
            push_lit(&mut out, "impl ");
            append_chars(&mut out, &join_chars(&bounds_chars(bs), &lit(" + ")));
        },
        TypeExpr::Infer => {
            push_lit(&mut out, "_");
        },
        TypeExpr::RawPointer { is_mutable, type_ } => {
            push_lit(&mut out, "*");
            if *is_mutable {
                push_lit(&mut out, "mut");
            } else {
                push_lit(&mut out, "const");
            }
            push_lit(&mut out, " ");
            append_chars(&mut out, &type_chars(type_));
        },
        TypeExpr::BorrowedRef { lifetime, is_mutable, type_ } => {
            push_lit(&mut out, "&");
            match lifetime {
                Some(lt) => {
                    push_string(&mut out, lt);
                    push_lit(&mut out, " ");
                },
                None => {},
            }
            if *is_mutable {
                push_lit(&mut out, "mut ");
            }
            append_chars(&mut out, &type_chars(type_));
        },
        TypeExpr::QualifiedPath { name, self_type, trait_ } => {
            match trait_ {
                Some(tr) => {
                    push_lit(&mut out, "<");
                    append_chars(&mut out, &type_chars(self_type));
                    push_lit(&mut out, " as ");
                    append_chars(&mut out, &path_chars(tr));
                    push_lit(&mut out, ">::");
                    push_string(&mut out, name);
                },
                None => {
                    append_chars(&mut out, &type_chars(self_type));
                    push_lit(&mut out, "::");
                    push_string(&mut out, name);
                },
            }
        },
    }
    proof {
        assert(out@ =~= type_text(*t));
    }
    out
}

fn path_chars(p: &PathExpr) -> (out: Vec<char>)
    ensures
        out@ == path_text(*p),
    decreases p,
{
    let mut out = chars_of_string(&p.path);
    match &p.args {
        Some(a) => {
            append_chars(&mut out, &args_chars(a));
        },
        None => {},
    }
    out
}

fn args_chars(a: &GenericArgsExpr) -> (out: Vec<char>)
    ensures
        out@ == args_text(*a),
    decreases a,
{
    let mut out: Vec<char> = Vec::new();
    match a {
        GenericArgsExpr::AngleBracketed { args, constraints } => {
            let mut parts = arg_list_chars(args);
            let ghost first = views(parts@);
            let mut i: usize = 0;
            while i < constraints.len()
                invariant
                    i <= constraints.len(),
                    views(parts@) == first + constraint_texts(constraints@.subrange(0, i as int)),
                decreases constraints.len() - i,
            {
                let mut c = chars_of_string(&constraints[i]);
                push_lit(&mut c, " = ...");
                let ghost before = parts@;
                parts.push(c);
                proof {
                    assert(views(parts@) =~= views(before).push(c@));
                    assert(constraint_texts(constraints@.subrange(0, i + 1)) =~= constraint_texts(
                        constraints@.subrange(0, i as int),
                    ).push(constraints@[i as int]@ + " = ..."@));
                    assert(views(parts@) =~= first + constraint_texts(
                        constraints@.subrange(0, i + 1),
                    ));
                }
                i += 1;
            }
            proof {
                assert(constraints@.subrange(0, constraints@.len() as int) =~= constraints@);
            }
            if parts.len() > 0 {
                push_lit(&mut out, "<");
                append_chars(&mut out, &join_chars(&parts, &lit(", ")));
                push_lit(&mut out, ">");
            }
        },
        GenericArgsExpr::Parenthesized { inputs, output } => {
            push_lit(&mut out, "(");
            append_chars(&mut out, &join_chars(&types_chars(inputs), &lit(", ")));
            push_lit(&mut out, ")");
            match output {
                Some(o) => {
                    push_lit(&mut out, " -> ");
                    append_chars(&mut out, &type_chars(o));
                },
                None => {},
            }
        },
        GenericArgsExpr::ReturnTypeNotation => {
            push_lit(&mut out, "(..)");
        },
    }
    proof {
        assert(out@ =~= args_text(*a));
    }
    out
}

fn arg_chars(a: &GenericArgExpr) -> (out: Vec<char>)
    ensures
        out@ == arg_text(*a),
    decreases a,
{
    match a {
        GenericArgExpr::Lifetime(l) => chars_of_string(l),
        GenericArgExpr::Type(t) => type_chars(t),
        GenericArgExpr::Const(e) => chars_of_string(e),
        GenericArgExpr::Infer => lit("_"),
    }
}

fn bound_chars(b: &BoundExpr) -> (out: Vec<char>)
    ensures
        out@ == bound_text(*b),
    decreases b,
{
    match b {
        BoundExpr::TraitBound { trait_, modifier } => {
            let mut out = match modifier {
                BoundModifier::Plain => Vec::new(),
                BoundModifier::Maybe => lit("?"),
                BoundModifier::MaybeConst => lit("~const "),
            };
            append_chars(&mut out, &path_chars(trait_));
            proof {
                assert(out@ =~= bound_text(*b));
            }
            out
        },
        BoundExpr::Outlives(l) => chars_of_string(l),
        BoundExpr::Use => lit("use<...>"),
    }
}

fn signature_chars(s: &FnSignatureExpr) -> (out: Vec<char>)
    ensures
        out@ == signature_text(*s),
    decreases s,
{
    let mut out = lit("(");
    append_chars(&mut out, &join_chars(&input_list_chars(&s.inputs), &lit(", ")));
    push_lit(&mut out, ")");
    match &s.output {
        Some(o) => {
            push_lit(&mut out, " -> ");
            append_chars(&mut out, &type_chars(o));
        },
        None => {},
    }
    proof {
        assert(out@ =~= signature_text(*s));
    }
    out
}

fn types_chars(v: &Vec<TypeExpr>) -> (out: Vec<Vec<char>>)
    ensures
        views(out@) == type_texts(v@),
    decreases v,
{
    let mut out: Vec<Vec<char>> = Vec::new();
    let mut i: usize = 0;
    while i < v.len()
        invariant
            i <= v.len(),
            views(out@) == type_texts(v@.subrange(0, i as int)),
        decreases v.len() - i,
    {
        out.push(type_chars(&v[i]));
        proof {
            assert(v@.subrange(0, i + 1).subrange(0, i as int) =~= v@.subrange(0, i as int));
            assert(views(out@) =~= type_texts(v@.subrange(0, i + 1)));
        }
        i += 1;
    }
    proof {
        assert(v@.subrange(0, v@.len() as int) =~= v@);
    }
    out
}

fn paths_chars(v: &Vec<PathExpr>) -> (out: Vec<Vec<char>>)
    ensures
        views(out@) == path_texts(v@),
    decreases v,
{
    let mut out: Vec<Vec<char>> = Vec::new();
    let mut i: usize = 0;
    while i < v.len()
        invariant
            i <= v.len(),
            views(out@) == path_texts(v@.subrange(0, i as int)),
        decreases v.len() - i,
    {
        out.push(path_chars(&v[i]));
        proof {
            assert(v@.subrange(0, i + 1).subrange(0, i as int) =~= v@.subrange(0, i as int));
            assert(views(out@) =~= path_texts(v@.subrange(0, i + 1)));
        }
        i += 1;
    }
    proof {
        assert(v@.subrange(0, v@.len() as int) =~= v@);
    }
    out
}

fn arg_list_chars(v: &Vec<GenericArgExpr>) -> (out: Vec<Vec<char>>)
    ensures
        views(out@) == arg_texts(v@),
    decreases v,
{
    let mut out: Vec<Vec<char>> = Vec::new();
    let mut i: usize = 0;
    while i < v.len()
        invariant
            i <= v.len(),
            views(out@) == arg_texts(v@.subrange(0, i as int)),
        decreases v.len() - i,
    {
        out.push(arg_chars(&v[i]));
        proof {
            assert(v@.subrange(0, i + 1).subrange(0, i as int) =~= v@.subrange(0, i as int));
            assert(views(out@) =~= arg_texts(v@.subrange(0, i + 1)));
        }
        i += 1;
    }
    proof {
        assert(v@.subrange(0, v@.len() as int) =~= v@);
    }
    out
}

fn bounds_chars(v: &Vec<BoundExpr>) -> (out: Vec<Vec<char>>)
    ensures
        views(out@) == bound_texts(v@),
    decreases v,
{
    let mut out: Vec<Vec<char>> = Vec::new();
    let mut i: usize = 0;
    while i < v.len()
        invariant
            i <= v.len(),
            views(out@) == bound_texts(v@.subrange(0, i as int)),
        decreases v.len() - i,
    {
        out.push(bound_chars(&v[i]));
        proof {
            assert(v@.subrange(0, i + 1).subrange(0, i as int) =~= v@.subrange(0, i as int));
            assert(views(out@) =~= bound_texts(v@.subrange(0, i + 1)));
        }
        i += 1;
    }
    proof {
        assert(v@.subrange(0, v@.len() as int) =~= v@);
    }
    out
}

fn input_list_chars(v: &Vec<FnInputExpr>) -> (out: Vec<Vec<char>>)
    ensures
        views(out@) == input_texts(v@),
    decreases v,
{
    let mut out: Vec<Vec<char>> = Vec::new();
    let mut i: usize = 0;
    while i < v.len()
        invariant
            i <= v.len(),
            views(out@) == input_texts(v@.subrange(0, i as int)),
        decreases v.len() - i,
    {
        let mut one = chars_of_string(&v[i].name);
        push_lit(&mut one, ": ");
        append_chars(&mut one, &type_chars(&v[i].type_));
        proof {
            assert(one@ == input_text(v@[i as int]));
        }
        let ghost before = out@;
        out.push(one);
        proof {
            assert(views(out@) =~= views(before).push(one@));
            assert(v@.subrange(0, i + 1).subrange(0, i as int) =~= v@.subrange(0, i as int));
            assert(views(out@) =~= input_texts(v@.subrange(0, i + 1)));
        }
        i += 1;
    }
    proof {
        assert(v@.subrange(0, v@.len() as int) =~= v@);
    }
    out
}

/// Renders a type expression as Rust source text.
pub fn render_type(ty: &TypeExpr) -> (out: String)
    ensures
        out@ == type_text(*ty),
{
    string_of(&type_chars(ty))
}

/// Renders a path with its generic arguments.
pub fn render_path(path: &PathExpr) -> (out: String)
    ensures
        out@ == path_text(*path),
{
    string_of(&path_chars(path))
}

/// Renders generic arguments: `<A, B>` or `(A) -> B`.
pub fn render_generic_args(args: &GenericArgsExpr) -> (out: String)
    ensures
        out@ == args_text(*args),
{
    string_of(&args_chars(args))
}

/// Renders a bound: `?Sized`, `Clone`, `'a`.
pub fn render_bound(bound: &BoundExpr) -> (out: String)
    ensures
        out@ == bound_text(*bound),
{
    string_of(&bound_chars(bound))
}

/// Renders a function pointer type: `fn(a: A) -> B`.
pub fn render_fn_pointer(sig: &FnSignatureExpr) -> (out: String)
    ensures
        out@ == "fn"@ + signature_text(*sig),
{
    let mut out = lit("fn");
    append_chars(&mut out, &signature_chars(sig));
    string_of(&out)
}

/// Renders a function signature: `(a: A) -> B`.
pub fn render_fn_signature(sig: &FnSignatureExpr) -> (out: String)
    ensures
        out@ == signature_text(*sig),
{
    string_of(&signature_chars(sig))
}

/// The right-hand side of an equality predicate.
pub enum TermExpr {
    Type(TypeExpr),
    Constant(String),
}

/// One predicate of a `where` clause.
pub enum WherePredicateExpr {
    BoundPredicate { type_: TypeExpr, bounds: Vec<BoundExpr> },
    LifetimePredicate { lifetime: String, outlives: Vec<String> },
    EqPredicate { lhs: TypeExpr, rhs: TermExpr },
}

/// What kind of generic parameter a declaration is.
#[allow(inconsistent_fields)]
pub enum GenericParamKind {
    Lifetime { outlives: Vec<String> },
    Type { bounds: Vec<BoundExpr>, default: Option<TypeExpr>, is_synthetic: bool },
    Const { type_: TypeExpr, default: Option<String> },
}

/// A generic parameter declaration.
pub struct GenericParamExpr {
    pub name: String,
    pub kind: GenericParamKind,
}

/// `": " + parts joined with " + "`, or nothing when there are no parts.
pub open spec fn plus_list(parts: Seq<Seq<char>>) -> Seq<char> {
    if parts.len() == 0 {
        seq![]
    } else {
        ": "@ + join(parts, " + "@)
    }
}

/// The source text of a `where` predicate.
pub open spec fn where_text(p: WherePredicateExpr) -> Seq<char> {
    match p {
        WherePredicateExpr::BoundPredicate { type_, bounds } => type_text(type_) + ": "@ + join(
            bound_texts(bounds@),
            " + "@,
        ),
        WherePredicateExpr::LifetimePredicate { lifetime, outlives } => lifetime@ + plus_list(
            str_views(outlives@),
        ),
        WherePredicateExpr::EqPredicate { lhs, rhs } => type_text(lhs) + " = "@ + match rhs {
            TermExpr::Type(t) => type_text(t),
            TermExpr::Constant(e) => e@,
        },
    }
}

/// The declaration text of a generic parameter: `'a: 'b`, `T: Clone = u8`,
/// `const N: usize = 4`.
pub open spec fn param_decl_text(p: GenericParamExpr) -> Seq<char> {
    match p.kind {
        GenericParamKind::Lifetime { outlives } => p.name@ + plus_list(str_views(outlives@)),
        GenericParamKind::Type { bounds, default, .. } => p.name@ + plus_list(bound_texts(bounds@))
            + match default {
            Some(d) => " = "@ + type_text(d),
            None => seq![],
        },
        GenericParamKind::Const { type_, default } => "const "@ + p.name@ + ": "@ + type_text(type_)
            + opt_text(default, " = "@, seq![]),
    }
}

/// The display text of a generic parameter; synthetic type parameters
/// (`impl Trait` in argument position) have none.
pub open spec fn param_text(p: GenericParamExpr) -> Option<Seq<char>> {
    match p.kind {
        GenericParamKind::Type { is_synthetic, .. } if is_synthetic => None,
        _ => Some(param_decl_text(p)),
    }
}

/// The display texts of the parameters that have one, in order.
pub open spec fn param_texts(s: Seq<GenericParamExpr>) -> Seq<Seq<char>>
    decreases s.len(),
{
    if s.len() == 0 {
        seq![]
    } else {
        match param_text(s.last()) {
            Some(t) => param_texts(s.drop_last()).push(t),
            None => param_texts(s.drop_last()),
        }
    }
}

/// The display text of a generic parameter list: `<T: Clone, U>`, or
/// nothing when no parameter is shown.
pub open spec fn params_display(s: Seq<GenericParamExpr>) -> Seq<char> {
    if param_texts(s).len() == 0 {
        seq![]
    } else {
        "<"@ + join(param_texts(s), ", "@) + ">"@
    }
}

fn plus_list_chars(parts: &Vec<Vec<char>>) -> (out: Vec<char>)
    ensures
        out@ == plus_list(views(parts@)),
{
    if parts.len() == 0 {
        Vec::new()
    } else {
        let mut out = lit(": ");
        append_chars(&mut out, &join_chars(parts, &lit(" + ")));
        out
    }
}

/// Renders a `where` predicate: `T: Clone + Send`, `'a: 'b`, `T = U`.
pub fn render_where_predicate(pred: &WherePredicateExpr) -> (out: String)
    ensures
        out@ == where_text(*pred),
{
    let mut out: Vec<char> = Vec::new();
    match pred {
        WherePredicateExpr::BoundPredicate { type_, bounds } => {
            out = type_chars(type_);
            push_lit(&mut out, ": ");
            append_chars(&mut out, &join_chars(&bounds_chars(bounds), &lit(" + ")));
        },
        WherePredicateExpr::LifetimePredicate { lifetime, outlives } => {
            out = chars_of_string(lifetime);
            let parts = strings_to_chars(outlives.as_slice());
            append_chars(&mut out, &plus_list_chars(&parts));
        },
        WherePredicateExpr::EqPredicate { lhs, rhs } => {
            out = type_chars(lhs);
            push_lit(&mut out, " = ");
            match rhs {
                TermExpr::Type(t) => append_chars(&mut out, &type_chars(t)),
                TermExpr::Constant(e) => push_string(&mut out, e),
            }
        },
    }
    proof {
        assert(out@ =~= where_text(*pred));
    }
    string_of(&out)
}

fn param_decl_chars(p: &GenericParamExpr) -> (out: Vec<char>)
    ensures
        out@ == param_decl_text(*p),
{
    let mut out = chars_of_string(&p.name);
    match &p.kind {
        GenericParamKind::Lifetime { outlives } => {
            let parts = strings_to_chars(outlives.as_slice());
            append_chars(&mut out, &plus_list_chars(&parts));
        },
        GenericParamKind::Type { bounds, default, .. } => {
            append_chars(&mut out, &plus_list_chars(&bounds_chars(bounds)));
            match default {
                Some(d) => {
                    push_lit(&mut out, " = ");
                    append_chars(&mut out, &type_chars(d));
                },
                None => {},
            }
        },
        GenericParamKind::Const { type_, default } => {
            out = lit("const ");
            push_string(&mut out, &p.name);
            push_lit(&mut out, ": ");
            append_chars(&mut out, &type_chars(type_));
            match default {
                Some(d) => {
                    push_lit(&mut out, " = ");
                    push_string(&mut out, d);
                },
                None => {},
            }
        },
    }
    proof {
        assert(out@ =~= param_decl_text(*p));
    }
    out
}

/// Renders the declaration of one generic parameter, synthetic or not.
pub fn render_generic_param(p: &GenericParamExpr) -> (out: String)
    ensures
        out@ == param_decl_text(*p),
{
    string_of(&param_decl_chars(p))
}

fn param_chars(p: &GenericParamExpr) -> (out: Option<Vec<char>>)
    ensures
        match out {
            Some(t) => param_text(*p) == Some(t@),
            None => param_text(*p) is None,
        },
{
    match &p.kind {
        GenericParamKind::Type { is_synthetic, .. } => {
            if *is_synthetic {
                return None;
            }
        },
        _ => {},
    }
    Some(param_decl_chars(p))
}

/// Renders generic parameters for display in signatures: `<T: Clone, U>`.
pub fn render_generic_params_display(params: &Vec<GenericParamExpr>) -> (out: String)
    ensures
        out@ == params_display(params@),
{
    let mut parts: Vec<Vec<char>> = Vec::new();
    let mut i: usize = 0;
    while i < params.len()
        invariant
            i <= params.len(),
            views(parts@) == param_texts(params@.take(i as int)),
        decreases params.len() - i,
    {
        let ghost before = parts@;
        match param_chars(&params[i]) {
            Some(t) => {
                parts.push(t);
                proof {
                    assert(views(parts@) =~= views(before).push(t@));
                }
            },
            None => {},
        }
        proof {
            assert(params@.take(i + 1).drop_last() =~= params@.take(i as int));
            assert(params@.take(i + 1).last() == params@[i as int]);
        }
        i += 1;
    }
    proof {
        assert(params@.take(params@.len() as int) =~= params@);
    }
    if parts.len() == 0 {
        String::new()
    } else {
        let mut out = lit("<");
        append_chars(&mut out, &join_chars(&parts, &lit(", ")));
        push_lit(&mut out, ">");
        string_of(&out)
    }
}

/// The simple name shown for a type: the last path segment, looking
/// through references; a rendering of the type for the other kinds.
pub open spec fn terminal_name(t: TypeExpr) -> Seq<char>
    decreases t,
{
    match t {
        TypeExpr::ResolvedPath(p) => after_last(p.path@, "::"@),
        TypeExpr::BorrowedRef { type_, .. } => terminal_name(*type_),
        TypeExpr::Generic(n) => n@,
        TypeExpr::Primitive(n) => n@,
        TypeExpr::Tuple(_) => "(tuple)"@,
        TypeExpr::Slice(inner) => "["@ + terminal_name(*inner) + "]"@,
        _ => type_text(t),
    }
}

fn terminal_chars(t: &TypeExpr) -> (out: Vec<char>)
    ensures
        out@ == terminal_name(*t),
    decreases t,
{
    match t {
        TypeExpr::ResolvedPath(p) => after_last_chars(&chars_of_string(&p.path), &lit("::")),
        TypeExpr::BorrowedRef { type_, .. } => terminal_chars(type_),
        TypeExpr::Generic(n) => chars_of_string(n),
        TypeExpr::Primitive(n) => chars_of_string(n),
        TypeExpr::Tuple(_) => lit("(tuple)"),
        TypeExpr::Slice(inner) => {
            let mut out = lit("[");
            append_chars(&mut out, &terminal_chars(inner));
            push_lit(&mut out, "]");
            out
        },
        _ => type_chars(t),
    }
}

/// The simple name of a type, for the type-name column of an index row.
pub fn type_terminal_name(ty: &TypeExpr) -> (out: String)
    ensures
        out@ == terminal_name(*ty),
{
    string_of(&terminal_chars(ty))
}

/// The visibility of an item.
pub enum VisibilityKind {
    Public,
    Default,
    Crate,
    Restricted { path: String },
}

/// The label stored for a visibility.
pub open spec fn visibility_label(v: VisibilityKind) -> Seq<char> {
    match v {
        VisibilityKind::Public => "public"@,
        VisibilityKind::Default => "private"@,
        VisibilityKind::Crate => "pub"@,
        VisibilityKind::Restricted { path } => "pub(in "@ + path@ + ")"@,
    }
}

/// The label of a visibility; every visibility has one.
pub fn visibility_string(vis: &VisibilityKind) -> (out: Option<String>)
    ensures
        match out {
            Some(s) => s@ == visibility_label(*vis),
            None => false,
        },
{
    let out = match vis {
        VisibilityKind::Public => lit("public"),
        VisibilityKind::Default => lit("private"),
        VisibilityKind::Crate => lit("pub"),
        VisibilityKind::Restricted { path } => {
            let mut s = lit("pub(in ");
            push_string(&mut s, path);
            push_lit(&mut s, ")");
            s
        },
    };
    Some(string_of(&out))
}

/// The number of non-empty `::` segments of a path.
pub open spec fn segment_count(pieces: Seq<Seq<char>>) -> nat
    decreases pieces.len(),
{
    if pieces.len() == 0 {
        0
    } else {
        segment_count(pieces.drop_last()) + if pieces.last().len() > 0 {
            1nat
        } else {
            0nat
        }
    }
}

/// The rank of a path among aliases of one item: fewer segments first,
/// then shorter text, then the text itself.
pub fn path_rank(path: &str) -> (r: (usize, usize, &str))
    ensures
        r.0 == segment_count(split(path@, "::"@)),
        r.1 == path@.len(),
        r.2@ == path@,
{
    let s = chars_of(path);
    let sep = lit("::");
    proof {
        reveal_strlit("::");
        assert(sep@.len() == 2);
    }
    let pieces = split_chars(&s, &sep);
    let mut count: usize = 0;
    let mut i: usize = 0;
    while i < pieces.len()
        invariant
            i <= pieces.len(),
            count == segment_count(views(pieces@).take(i as int)),
            count <= i,
        decreases pieces.len() - i,
    {
        proof {
            assert(views(pieces@).take(i + 1).drop_last() =~= views(pieces@).take(i as int));
        }
        if pieces[i].len() > 0 {
            count += 1;
        }
        i += 1;
    }
    proof {
        assert(views(pieces@).take(pieces@.len() as int) =~= views(pieces@));
    }
    (count, s.len(), path)
}

/// The lines a source span covers.
pub struct SpanLines {
    pub begin_line: usize,
    pub end_line: usize,
}

/// The start and end lines of an optional span (see [`extract_span`]).
pub open spec fn span_lines(span: Option<SpanLines>) -> (i32, i32) {
    match span {
        Some(sp) => {
            let start = (if sp.begin_line >= 1 {
                sp.begin_line
            } else {
                1
            }) as i32;
            (start, if (sp.end_line as i32) >= start {
                sp.end_line as i32
            } else {
                start
            })
        },
        None => (1i32, 1i32),
    }
}

/// The start and end lines stored for an item: the start is at least 1 and
/// the end at least the start; without a span both are 1. Line numbers are
/// converted to `i32` as `as` does.
pub fn extract_span(span: &Option<SpanLines>) -> (r: (i32, i32))
    ensures
        r == span_lines(*span),
{
    match span {
        Some(sp) => {
            let begin = if sp.begin_line >= 1 {
                sp.begin_line
            } else {
                1
            };
            let start = begin as i32;
            let end_raw = sp.end_line as i32;
            let end = if end_raw >= start {
                end_raw
            } else {
                start
            };
            (start, end)
        },
        None => (1, 1),
    }
}

/// The kind of a rustdoc item.
#[derive(PartialEq, Eq, Structural, Clone, Copy, Debug)]
pub enum ItemKindTag {
    Module,
    ExternCrate,
    Use,
    Struct,
    StructField,
    Enum,
    Variant,
    Union,
    Function,
    Trait,
    TraitAlias,
    Impl,
    TypeAlias,
    Constant,
    Static,
    ExternType,
    Macro,
    ProcMacro,
    Primitive,
    AssocConst,
    AssocType,
}

/// The label stored for an item kind.
pub open spec fn item_kind_label(k: ItemKindTag) -> Seq<char> {
    match k {
        ItemKindTag::Module => "module"@,
        ItemKindTag::ExternCrate => "extern_crate"@,
        ItemKindTag::Use => "use"@,
        ItemKindTag::Struct => "struct"@,
        ItemKindTag::StructField => "struct_field"@,
        ItemKindTag::Enum => "enum"@,
        ItemKindTag::Variant => "variant"@,
        ItemKindTag::Union => "union"@,
        ItemKindTag::Function => "function"@,
        ItemKindTag::Trait => "trait"@,
        ItemKindTag::TraitAlias => "trait_alias"@,
        ItemKindTag::Impl => "impl"@,
        ItemKindTag::TypeAlias => "type_alias"@,
        ItemKindTag::Constant => "constant"@,
        ItemKindTag::Static => "static"@,
        ItemKindTag::ExternType => "extern_type"@,
        ItemKindTag::Macro => "macro"@,
        ItemKindTag::ProcMacro => "proc_macro"@,
        ItemKindTag::Primitive => "primitive"@,
        ItemKindTag::AssocConst => "assoc_const"@,
        ItemKindTag::AssocType => "assoc_type"@,
    }
}

/// The label of an item kind.
pub fn item_enum_to_kind(kind: ItemKindTag) -> (r: &'static str)
    ensures
        r@ == item_kind_label(kind),
{
    match kind {
        ItemKindTag::Module => "module",
        ItemKindTag::ExternCrate => "extern_crate",
        ItemKindTag::Use => "use",
        ItemKindTag::Struct => "struct",
        ItemKindTag::StructField => "struct_field",
        ItemKindTag::Enum => "enum",
        ItemKindTag::Variant => "variant",
        ItemKindTag::Union => "union",
        ItemKindTag::Function => "function",
        ItemKindTag::Trait => "trait",
        ItemKindTag::TraitAlias => "trait_alias",
        ItemKindTag::Impl => "impl",
        ItemKindTag::TypeAlias => "type_alias",
        ItemKindTag::Constant => "constant",
        ItemKindTag::Static => "static",
        ItemKindTag::ExternType => "extern_type",
        ItemKindTag::Macro => "macro",
        ItemKindTag::ProcMacro => "proc_macro",
        ItemKindTag::Primitive => "primitive",
        ItemKindTag::AssocConst => "assoc_const",
        ItemKindTag::AssocType => "assoc_type",
    }
}

/// The shape of an enum variant.
#[derive(PartialEq, Eq, Structural, Clone, Copy, Debug)]
pub enum VariantShape {
    Plain,
    Tuple,
    Struct,
}

/// The label of a variant shape.
pub fn variant_kind_str(kind: VariantShape) -> (r: &'static str)
    ensures
        r@ == match kind {
            VariantShape::Plain => "plain"@,
            VariantShape::Tuple => "tuple"@,
            VariantShape::Struct => "struct"@,
        },
{
    match kind {
        VariantShape::Plain => "plain",
        VariantShape::Tuple => "tuple",
        VariantShape::Struct => "struct",
    }
}

/// The kind of an impl block: `inherent` without a trait, then
/// `synthetic`, `blanket`, `derive` (automatically derived) or `trait`.
pub open spec fn impl_kind_label(has_trait: bool, is_synthetic: bool, is_blanket: bool, is_derived: bool) -> Seq<char> {
    if !has_trait {
        "inherent"@
    } else if is_synthetic {
        "synthetic"@
    } else if is_blanket {
        "blanket"@
    } else if is_derived {
        "derive"@
    } else {
        "trait"@
    }
}

/// Classifies an impl block from what rustdoc records of it.
pub fn classify_impl_kind(has_trait: bool, is_synthetic: bool, is_blanket: bool, is_derived: bool) -> (r: String)
    ensures
        r@ == impl_kind_label(has_trait, is_synthetic, is_blanket, is_derived),
{
    let label = if !has_trait {
        "inherent"
    } else if is_synthetic {
        "synthetic"
    } else if is_blanket {
        "blanket"
    } else if is_derived {
        "derive"
    } else {
        "trait"
    };
    string_of(&lit(label))
}

/// What an impl block of a type records for its auto traits.
pub struct ImplSummary {
    pub is_synthetic: bool,
    pub trait_path: Option<String>,
}

/// The auto-trait names of synthetic impls, in impl order (before sorting).
pub open spec fn auto_trait_names(impls: Seq<ImplSummary>) -> Seq<Seq<char>>
    decreases impls.len(),
{
    if impls.len() == 0 {
        seq![]
    } else {
        let prev = auto_trait_names(impls.drop_last());
        let last = impls.last();
        if last.is_synthetic && last.trait_path is Some {
            prev.push(after_last(last.trait_path->0@, "::"@))
        } else {
            prev
        }
    }
}

/// The distinct names of the traits of synthetic impls, sorted.
pub fn collect_auto_traits(impls: &Vec<ImplSummary>) -> (out: Vec<String>)
    ensures
        strictly_sorted(str_views(out@)),
        str_views(out@).to_set() == auto_trait_names(impls@).to_set(),
{
    let mut names: Vec<Vec<char>> = Vec::new();
    let sep = lit("::");
    let mut i: usize = 0;
    while i < impls.len()
        invariant
            i <= impls.len(),
            sep@ == "::"@,
            views(names@) == auto_trait_names(impls@.take(i as int)),
        decreases impls.len() - i,
    {
        proof {
            assert(impls@.take(i + 1).drop_last() =~= impls@.take(i as int));
        }
        if impls[i].is_synthetic {
            match &impls[i].trait_path {
                Some(path) => {
                    let name = after_last_chars(&chars_of_string(path), &sep);
                    let ghost before = names@;
                    names.push(name);
                    proof {
                        assert(views(names@) =~= views(before).push(name@));
                    }
                },
                None => {},
            }
        }
        i += 1;
    }
    proof {
        assert(impls@.take(impls@.len() as int) =~= impls@);
    }
    chars_to_strings(&sort_dedup(&names))
}

/// The human-readable signature of an item, named `_` when it has no name.
pub open spec fn signature_of(name: Option<String>, item: DocItemInner) -> Option<Seq<char>> {
    let n = match name {
        Some(s) => s@,
        None => "_"@,
    };
    match item {
        DocItemInner::Function { generics, sig, .. } => Some(
            "fn "@ + n + params_display(generics.params@) + signature_text(sig),
        ),
        DocItemInner::Struct { generics, .. } => Some("struct "@ + n + params_display(generics.params@)),
        DocItemInner::Enum { generics, .. } => Some("enum "@ + n + params_display(generics.params@)),
        DocItemInner::Union { generics, .. } => Some("union "@ + n + params_display(generics.params@)),
        DocItemInner::Trait { generics, .. } => Some("trait "@ + n + params_display(generics.params@)),
        DocItemInner::TypeAlias { generics, type_ } => Some(
            "type "@ + n + params_display(generics.params@) + " = "@ + type_text(type_),
        ),
        DocItemInner::Constant { type_ } => Some("const "@ + n + ": "@ + type_text(type_)),
        DocItemInner::Static { is_mutable, type_ } => Some(
            "static "@ + (if is_mutable {
                "mut "@
            } else {
                seq![]
            }) + n + ": "@ + type_text(type_),
        ),
        _ => None,
    }
}

/// A raw pointer renders as `*mut ` (when mutable) or `*const ` followed
/// by its pointee; so a mutable and an immutable pointer to the same type
/// render differently.
pub proof fn law_raw_pointer_text(is_mutable: bool, pointee: TypeExpr)
    ensures
        type_text(TypeExpr::RawPointer { is_mutable, type_: Box::new(pointee) }) == if is_mutable {
            seq!['*', 'm', 'u', 't', ' '] + type_text(pointee)
        } else {
            seq!['*', 'c', 'o', 'n', 's', 't', ' '] + type_text(pointee)
        },
        type_text(TypeExpr::RawPointer { is_mutable: true, type_: Box::new(pointee) }) != type_text(
            TypeExpr::RawPointer { is_mutable: false, type_: Box::new(pointee) },
        ),
{
    reveal_strlit("*");
    reveal_strlit("mut");
    reveal_strlit("const");
    reveal_strlit(" ");
    let m = type_text(TypeExpr::RawPointer { is_mutable: true, type_: Box::new(pointee) });
    let c = type_text(TypeExpr::RawPointer { is_mutable: false, type_: Box::new(pointee) });
    assert(m =~= seq!['*', 'm', 'u', 't', ' '] + type_text(pointee));
    assert(c =~= seq!['*', 'c', 'o', 'n', 's', 't', ' '] + type_text(pointee));
    assert(m[1] != c[1]);
}

/// A reference without a lifetime renders as `&mut ` (when mutable) or `&`
/// followed by its referent; a slice as its element in square brackets; an
/// array as its element, `; ` and its length in square brackets.
pub proof fn law_reference_and_slice_text(is_mutable: bool, inner: TypeExpr, len: String)
    ensures
        type_text(TypeExpr::BorrowedRef { lifetime: None, is_mutable, type_: Box::new(inner) }) == if is_mutable {
            seq!['&', 'm', 'u', 't', ' '] + type_text(inner)
        } else {
            seq!['&'] + type_text(inner)
        },
        type_text(TypeExpr::Slice(Box::new(inner))) == seq!['['] + type_text(inner) + seq![']'],
        type_text(TypeExpr::Array { type_: Box::new(inner), len }) == seq!['['] + type_text(inner) + seq![';', ' ']
            + len@ + seq![']'],
{
    reveal_strlit("&");
    reveal_strlit("mut ");
    reveal_strlit("[");
    reveal_strlit("]");
    reveal_strlit("; ");
    assert(type_text(TypeExpr::BorrowedRef { lifetime: None, is_mutable, type_: Box::new(inner) }) =~= if is_mutable {
        seq!['&', 'm', 'u', 't', ' '] + type_text(inner)
    } else {
        seq!['&'] + type_text(inner)
    });
}

/// The signature of each kind of item begins with that kind's keyword
/// (`fn`, `struct`, `enum`, `union`, `trait`, `type`, `const`, `static`)
/// and a space, followed by the item's name (`_` when it has none); items
/// of other kinds have no signature.
pub proof fn law_signature_keyword(name: Option<String>, item: DocItemInner)
    ensures
        ({
            let n = match name {
                Some(s) => s@,
                None => seq!['_'],
            };
            let kw: Option<Seq<char>> = match item {
                DocItemInner::Function { .. } => Some(seq!['f', 'n', ' ']),
                DocItemInner::Struct { .. } => Some(seq!['s', 't', 'r', 'u', 'c', 't', ' ']),
                DocItemInner::Enum { .. } => Some(seq!['e', 'n', 'u', 'm', ' ']),
                DocItemInner::Union { .. } => Some(seq!['u', 'n', 'i', 'o', 'n', ' ']),
                DocItemInner::Trait { .. } => Some(seq!['t', 'r', 'a', 'i', 't', ' ']),
                DocItemInner::TypeAlias { .. } => Some(seq!['t', 'y', 'p', 'e', ' ']),
                DocItemInner::Constant { .. } => Some(seq!['c', 'o', 'n', 's', 't', ' ']),
                DocItemInner::Static { is_mutable, .. } => Some(
                    if is_mutable {
                        seq!['s', 't', 'a', 't', 'i', 'c', ' ', 'm', 'u', 't', ' ']
                    } else {
                        seq!['s', 't', 'a', 't', 'i', 'c', ' ']
                    },
                ),
                _ => None,
            };
            match kw {
                Some(k) => signature_of(name, item) matches Some(s) && s.len() >= k.len() + n.len()
                    && s.take(k.len() as int) == k && s.subrange(k.len() as int, (k.len() + n.len()) as int) == n,
                None => signature_of(name, item) is None,
            }
        }),
{
    reveal_strlit("_");
    reveal_strlit("fn ");
    reveal_strlit("struct ");
    reveal_strlit("enum ");
    reveal_strlit("union ");
    reveal_strlit("trait ");
    reveal_strlit("type ");
    reveal_strlit("const ");
    reveal_strlit("static ");
    reveal_strlit("mut ");
    let n = match name {
        Some(s) => s@,
        None => "_"@,
    };
    assert(n == match name {
        Some(s) => s@,
        None => seq!['_'],
    });
    match signature_of(name, item) {
        Some(s) => {
            let k: Seq<char> = match item {
                DocItemInner::Function { .. } => "fn "@,
                DocItemInner::Struct { .. } => "struct "@,
                DocItemInner::Enum { .. } => "enum "@,
                DocItemInner::Union { .. } => "union "@,
                DocItemInner::Trait { .. } => "trait "@,
                DocItemInner::TypeAlias { .. } => "type "@,
                DocItemInner::Constant { .. } => "const "@,
                DocItemInner::Static { is_mutable, .. } => "static "@ + (if is_mutable {
                    "mut "@
                } else {
                    seq![]
                }),
                _ => seq![],
            };
            let rest = s.skip(k.len() as int);
            assert(s == k + rest) by {
                assert(s =~= k + s.skip(k.len() as int));
            }
            assert(s.take(k.len() as int) =~= k);
            assert(s.subrange(k.len() as int, (k.len() + n.len()) as int) =~= n);
        },
        None => {},
    }
}

/// Builds the human-readable signature of an item.
pub fn build_signature(name: &Option<String>, item: &DocItemInner) -> (r: Option<String>)
    ensures
        match r {
            Some(s) => signature_of(*name, *item) == Some(s@),
            None => signature_of(*name, *item) is None,
        },
{
    let n = match name {
        Some(s) => chars_of_string(s),
        None => lit("_"),
    };
    let mut out: Vec<char>;
    match item {
        DocItemInner::Function { generics, sig, .. } => {
            out = lit("fn ");
            append_chars(&mut out, &n);
            push_string(&mut out, &render_generic_params_display(&generics.params));
            append_chars(&mut out, &signature_chars(sig));
        },
        DocItemInner::Struct { generics, .. } => {
            out = lit("struct ");
            append_chars(&mut out, &n);
            push_string(&mut out, &render_generic_params_display(&generics.params));
        },
        DocItemInner::Enum { generics, .. } => {
            out = lit("enum ");
            append_chars(&mut out, &n);
            push_string(&mut out, &render_generic_params_display(&generics.params));
        },
        DocItemInner::Union { generics, .. } => {
            out = lit("union ");
            append_chars(&mut out, &n);
            push_string(&mut out, &render_generic_params_display(&generics.params));
        },
        DocItemInner::Trait { generics, .. } => {
            out = lit("trait ");
            append_chars(&mut out, &n);
            push_string(&mut out, &render_generic_params_display(&generics.params));
        },
        DocItemInner::TypeAlias { generics, type_ } => {
            out = lit("type ");
            append_chars(&mut out, &n);
            push_string(&mut out, &render_generic_params_display(&generics.params));
            push_lit(&mut out, " = ");
            append_chars(&mut out, &type_chars(type_));
        },
        DocItemInner::Constant { type_ } => {
            out = lit("const ");
            append_chars(&mut out, &n);
            push_lit(&mut out, ": ");
            append_chars(&mut out, &type_chars(type_));
        },
        DocItemInner::Static { is_mutable, type_ } => {
            out = lit("static ");
            if *is_mutable {
                push_lit(&mut out, "mut ");
            }
            append_chars(&mut out, &n);
            push_lit(&mut out, ": ");
            append_chars(&mut out, &type_chars(type_));
        },
        _ => {
            return None;
        },
    }
    proof {
        assert(Some(out@) =~= signature_of(*name, *item));
    }
    Some(string_of(&out))
}

} // verus!
