//! Heuristics for error types: their names, generic arguments, and the
//! message patterns of their `Display` implementations.
use vstd::prelude::*;
use crate::text::{
    append_chars, chars_eq, chars_of, chars_of_string, contains, contains_chars, ends_with,
    ends_with_chars, lines, lines_of, lit, lower, lower_chars, string_of, str_views, sub_chars,
    trim, trim_chars, views, chars_to_strings,
};
use crate::sorted::{insert_sorted, strictly_sorted};

verus! {

/// Whether a type name looks like an error type: it ends with `error` or
/// `err`, ignoring ASCII case.
pub fn matches_error_heuristic(name: &str) -> (b: bool)
    ensures
        b == (ends_with(lower(name@), "error"@) || ends_with(lower(name@), "err"@)),
{
    let l = lower_chars(&chars_of(name));
    ends_with_chars(&l, &lit("error")) || ends_with_chars(&l, &lit("err"))
}

/// The index of the first `c` in `s`, if any.
pub open spec fn first_index(s: Seq<char>, c: char) -> Option<int> {
    if exists|i: int| 0 <= i < s.len() && s[i] == c {
        Some(choose|i: int| 0 <= i < s.len() && s[i] == c && forall|j: int| 0 <= j < i ==> s[j] != c)
    } else {
        None
    }
}

/// The index of the last `c` in `s`, if any.
pub open spec fn last_index(s: Seq<char>, c: char) -> Option<int> {
    if exists|i: int| 0 <= i < s.len() && s[i] == c {
        Some(
            choose|i: int|
                0 <= i < s.len() && s[i] == c && forall|j: int| i < j < s.len() ==> s[j] != c,
        )
    } else {
        None
    }
}

/// Finds the first `c` in `v`.
pub fn find_char(v: &Vec<char>, c: char) -> (r: Option<usize>)
    ensures
        match r {
            Some(i) => first_index(v@, c) == Some(i as int) && i < v@.len() && v@[i as int] == c,
            None => first_index(v@, c) is None,
        },
{
    let mut i: usize = 0;
    while i < v.len()
        invariant
            i <= v.len(),
            forall|j: int| 0 <= j < i ==> v@[j] != c,
        decreases v.len() - i,
    {
        if v[i] == c {
            proof {
                let w = choose|w: int|
                    0 <= w < v@.len() && v@[w] == c && forall|j: int| 0 <= j < w ==> v@[j] != c;
                assert(w == i) by {
                    if w < i {
                    } else if w > i {
                    }
                }
            }
            return Some(i);
        }
        i += 1;
    }
    None
}

/// Finds the last `c` in `v`.
pub fn rfind_char(v: &Vec<char>, c: char) -> (r: Option<usize>)
    ensures
        match r {
            Some(i) => last_index(v@, c) == Some(i as int) && i < v@.len() && v@[i as int] == c,
            None => last_index(v@, c) is None,
        },
{
    let mut i: usize = v.len();
    while i > 0
        invariant
            i <= v.len(),
            forall|j: int| i <= j < v.len() ==> v@[j] != c,
        decreases i,
    {
        if v[i - 1] == c {
            proof {
                let k = (i - 1) as int;
                let w = choose|w: int|
                    0 <= w < v@.len() && v@[w] == c && forall|j: int| w < j < v@.len() ==> v@[j]
                        != c;
                assert(w == k) by {
                    if w < k {
                    } else if w > k {
                    }
                }
            }
            return Some(i - 1);
        }
        i -= 1;
    }
    None
}

/// The generic argument of a type display such as `Result<T, MyError>`: the
/// trimmed text between the first `<` and the last `>`, if not empty.
pub open spec fn generic_argument(d: Seq<char>) -> Option<Seq<char>> {
    match (first_index(d, '<'), last_index(d, '>')) {
        (Some(s), Some(e)) => if e <= s + 1 || trim(d.subrange(s + 1, e)).len() == 0 {
            None
        } else {
            Some(trim(d.subrange(s + 1, e)))
        },
        _ => None,
    }
}

/// Extracts the generic argument of a type display.
pub fn extract_generic_argument(display: &str) -> (r: Option<String>)
    ensures
        crate::jobs::opt_view(r) == generic_argument(display@),
{
    let d = chars_of(display);
    let start = match find_char(&d, '<') {
        Some(s) => s,
        None => return None,
    };
    let end = match rfind_char(&d, '>') {
        Some(e) => e,
        None => return None,
    };
    assert(start < d.len());
    if end <= start + 1 {
        return None;
    }
    let inner = trim_chars(&sub_chars(&d, start + 1, end));
    if inner.len() == 0 {
        None
    } else {
        Some(string_of(&inner))
    }
}

/// The text between the first two `"` of a line, trimmed, if not empty.
pub open spec fn quoted_text(c: Seq<char>) -> Option<Seq<char>> {
    match first_index(c, '"') {
        None => None,
        Some(s) => match first_index(c.skip(s + 1), '"') {
            None => None,
            Some(off) => if trim(c.subrange(s + 1, s + 1 + off)).len() == 0 {
                None
            } else {
                Some(trim(c.subrange(s + 1, s + 1 + off)))
            },
        },
    }
}

/// A line that starts a `Display` implementation for the type.
#[verifier::opaque]
pub open spec fn is_display_header(line: Seq<char>, target_type: Seq<char>) -> bool {
    let n = trim(line);
    contains(n, "impl"@) && contains(n, "Display"@) && contains(n, target_type)
}

/// A message pattern found on line `j`: a `write!(` call with a quoted format string.
#[verifier::opaque]
pub open spec fn pattern_at(ls: Seq<Seq<char>>, j: int) -> Option<Seq<char>> {
    let c = trim(ls[j]);
    if contains(c, "write!("@) {
        quoted_text(c)
    } else {
        None
    }
}

/// The message patterns of the `Display` implementations of a type: the
/// quoted strings of the `write!(` calls within 24 lines of each header.
pub open spec fn display_pattern_set(ls: Seq<Seq<char>>, target_type: Seq<char>) -> Set<Seq<char>> {
    Set::new(
        |p: Seq<char>|
            exists|i: int, j: int|
                0 <= i <= j < ls.len() && j < i + 24 && is_display_header(ls[i], target_type)
                    && pattern_at(ls, j) == Some(p),
    )
}

fn quoted_text_exec(c: &Vec<char>) -> (r: Option<Vec<char>>)
    ensures
        match r {
            Some(t) => quoted_text(c@) == Some(t@),
            None => quoted_text(c@) is None,
        },
{
    let start = match find_char(c, '"') {
        Some(s) => s,
        None => return None,
    };
    assert(start < c.len());
    let rest = sub_chars(c, start + 1, c.len());
    proof {
        assert(rest@ =~= c@.skip(start + 1));
    }
    let off = match find_char(&rest, '"') {
        Some(o) => o,
        None => return None,
    };
    let inner = trim_chars(&sub_chars(c, start + 1, start + 1 + off));
    if inner.len() == 0 {
        None
    } else {
        Some(inner)
    }
}

/// The patterns found on lines `lo..hi`.
pub open spec fn window_set(ls: Seq<Seq<char>>, lo: int, hi: int) -> Set<Seq<char>> {
    Set::new(|p: Seq<char>| exists|k: int| lo <= k < hi && pattern_at(ls, k) == Some(p))
}

/// The end of the window that follows a header on line `i`.
pub open spec fn window_end(len: int, i: int) -> int {
    if len - i < 24 {
        len
    } else {
        i + 24
    }
}

/// The patterns of the headers among the first `n` lines.
pub open spec fn patterns_upto(ls: Seq<Seq<char>>, target_type: Seq<char>, n: int) -> Set<Seq<char>> {
    Set::new(
        |p: Seq<char>|
            exists|i: int, j: int|
                0 <= i < n && i <= j < ls.len() && j < i + 24 && is_display_header(
                    ls[i],
                    target_type,
                ) && pattern_at(ls, j) == Some(p),
    )
}

proof fn lemma_window_step(ls: Seq<Seq<char>>, lo: int, hi: int)
    requires
        0 <= lo <= hi < ls.len(),
    ensures
        window_set(ls, lo, hi + 1) == match pattern_at(ls, hi) {
            Some(p) => window_set(ls, lo, hi).insert(p),
            None => window_set(ls, lo, hi),
        },
{
    let next = window_set(ls, lo, hi + 1);
    let prev = window_set(ls, lo, hi);
    let expected = match pattern_at(ls, hi) {
        Some(p) => prev.insert(p),
        None => prev,
    };
    assert forall|q: Seq<char>| next.contains(q) implies expected.contains(q) by {
        let k = choose|k: int| lo <= k < hi + 1 && pattern_at(ls, k) == Some(q);
        if k < hi {
            assert(prev.contains(q));
        }
    }
    assert forall|q: Seq<char>| expected.contains(q) implies next.contains(q) by {
        if prev.contains(q) {
            let k = choose|k: int| lo <= k < hi && pattern_at(ls, k) == Some(q);
            assert(lo <= k < hi + 1 && pattern_at(ls, k) == Some(q));
        } else {
            assert(lo <= hi < hi + 1 && pattern_at(ls, hi) == Some(q));
        }
    }
    assert(next =~= expected);
}

proof fn lemma_patterns_step(ls: Seq<Seq<char>>, target_type: Seq<char>, n: int)
    requires
        0 <= n < ls.len(),
    ensures
        patterns_upto(ls, target_type, n + 1) == if is_display_header(ls[n], target_type) {
            patterns_upto(ls, target_type, n).union(
                window_set(ls, n, window_end(ls.len() as int, n)),
            )
        } else {
            patterns_upto(ls, target_type, n)
        },
{
    let a = patterns_upto(ls, target_type, n + 1);
    let b = patterns_upto(ls, target_type, n);
    let w = window_set(ls, n, window_end(ls.len() as int, n));
    let expected = if is_display_header(ls[n], target_type) {
        b.union(w)
    } else {
        b
    };
    assert forall|q: Seq<char>| a.contains(q) implies expected.contains(q) by {
        let (i, j) = choose|i: int, j: int|
            0 <= i < n + 1 && i <= j < ls.len() && j < i + 24 && is_display_header(
                ls[i],
                target_type,
            ) && pattern_at(ls, j) == Some(q);
        if i < n {
            assert(0 <= i < n && i <= j < ls.len() && j < i + 24 && is_display_header(
                ls[i],
                target_type,
            ) && pattern_at(ls, j) == Some(q));
        } else {
            assert(n <= j < window_end(ls.len() as int, n) && pattern_at(ls, j) == Some(q));
        }
    }
    assert forall|q: Seq<char>| expected.contains(q) implies a.contains(q) by {
        if b.contains(q) {
            let (i, j) = choose|i: int, j: int|
                0 <= i < n && i <= j < ls.len() && j < i + 24 && is_display_header(
                    ls[i],
                    target_type,
                ) && pattern_at(ls, j) == Some(q);
            assert(0 <= i < n + 1 && i <= j < ls.len() && j < i + 24 && is_display_header(
                ls[i],
                target_type,
            ) && pattern_at(ls, j) == Some(q));
        } else {
            let k = choose|k: int|
                n <= k < window_end(ls.len() as int, n) && pattern_at(ls, k) == Some(q);
            assert(0 <= n < n + 1 && n <= k < ls.len() && k < n + 24 && is_display_header(
                ls[n],
                target_type,
            ) && pattern_at(ls, k) == Some(q));
        }
    }
    assert(a =~= expected);
}

fn collect_window(
    ls: &Vec<Vec<char>>,
    index: usize,
    end: usize,
    set: &mut Vec<Vec<char>>,
)
    requires
        index <= end <= ls.len(),
        strictly_sorted(views(old(set)@)),
    ensures
        strictly_sorted(views(final(set)@)),
        views(final(set)@).to_set() == views(old(set)@).to_set().union(
            window_set(views(ls@), index as int, end as int),
        ),
{
    let ghost lv = views(ls@);
    let ghost before = views(set@).to_set();
    let write_word = lit("write!(");
    let mut j: usize = index;
    proof {
        assert(window_set(lv, index as int, index as int) =~= Set::<Seq<char>>::empty());
        assert(before.union(Set::<Seq<char>>::empty()) =~= before);
    }
    while j < end
        invariant
            index <= j <= end <= ls.len(),
            lv == views(ls@),
            write_word@ == "write!("@,
            strictly_sorted(views(set@)),
            views(set@).to_set() == before.union(window_set(lv, index as int, j as int)),
        decreases end - j,
    {
        let candidate = trim_chars(&ls[j]);
        proof {
            assert(lv[j as int] == ls@[j as int]@);
            lemma_window_step(lv, index as int, j as int);
            reveal(pattern_at);
        }
        if contains_chars(&candidate, &write_word) {
            match quoted_text_exec(&candidate) {
                Some(t) => {
                    let ghost tv = t@;
                    insert_sorted(set, t);
                    proof {
                        assert(pattern_at(lv, j as int) == Some(tv));
                        assert(views(set@).to_set() =~= before.union(
                            window_set(lv, index as int, j + 1),
                        ));
                    }
                },
                None => {
                    proof {
                        assert(pattern_at(lv, j as int) is None);
                    }
                },
            }
        } else {
            proof {
                assert(pattern_at(lv, j as int) is None);
            }
        }
        j += 1;
    }
}

/// Collects the distinct message patterns of a type's `Display`
/// implementations, in ascending order.
pub fn extract_display_patterns(content: &str, target_type: &str) -> (out: Vec<String>)
    ensures
        strictly_sorted(crate::text::str_views(out@)),
        crate::text::str_views(out@).to_set() == patterns_upto(
            lines(content@),
            target_type@,
            lines(content@).len() as int,
        ),
{
    let ls = lines_of(&chars_of(content));
    let ghost lv = views(ls@);
    let name = chars_of(target_type);
    let impl_word = lit("impl");
    let display_word = lit("Display");
    let mut set: Vec<Vec<char>> = Vec::new();
    proof {
        assert(patterns_upto(lv, target_type@, 0) =~= Set::<Seq<char>>::empty());
        assert(views(set@).to_set() =~= Set::<Seq<char>>::empty());
    }
    let mut index: usize = 0;
    while index < ls.len()
        invariant
            index <= ls.len(),
            lv == views(ls@),
            lv == lines(content@),
            name@ == target_type@,
            impl_word@ == "impl"@,
            display_word@ == "Display"@,
            strictly_sorted(views(set@)),
            views(set@).to_set() == patterns_upto(lv, target_type@, index as int),
        decreases ls.len() - index,
    {
        let normalized = trim_chars(&ls[index]);
        proof {
            assert(lv[index as int] == ls@[index as int]@);
            lemma_patterns_step(lv, target_type@, index as int);
            reveal(is_display_header);
        }
        let header = contains_chars(&normalized, &impl_word) && contains_chars(
            &normalized,
            &display_word,
        ) && contains_chars(&normalized, &name);
        if header {
            let end = if ls.len() - index < 24 {
                ls.len()
            } else {
                index + 24
            };
            collect_window(&ls, index, end, &mut set);
        }
        index += 1;
    }
    chars_to_strings(&set)
}

/// What the index holds of one impl block of a crate version.
#[derive(Clone, Debug)]
pub struct ErrorImplRow {
    pub target_type: String,
    pub trait_name: Option<String>,
    pub trait_name_display: Option<String>,
    pub source_path: String,
}

/// The text of an optional string, empty when absent.
pub open spec fn or_empty(o: Option<String>) -> Seq<char> {
    match o {
        Some(s) => s@,
        None => seq![],
    }
}

/// A type name that looks like an error type.
pub open spec fn looks_like_error(n: Seq<char>) -> bool {
    ends_with(lower(n), "error"@) || ends_with(lower(n), "err"@)
}

/// An impl of `Error` (by name, or `std::error::Error` in its display).
pub open spec fn is_error_impl(r: ErrorImplRow) -> bool {
    lower(or_empty(r.trait_name)) == "error"@ || contains(
        lower(or_empty(r.trait_name_display)),
        "std::error::error"@,
    )
}

/// Two names equal up to ASCII case (`eq_ignore_ascii_case`).
pub open spec fn same_name(a: Seq<char>, b: Seq<char>) -> bool {
    lower(a) == lower(b)
}

/// A candidate passes the optional type-name filter.
pub open spec fn passes_filter(n: Seq<char>, filter: Option<Seq<char>>) -> bool {
    match filter {
        Some(f) => same_name(n, f),
        None => true,
    }
}

/// One of the first `upto` type names is `n` and looks like an error.
pub open spec fn named_error_type(type_names: Seq<String>, n: Seq<char>, upto: int) -> bool {
    exists|k: int| 0 <= k < upto && type_names[k]@ == n && looks_like_error(n)
}

/// One of the first `upto` impls is an `Error` impl for `n`.
pub open spec fn error_impl_for(impls: Seq<ErrorImplRow>, n: Seq<char>, upto: int) -> bool {
    exists|k: int| 0 <= k < upto && impls[k].target_type@ == n && is_error_impl(impls[k])
}

/// The error type candidates of a crate version: the type names that look
/// like errors and the types with an `Error` impl, kept by the filter.
pub open spec fn candidate_set(
    type_names: Seq<String>,
    impls: Seq<ErrorImplRow>,
    filter: Option<Seq<char>>,
) -> Set<Seq<char>> {
    Set::new(
        |n: Seq<char>|
            (named_error_type(type_names, n, type_names.len() as int) || error_impl_for(
                impls,
                n,
                impls.len() as int,
            )) && passes_filter(n, filter),
    )
}

fn same_name_exec(a: &Vec<char>, b: &Vec<char>) -> (r: bool)
    ensures
        r == same_name(a@, b@),
{
    chars_eq(&lower_chars(a), &lower_chars(b))
}

fn or_empty_chars(o: &Option<String>) -> (r: Vec<char>)
    ensures
        r@ == or_empty(*o),
{
    match o {
        Some(s) => chars_of_string(s),
        None => Vec::new(),
    }
}

fn is_error_impl_exec(r: &ErrorImplRow) -> (b: bool)
    ensures
        b == is_error_impl(*r),
{
    chars_eq(&lower_chars(&or_empty_chars(&r.trait_name)), &lit("error")) || contains_chars(
        &lower_chars(&or_empty_chars(&r.trait_name_display)),
        &lit("std::error::error"),
    )
}

fn passes_filter_exec(n: &Vec<char>, filter: &Option<Vec<char>>) -> (b: bool)
    ensures
        b == passes_filter(
            n@,
            match filter {
                Some(f) => Some(f@),
                None => None,
            },
        ),
{
    match filter {
        Some(f) => same_name_exec(n, f),
        None => true,
    }
}

/// The error type candidates of a crate version, distinct and in ascending
/// order.
pub fn error_type_candidates(
    type_names: &Vec<String>,
    impls: &Vec<ErrorImplRow>,
    filter: Option<&str>,
) -> (out: Vec<String>)
    ensures
        strictly_sorted(str_views(out@)),
        str_views(out@).to_set() == candidate_set(
            type_names@,
            impls@,
            crate::rustdoc_files::str_opt_view(filter),
        ),
{
    let ghost fv = crate::rustdoc_files::str_opt_view(filter);
    let f: Option<Vec<char>> = match filter {
        Some(x) => Some(chars_of(x)),
        None => None,
    };
    let mut set: Vec<Vec<char>> = Vec::new();
    proof {
        assert(views(set@).to_set() =~= Set::<Seq<char>>::empty());
        assert(Set::new(|n: Seq<char>| named_error_type(type_names@, n, 0) && passes_filter(n, fv))
            =~= Set::<Seq<char>>::empty());
    }
    let mut i: usize = 0;
    while i < type_names.len()
        invariant
            i <= type_names.len(),
            fv == match f {
                Some(x) => Some(x@),
                None => None::<Seq<char>>,
            },
            strictly_sorted(views(set@)),
            views(set@).to_set() == Set::new(
                |n: Seq<char>| named_error_type(type_names@, n, i as int) && passes_filter(n, fv),
            ),
        decreases type_names.len() - i,
    {
        let name = chars_of_string(&type_names[i]);
        let keep = matches_error_heuristic(type_names[i].as_str()) && passes_filter_exec(&name, &f);
        let ghost before = views(set@).to_set();
        if keep {
            insert_sorted(&mut set, name);
        }
        proof {
            let next = Set::new(
                |n: Seq<char>| named_error_type(type_names@, n, i + 1) && passes_filter(n, fv),
            );
            assert forall|n: Seq<char>| next.contains(n) implies views(set@).to_set().contains(n) by {
                let k = choose|k: int|
                    0 <= k < i + 1 && type_names@[k]@ == n && looks_like_error(n);
                if k < i {
                    assert(named_error_type(type_names@, n, i as int));
                }
            }
            assert forall|n: Seq<char>| views(set@).to_set().contains(n) implies next.contains(n) by {
                if before.contains(n) {
                    let k = choose|k: int|
                        0 <= k < i && type_names@[k]@ == n && looks_like_error(n);
                    assert(0 <= k < i + 1 && type_names@[k]@ == n && looks_like_error(n));
                } else {
                    assert(type_names@[i as int]@ == n);
                }
            }
            assert(views(set@).to_set() =~= next);
        }
        i += 1;
    }
    let mut j: usize = 0;
    while j < impls.len()
        invariant
            j <= impls.len(),
            fv == match f {
                Some(x) => Some(x@),
                None => None::<Seq<char>>,
            },
            strictly_sorted(views(set@)),
            views(set@).to_set() == Set::new(
                |n: Seq<char>|
                    (named_error_type(type_names@, n, type_names@.len() as int) || error_impl_for(
                        impls@,
                        n,
                        j as int,
                    )) && passes_filter(n, fv),
            ),
        decreases impls.len() - j,
    {
        let name = chars_of_string(&impls[j].target_type);
        let keep = is_error_impl_exec(&impls[j]) && passes_filter_exec(&name, &f);
        let ghost before = views(set@).to_set();
        if keep {
            insert_sorted(&mut set, name);
        }
        proof {
            let tl = type_names@.len() as int;
            let next = Set::new(
                |n: Seq<char>|
                    (named_error_type(type_names@, n, tl) || error_impl_for(impls@, n, j + 1))
                        && passes_filter(n, fv),
            );
            assert forall|n: Seq<char>| next.contains(n) implies views(set@).to_set().contains(n) by {
                if !named_error_type(type_names@, n, tl) {
                    let k = choose|k: int|
                        0 <= k < j + 1 && impls@[k].target_type@ == n && is_error_impl(impls@[k]);
                    if k < j {
                        assert(error_impl_for(impls@, n, j as int));
                    }
                }
            }
            assert forall|n: Seq<char>| views(set@).to_set().contains(n) implies next.contains(n) by {
                if before.contains(n) {
                    if !named_error_type(type_names@, n, tl) {
                        let k = choose|k: int|
                            0 <= k < j && impls@[k].target_type@ == n && is_error_impl(impls@[k]);
                        assert(0 <= k < j + 1 && impls@[k].target_type@ == n && is_error_impl(
                            impls@[k],
                        ));
                    }
                } else {
                    assert(impls@[j as int].target_type@ == n);
                }
            }
            assert(views(set@).to_set() =~= next);
        }
        j += 1;
    }
    proof {
        assert(views(set@).to_set() =~= candidate_set(type_names@, impls@, fv));
    }
    chars_to_strings(&set)
}

/// A `From`/`TryFrom` impl by its trait name.
pub open spec fn is_from_trait(t: Option<String>) -> bool {
    match t {
        Some(n) => n@ == "From"@ || n@ == "TryFrom"@,
        None => false,
    }
}

/// The source types of the `From`/`TryFrom` impls of a candidate type.
pub open spec fn from_source(impls: Seq<ErrorImplRow>, candidate: Seq<char>, g: Seq<char>, upto: int) -> bool {
    exists|k: int|
        0 <= k < upto && same_name(impls[k].target_type@, candidate) && is_from_trait(
            impls[k].trait_name,
        ) && impls[k].trait_name_display is Some && generic_argument(
            impls[k].trait_name_display->0@,
        ) == Some(g)
}

/// The distinct source types that convert into the candidate error type,
/// in ascending order.
pub fn from_conversions(candidate: &str, impls: &Vec<ErrorImplRow>) -> (out: Vec<String>)
    ensures
        strictly_sorted(str_views(out@)),
        str_views(out@).to_set() == Set::new(
            |g: Seq<char>| from_source(impls@, candidate@, g, impls@.len() as int),
        ),
{
    let c = chars_of(candidate);
    let mut set: Vec<Vec<char>> = Vec::new();
    proof {
        assert(views(set@).to_set() =~= Set::new(|g: Seq<char>| from_source(impls@, candidate@, g, 0)));
    }
    let mut j: usize = 0;
    while j < impls.len()
        invariant
            j <= impls.len(),
            c@ == candidate@,
            strictly_sorted(views(set@)),
            views(set@).to_set() == Set::new(
                |g: Seq<char>| from_source(impls@, candidate@, g, j as int),
            ),
        decreases impls.len() - j,
    {
        let row = &impls[j];
        let ghost before = views(set@).to_set();
        let mut added: Option<Vec<char>> = None;
        if same_name_exec(&chars_of_string(&row.target_type), &c) {
            let from_trait = match &row.trait_name {
                Some(t) => {
                    let tc = chars_of_string(t);
                    chars_eq(&tc, &lit("From")) || chars_eq(&tc, &lit("TryFrom"))
                },
                None => false,
            };
            if from_trait {
                match &row.trait_name_display {
                    Some(d) => match extract_generic_argument(d.as_str()) {
                        Some(g) => {
                            let gc = chars_of_string(&g);
                            added = Some(chars_of_string(&g));
                            insert_sorted(&mut set, gc);
                        },
                        None => {},
                    },
                    None => {},
                }
            }
        }
        proof {
            let next = Set::new(|g: Seq<char>| from_source(impls@, candidate@, g, j + 1));
            assert forall|g: Seq<char>| next.contains(g) implies views(set@).to_set().contains(g) by {
                let k = choose|k: int|
                    0 <= k < j + 1 && same_name(impls@[k].target_type@, candidate@) && is_from_trait(
                        impls@[k].trait_name,
                    ) && impls@[k].trait_name_display is Some && generic_argument(
                        impls@[k].trait_name_display->0@,
                    ) == Some(g);
                if k < j {
                    assert(from_source(impls@, candidate@, g, j as int));
                }
            }
            assert forall|g: Seq<char>| views(set@).to_set().contains(g) implies next.contains(g) by {
                if before.contains(g) {
                    let k = choose|k: int|
                        0 <= k < j && same_name(impls@[k].target_type@, candidate@) && is_from_trait(
                            impls@[k].trait_name,
                        ) && impls@[k].trait_name_display is Some && generic_argument(
                            impls@[k].trait_name_display->0@,
                        ) == Some(g);
                    assert(0 <= k < j + 1);
                } else {
                    assert(added is Some);
                }
            }
            assert(views(set@).to_set() =~= next);
        }
        j += 1;
    }
    chars_to_strings(&set)
}

/// An impl of `Display` (by name, ignoring ASCII case) for the candidate.
pub open spec fn is_display_impl_for(r: ErrorImplRow, candidate: Seq<char>) -> bool {
    same_name(r.target_type@, candidate) && r.trait_name is Some && lower(r.trait_name->0@)
        == "display"@
}

/// The source files of the candidate's `Display` impls, in impl order.
pub open spec fn display_sources(impls: Seq<ErrorImplRow>, candidate: Seq<char>) -> Seq<Seq<char>>
    decreases impls.len(),
{
    if impls.len() == 0 {
        seq![]
    } else if is_display_impl_for(impls.last(), candidate) {
        display_sources(impls.drop_last(), candidate).push(impls.last().source_path@)
    } else {
        display_sources(impls.drop_last(), candidate)
    }
}

/// The source files to read for the candidate's `Display` message patterns.
pub fn display_impl_sources(candidate: &str, impls: &Vec<ErrorImplRow>) -> (out: Vec<String>)
    ensures
        str_views(out@) == display_sources(impls@, candidate@),
{
    let c = chars_of(candidate);
    let mut out: Vec<String> = Vec::new();
    let mut j: usize = 0;
    while j < impls.len()
        invariant
            j <= impls.len(),
            c@ == candidate@,
            str_views(out@) == display_sources(impls@.take(j as int), candidate@),
        decreases impls.len() - j,
    {
        let row = &impls[j];
        let is_display = same_name_exec(&chars_of_string(&row.target_type), &c) && match &row.trait_name {
            Some(t) => chars_eq(&lower_chars(&chars_of_string(t)), &lit("display")),
            None => false,
        };
        proof {
            assert(impls@.take(j + 1).drop_last() =~= impls@.take(j as int));
            assert(impls@.take(j + 1).last() == impls@[j as int]);
        }
        if is_display {
            let ghost before = out@;
            out.push(row.source_path.clone());
            proof {
                assert(str_views(out@) =~= str_views(before).push(row.source_path@));
            }
        }
        j += 1;
    }
    proof {
        assert(impls@.take(impls@.len() as int) =~= impls@);
    }
    out
}

/// The message patterns reported for a candidate: those found, or the note
/// that a `Display` impl exists when none were found but it has one.
pub fn finish_display_patterns(patterns: Vec<String>, has_display_impl: bool) -> (out: Vec<String>)
    ensures
        patterns@.len() > 0 ==> out@ == patterns@,
        patterns@.len() == 0 && has_display_impl ==> str_views(out@) == seq!["Display impl present"@],
        patterns@.len() == 0 && !has_display_impl ==> out@.len() == 0,
{
    if patterns.len() == 0 && has_display_impl {
        let mut out: Vec<String> = Vec::new();
        out.push(string_of(&lit("Display impl present")));
        proof {
            assert(str_views(out@) =~= seq!["Display impl present"@]);
        }
        out
    } else {
        patterns
    }
}

/// How a function that returns the error type is listed: its name, then
/// `: ` and its signature when it has a non-empty one.
pub open spec fn returned_by_text(name: Seq<char>, signature: Option<String>) -> Seq<char> {
    if or_empty(signature).len() == 0 {
        name
    } else {
        name + ": "@ + or_empty(signature)
    }
}

/// Lists one function that returns the error type.
pub fn returned_by_entry(name: &str, signature: &Option<String>) -> (r: String)
    ensures
        r@ == returned_by_text(name@, *signature),
{
    let sig = or_empty_chars(signature);
    let mut out = chars_of(name);
    if sig.len() > 0 {
        append_chars(&mut out, &lit(": "));
        append_chars(&mut out, &sig);
    }
    string_of(&out)
}

/// How much an answer can be trusted.
#[derive(PartialEq, Eq, Structural, Clone, Copy, Debug)]
pub enum ConfidenceLevel {
    Low,
    Medium,
    High,
}

/// The confidence of an error-type report from how many types it found
/// and whether any has a conversion or a returning function.
pub open spec fn error_types_confidence_spec(entries: Seq<(usize, usize)>) -> (ConfidenceLevel, Seq<char>) {
    if entries.len() == 0 {
        (ConfidenceLevel::Low, "no error-like types were identified in indexed type metadata"@)
    } else if forall|i: int| 0 <= i < entries.len() ==> entries[i].0 == 0 && entries[i].1 == 0 {
        (ConfidenceLevel::Medium, "error types were found but conversion/return chains are sparse"@)
    } else {
        (
            ConfidenceLevel::High,
            "error types, conversions, and return signatures resolved from local index"@,
        )
    }
}

/// Assesses an error-type report; each entry gives the numbers of
/// conversions and of returning functions found for one type.
pub fn error_types_confidence(entries: &Vec<(usize, usize)>) -> (r: (ConfidenceLevel, String))
    ensures
        (r.0, r.1@) == error_types_confidence_spec(entries@),
{
    if entries.len() == 0 {
        return (
            ConfidenceLevel::Low,
            string_of(&lit("no error-like types were identified in indexed type metadata")),
        );
    }
    let mut i: usize = 0;
    while i < entries.len()
        invariant
            i <= entries.len(),
            forall|k: int| 0 <= k < i ==> entries@[k].0 == 0 && entries@[k].1 == 0,
        decreases entries.len() - i,
    {
        if entries[i].0 != 0 || entries[i].1 != 0 {
            return (
                ConfidenceLevel::High,
                string_of(
                    &lit("error types, conversions, and return signatures resolved from local index"),
                ),
            );
        }
        i += 1;
    }
    (
        ConfidenceLevel::Medium,
        string_of(&lit("error types were found but conversion/return chains are sparse")),
    )
}

} // verus!
