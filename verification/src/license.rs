//! License metadata: SPDX identifier extraction, allow/deny policy lists and
//! taxonomy overlap used to rank alternative crates.
use vstd::prelude::*;
use crate::text::{
    chars_eq, chars_of, chars_to_strings, lower, lower_chars, str_views, strings_to_chars,
    sub_chars, trim, trim_chars, upper, upper_chars, views, join, join_chars, lit, append_chars,
    string_of,
};
use crate::sorted::{contains_seq, insert_sorted, lemma_sorted_set_len, sort_dedup, strictly_sorted};

verus! {

/// Verdict of a license policy check.
#[derive(Clone, Copy, Debug, PartialEq, Eq, Structural)]
pub enum LicensePolicyResult {
    /// Some license matched the allow list, or no policy lists were given.
    Allowed,
    /// A license matched the deny list, or none matched a non-empty allow list.
    Denied,
    /// No license identifiers were available.
    Unknown,
}

/// The policy entries of a list: each value trimmed and upper-cased, empty ones dropped.
pub open spec fn policy_entries(values: Seq<Seq<char>>) -> Seq<Seq<char>> {
    values.map_values(|v: Seq<char>| upper(trim(v))).filter(|e: Seq<char>| e.len() > 0)
}

/// Normalizes an allow/deny list: trims and upper-cases every entry, drops
/// empty ones, and returns the distinct entries in ascending order.
pub fn normalize_policy_list(values: Option<Vec<String>>) -> (out: Vec<String>)
    ensures
        strictly_sorted(str_views(out@)),
        str_views(out@).to_set() == match values {
            Some(v) => policy_entries(str_views(v@)).to_set(),
            None => Set::<Seq<char>>::empty(),
        },
{
    let values = match values {
        Some(v) => v,
        None => Vec::new(),
    };
    let raw = strings_to_chars(values.as_slice());
    let ghost mapped = views(raw@).map_values(|v: Seq<char>| upper(trim(v)));
    let ghost pred = |e: Seq<char>| e.len() > 0;
    let mut set: Vec<Vec<char>> = Vec::new();
    let mut i: usize = 0;
    while i < raw.len()
        invariant
            i <= raw.len(),
            mapped == views(raw@).map_values(|v: Seq<char>| upper(trim(v))),
            pred == (|e: Seq<char>| e.len() > 0),
            strictly_sorted(views(set@)),
            views(set@).to_set() == mapped.take(i as int).filter(pred).to_set(),
        decreases raw.len() - i,
    {
        let entry = upper_chars(&trim_chars(&raw[i]));
        proof {
            assert(mapped.take(i + 1) =~= mapped.take(i as int).push(entry@));
            mapped.take(i as int).lemma_filter_push(entry@, pred);
        }
        if entry.len() > 0 {
            proof {
                mapped.take(i as int).filter(pred).lemma_push_to_set_commute(entry@);
            }
            insert_sorted(&mut set, entry);
        }
        i += 1;
    }
    proof {
        assert(mapped.take(raw.len() as int) =~= mapped);
        assert(views(raw@) == str_views(values@));
    }
    let out = chars_to_strings(&set);
    proof {
        if values@.len() == 0 {
            assert(mapped.filter(pred) =~= Seq::<Seq<char>>::empty()) by {
                reveal(Seq::filter);
            }
        }
    }
    out
}

/// Characters that make up an SPDX license identifier token.
pub open spec fn is_license_char(c: char) -> bool {
    ('a' <= c && c <= 'z') || ('A' <= c && c <= 'Z') || ('0' <= c && c <= '9') || c == '-' || c
        == '.' || c == '+' || c == ':'
}

/// The maximal runs of identifier characters in `s[start..]`, scanning from `i`.
pub open spec fn license_tokens_acc(s: Seq<char>, start: int, i: int) -> Seq<Seq<char>>
    decreases s.len() - i,
{
    if i >= s.len() {
        if start < s.len() {
            seq![s.subrange(start, s.len() as int)]
        } else {
            seq![]
        }
    } else if is_license_char(s[i]) {
        license_tokens_acc(s, start, i + 1)
    } else if start < i {
        seq![s.subrange(start, i)] + license_tokens_acc(s, i + 1, i + 1)
    } else {
        license_tokens_acc(s, i + 1, i + 1)
    }
}

/// The tokens of a license expression, in order.
pub open spec fn license_tokens(s: Seq<char>) -> Seq<Seq<char>> {
    license_tokens_acc(s, 0, 0)
}

/// `AND`, `OR` and `WITH`, in any ASCII case.
pub open spec fn is_operator_word(t: Seq<char>) -> bool {
    upper(t) == seq!['A', 'N', 'D'] || upper(t) == seq!['O', 'R'] || upper(t) == seq![
        'W',
        'I',
        'T',
        'H',
    ]
}

/// The license identifiers named by an SPDX expression.
pub open spec fn license_identifiers(s: Seq<char>) -> Seq<Seq<char>> {
    license_tokens(s).filter(|t: Seq<char>| !is_operator_word(t))
}

fn is_license_char_exec(c: char) -> (b: bool)
    ensures
        b == is_license_char(c),
{
    ('a' <= c && c <= 'z') || ('A' <= c && c <= 'Z') || ('0' <= c && c <= '9') || c == '-' || c
        == '.' || c == '+' || c == ':'
}

fn license_tokens_of(s: &Vec<char>) -> (out: Vec<Vec<char>>)
    ensures
        views(out@) == license_tokens(s@),
{
    let mut out: Vec<Vec<char>> = Vec::new();
    let mut start: usize = 0;
    let mut i: usize = 0;
    while i < s.len()
        invariant
            start <= i <= s.len(),
            views(out@) + license_tokens_acc(s@, start as int, i as int) == license_tokens(s@),
        decreases s.len() - i,
    {
        if !is_license_char_exec(s[i]) {
            if start < i {
                let t = sub_chars(s, start, i);
                proof {
                    assert(views(out@.push(t)) =~= views(out@).push(t@));
                    assert(views(out@) + license_tokens_acc(s@, start as int, i as int) =~= views(
                        out@.push(t),
                    ) + license_tokens_acc(s@, i + 1, i + 1));
                }
                out.push(t);
            }
            start = i + 1;
        }
        i += 1;
    }
    if start < s.len() {
        let t = sub_chars(s, start, s.len());
        proof {
            assert(views(out@.push(t)) =~= views(out@).push(t@));
            assert(views(out@) + license_tokens_acc(s@, start as int, i as int) =~= views(
                out@.push(t),
            ));
        }
        out.push(t);
    } else {
        proof {
            assert(views(out@) + license_tokens_acc(s@, start as int, i as int) =~= views(out@));
        }
    }
    out
}

fn is_operator_word_exec(t: &Vec<char>) -> (b: bool)
    ensures
        b == is_operator_word(t@),
{
    let u = upper_chars(t);
    let and_word = vec!['A', 'N', 'D'];
    let or_word = vec!['O', 'R'];
    let with_word = vec!['W', 'I', 'T', 'H'];
    proof {
        assert(and_word@ =~= seq!['A', 'N', 'D']);
        assert(or_word@ =~= seq!['O', 'R']);
        assert(with_word@ =~= seq!['W', 'I', 'T', 'H']);
    }
    chars_eq(&u, &and_word) || chars_eq(&u, &or_word) || chars_eq(&u, &with_word)
}

/// Extracts the distinct license identifiers of an SPDX expression (tokens of
/// `[A-Za-z0-9-.+:]`, without the operators `AND`, `OR`, `WITH`), in
/// ascending order.
pub fn extract_license_identifiers(expression: &str) -> (out: Vec<String>)
    ensures
        strictly_sorted(str_views(out@)),
        str_views(out@).to_set() == license_identifiers(expression@).to_set(),
{
    let chars = chars_of(expression);
    let tokens = license_tokens_of(&chars);
    let ghost pred = |t: Seq<char>| !is_operator_word(t);
    let mut set: Vec<Vec<char>> = Vec::new();
    let mut i: usize = 0;
    while i < tokens.len()
        invariant
            i <= tokens.len(),
            pred == (|t: Seq<char>| !is_operator_word(t)),
            strictly_sorted(views(set@)),
            views(set@).to_set() == views(tokens@).take(i as int).filter(pred).to_set(),
        decreases tokens.len() - i,
    {
        let t = tokens[i].clone();
        proof {
            assert(views(tokens@).take(i + 1) =~= views(tokens@).take(i as int).push(t@));
            views(tokens@).take(i as int).lemma_filter_push(t@, pred);
        }
        if !is_operator_word_exec(&t) {
            proof {
                views(tokens@).take(i as int).filter(pred).lemma_push_to_set_commute(t@);
            }
            insert_sorted(&mut set, t);
        }
        i += 1;
    }
    proof {
        assert(views(tokens@).take(tokens.len() as int) =~= views(tokens@));
    }
    chars_to_strings(&set)
}

/// The ASCII lower-case views of a list of strings.
pub open spec fn lowered(v: Seq<String>) -> Seq<Seq<char>> {
    str_views(v).map_values(|s: Seq<char>| lower(s))
}

fn lower_all(v: &[String]) -> (out: Vec<Vec<char>>)
    ensures
        views(out@) == lowered(v@),
{
    let raw = strings_to_chars(v);
    let mut out: Vec<Vec<char>> = Vec::new();
    let mut i: usize = 0;
    while i < raw.len()
        invariant
            i <= raw.len(),
            views(raw@) == str_views(v@),
            views(out@) == views(raw@).take(i as int).map_values(|s: Seq<char>| lower(s)),
        decreases raw.len() - i,
    {
        let l = lower_chars(&raw[i]);
        proof {
            assert(views(out@.push(l)) =~= views(out@).push(l@));
            assert(views(raw@).take(i + 1).map_values(|s: Seq<char>| lower(s)) =~= views(
                raw@,
            ).take(i as int).map_values(|s: Seq<char>| lower(s)).push(l@));
        }
        out.push(l);
        i += 1;
    }
    proof {
        assert(views(raw@).take(raw.len() as int) =~= views(raw@));
    }
    out
}

/// The number of distinct values that both lists share, compared ASCII
/// case-insensitively.
pub fn overlap_count(left: &[String], right: &[String]) -> (n: usize)
    ensures
        n == lowered(left@).to_set().intersect(lowered(right@).to_set()).len(),
{
    let l = sort_dedup(&lower_all(left));
    let r = lower_all(right);
    let ghost rset = lowered(right@).to_set();
    let mut common: Vec<Vec<char>> = Vec::new();
    let mut i: usize = 0;
    while i < l.len()
        invariant
            i <= l.len(),
            views(r@) == lowered(right@),
            rset == lowered(right@).to_set(),
            strictly_sorted(views(common@)),
            views(common@).to_set() == views(l@).take(i as int).to_set().intersect(rset),
        decreases l.len() - i,
    {
        let x = l[i].clone();
        proof {
            assert(views(l@).take(i + 1) =~= views(l@).take(i as int).push(x@));
            views(l@).take(i as int).lemma_push_to_set_commute(x@);
        }
        if contains_seq(&r, &x) {
            insert_sorted(&mut common, x);
            proof {
                assert(views(common@).to_set() =~= views(l@).take(i + 1).to_set().intersect(rset));
            }
        } else {
            proof {
                assert(views(common@).to_set() =~= views(l@).take(i + 1).to_set().intersect(rset));
            }
        }
        i += 1;
    }
    proof {
        assert(views(l@).take(l.len() as int) =~= views(l@));
        lemma_sorted_set_len(views(common@));
        assert(views(common@).len() == common@.len());
    }
    common.len()
}


/// The entries of `list` whose upper-case form is the upper-case form of some matched license.
pub open spec fn policy_matches(matched: Seq<Seq<char>>, list: Seq<Seq<char>>) -> Seq<Seq<char>> {
    list.filter(|d: Seq<char>| matched.map_values(|m: Seq<char>| upper(m)).contains(upper(d)))
}

/// The verdict of a license policy and the one reason given for it.
pub open spec fn policy_verdict(
    matched: Seq<Seq<char>>,
    allow: Seq<Seq<char>>,
    deny: Seq<Seq<char>>,
) -> (LicensePolicyResult, Seq<char>) {
    if matched.len() == 0 {
        (LicensePolicyResult::Unknown, "license metadata missing or unparsable"@)
    } else if policy_matches(matched, deny).len() > 0 {
        (
            LicensePolicyResult::Denied,
            "matched denied licenses: "@ + join(policy_matches(matched, deny), ", "@),
        )
    } else if allow.len() > 0 {
        if policy_matches(matched, allow).len() == 0 {
            (LicensePolicyResult::Denied, "no matched license is present in allow_licenses"@)
        } else {
            (
                LicensePolicyResult::Allowed,
                "matched allowed licenses: "@ + join(policy_matches(matched, allow), ", "@),
            )
        }
    } else {
        (
            LicensePolicyResult::Allowed,
            "policy lists not provided; license metadata is informational"@,
        )
    }
}

fn upper_all(v: &Vec<Vec<char>>) -> (out: Vec<Vec<char>>)
    ensures
        views(out@) == views(v@).map_values(|m: Seq<char>| upper(m)),
{
    let mut out: Vec<Vec<char>> = Vec::new();
    let mut i: usize = 0;
    while i < v.len()
        invariant
            i <= v.len(),
            views(out@) == views(v@).take(i as int).map_values(|m: Seq<char>| upper(m)),
        decreases v.len() - i,
    {
        let u = upper_chars(&v[i]);
        proof {
            assert(views(out@.push(u)) =~= views(out@).push(u@));
            assert(views(v@).take(i + 1).map_values(|m: Seq<char>| upper(m)) =~= views(v@).take(
                i as int,
            ).map_values(|m: Seq<char>| upper(m)).push(u@));
        }
        out.push(u);
        i += 1;
    }
    proof {
        assert(views(v@).take(v.len() as int) =~= views(v@));
    }
    out
}

fn matching_entries(matched_upper: &Vec<Vec<char>>, list: &Vec<Vec<char>>) -> (out: Vec<Vec<char>>)
    ensures
        views(out@) == views(list@).filter(|d: Seq<char>| views(matched_upper@).contains(upper(d))),
{
    let ghost pred = |d: Seq<char>| views(matched_upper@).contains(upper(d));
    let mut out: Vec<Vec<char>> = Vec::new();
    let mut i: usize = 0;
    while i < list.len()
        invariant
            i <= list.len(),
            pred == (|d: Seq<char>| views(matched_upper@).contains(upper(d))),
            views(out@) == views(list@).take(i as int).filter(pred),
        decreases list.len() - i,
    {
        let d = list[i].clone();
        proof {
            assert(views(list@).take(i + 1) =~= views(list@).take(i as int).push(d@));
            views(list@).take(i as int).lemma_filter_push(d@, pred);
        }
        if contains_seq(matched_upper, &upper_chars(&d)) {
            proof {
                assert(views(out@.push(d)) =~= views(out@).push(d@));
            }
            out.push(d);
        }
        i += 1;
    }
    proof {
        assert(views(list@).take(list.len() as int) =~= views(list@));
    }
    out
}

/// Evaluates the licenses of a crate against allow and deny lists. A denied
/// match wins; otherwise a non-empty allow list must match; without lists the
/// verdict is informational. Returns the verdict and a one-line reason.
pub fn evaluate_policy(
    matched_licenses: &[String],
    allow_licenses: &[String],
    deny_licenses: &[String],
) -> (res: (LicensePolicyResult, Vec<String>))
    ensures
        res.1.len() == 1,
        res.0 == policy_verdict(
            str_views(matched_licenses@),
            str_views(allow_licenses@),
            str_views(deny_licenses@),
        ).0,
        res.1@[0]@ == policy_verdict(
            str_views(matched_licenses@),
            str_views(allow_licenses@),
            str_views(deny_licenses@),
        ).1,
{
    let ghost m = str_views(matched_licenses@);
    let ghost a = str_views(allow_licenses@);
    let ghost d = str_views(deny_licenses@);
    if matched_licenses.len() == 0 {
        let reasons = vec![string_of(&lit("license metadata missing or unparsable"))];
        return (LicensePolicyResult::Unknown, reasons);
    }
    let matched = strings_to_chars(matched_licenses);
    let matched_upper = upper_all(&matched);
    let deny = strings_to_chars(deny_licenses);
    let denied = matching_entries(&matched_upper, &deny);
    proof {
        assert(views(matched_upper@) == m.map_values(|x: Seq<char>| upper(x)));
        assert(views(denied@) =~= policy_matches(m, d));
    }
    if denied.len() > 0 {
        let mut msg = lit("matched denied licenses: ");
        append_chars(&mut msg, &join_chars(&denied, &lit(", ")));
        let reasons = vec![string_of(&msg)];
        return (LicensePolicyResult::Denied, reasons);
    }
    if allow_licenses.len() > 0 {
        let allow = strings_to_chars(allow_licenses);
        let allowed = matching_entries(&matched_upper, &allow);
        proof {
            assert(views(allowed@) =~= policy_matches(m, a));
        }
        if allowed.len() == 0 {
            let reasons = vec![string_of(&lit("no matched license is present in allow_licenses"))];
            return (LicensePolicyResult::Denied, reasons);
        }
        let mut msg = lit("matched allowed licenses: ");
        append_chars(&mut msg, &join_chars(&allowed, &lit(", ")));
        let reasons = vec![string_of(&msg)];
        return (LicensePolicyResult::Allowed, reasons);
    }
    let reasons = vec![
        string_of(&lit("policy lists not provided; license metadata is informational")),
    ];
    (LicensePolicyResult::Allowed, reasons)
}

proof fn lemma_entry_is_fixed(v: Seq<char>)
    requires
        upper(trim(v)).len() > 0,
    ensures
        upper(trim(upper(trim(v)))) == upper(trim(v)),
{
    let t = trim(v);
    let e = upper(t);
    crate::text::lemma_trim_edges(v);
    crate::text::lemma_upper_facts(t);
    assert(e[0] == upper(t)[0]);
    assert(e.last() == upper(t)[t.len() - 1]);
    crate::text::lemma_trim_fixed(e);
}

proof fn lemma_filter_all(s: Seq<Seq<char>>, pred: spec_fn(Seq<char>) -> bool)
    requires
        forall|i: int| 0 <= i < s.len() ==> pred(#[trigger] s[i]),
    ensures
        s.filter(pred) == s,
    decreases s.len(),
{
    reveal(Seq::filter);
    if s.len() > 0 {
        lemma_filter_all(s.drop_last(), pred);
        assert(s.drop_last().push(s.last()) =~= s);
    }
}

proof fn lemma_filter_from(s: Seq<Seq<char>>, pred: spec_fn(Seq<char>) -> bool)
    ensures
        forall|i: int| 0 <= i < s.filter(pred).len() ==> s.contains(#[trigger] s.filter(pred)[i]),
    decreases s.len(),
{
    reveal(Seq::filter);
    if s.len() > 0 {
        lemma_filter_from(s.drop_last(), pred);
        let sub = s.drop_last().filter(pred);
        assert forall|i: int| 0 <= i < s.filter(pred).len() implies s.contains(#[trigger] s.filter(pred)[i]) by {
            if i < sub.len() {
                assert(s.filter(pred)[i] == sub[i]);
                let k = choose|k: int| 0 <= k < s.drop_last().len() && s.drop_last()[k] == sub[i];
                assert(s[k] == sub[i]);
            } else {
                assert(s.filter(pred)[i] == s.last());
                assert(s[s.len() - 1] == s.last());
            }
        }
    }
}

/// Normalising a policy list is idempotent: the entries of an already
/// normalised list are the list itself.
pub proof fn law_policy_normalization_idempotent(values: Seq<Seq<char>>)
    ensures
        policy_entries(policy_entries(values)) == policy_entries(values),
{
    let x = policy_entries(values);
    let mapped = values.map_values(|v: Seq<char>| upper(trim(v)));
    let pred = |e: Seq<char>| e.len() > 0;
    assert forall|i: int| 0 <= i < x.len() implies upper(trim(#[trigger] x[i])) == x[i] && x[i].len() > 0 by {
        mapped.lemma_filter_pred(pred, i);
        lemma_filter_from(mapped, pred);
        let k = choose|k: int| 0 <= k < mapped.len() && mapped[k] == x[i];
        lemma_entry_is_fixed(values[k]);
    }
    let xm = x.map_values(|v: Seq<char>| upper(trim(v)));
    assert(xm =~= x);
    lemma_filter_all(x, pred);
}

/// The overlap between two lists counts the same either way round.
pub proof fn law_overlap_symmetric(left: Seq<String>, right: Seq<String>)
    ensures
        lowered(left).to_set().intersect(lowered(right).to_set()).len() == lowered(right).to_set().intersect(
            lowered(left).to_set(),
        ).len(),
{
    assert(lowered(left).to_set().intersect(lowered(right).to_set()) =~= lowered(right).to_set().intersect(
        lowered(left).to_set(),
    ));
}

/// Deny entries take precedence: when a matched license is denied, the
/// result is `Denied` for every allow list.
pub proof fn law_deny_overrides_allow(
    matched: Seq<Seq<char>>,
    allow: Seq<Seq<char>>,
    deny: Seq<Seq<char>>,
)
    requires
        matched.len() > 0,
        policy_matches(matched, deny).len() > 0,
    ensures
        policy_verdict(matched, allow, deny).0 == LicensePolicyResult::Denied,
{
}

/// When no deny entry names a matched license and some allow entry equals
/// a matched license up to ASCII case, the verdict is `Allowed`; in
/// particular a license listed verbatim in the allow list is allowed.
pub proof fn law_allow_match_allows(
    matched: Seq<Seq<char>>,
    allow: Seq<Seq<char>>,
    deny: Seq<Seq<char>>,
    i: int,
    j: int,
)
    requires
        0 <= i < matched.len(),
        0 <= j < allow.len(),
        upper(allow[j]) == upper(matched[i]),
        forall|k: int, l: int|
            0 <= k < deny.len() && 0 <= l < matched.len() ==> upper(#[trigger] deny[k]) != upper(
                #[trigger] matched[l],
            ),
    ensures
        policy_verdict(matched, allow, deny).0 == LicensePolicyResult::Allowed,
{
    let mu = matched.map_values(|m: Seq<char>| upper(m));
    let pred = |d: Seq<char>| mu.contains(upper(d));
    assert(mu[i] == upper(matched[i]));
    assert(pred(allow[j]));
    allow.lemma_filter_contains(pred, j);
    assert(policy_matches(matched, allow).contains(allow[j]));
    assert(deny.all(|x: Seq<char>| !pred(x))) by {
        assert forall|k: int| 0 <= k < deny.len() implies !pred(deny[k]) by {
            if mu.contains(upper(deny[k])) {
                let l = choose|l: int| 0 <= l < mu.len() && mu[l] == upper(deny[k]);
                assert(mu[l] == upper(matched[l]));
            }
        }
    }
    deny.lemma_all_neg_filter_empty(pred);
    assert(policy_matches(matched, deny).len() == 0);
}

/// The verdict in terms of the lists alone: `Unknown` without matched
/// licenses; `Denied` when a deny entry equals a matched license up to
/// ASCII case, or when an allow list is given and none of its entries does;
/// `Allowed` otherwise.
pub proof fn law_policy_verdict_cases(matched: Seq<Seq<char>>, allow: Seq<Seq<char>>, deny: Seq<Seq<char>>)
    ensures
        policy_verdict(matched, allow, deny).0 == if matched.len() == 0 {
            LicensePolicyResult::Unknown
        } else if exists|k: int, l: int|
            0 <= k < deny.len() && 0 <= l < matched.len() && upper(#[trigger] deny[k]) == upper(
                #[trigger] matched[l],
            ) {
            LicensePolicyResult::Denied
        } else if allow.len() > 0 && !exists|k: int, l: int|
            0 <= k < allow.len() && 0 <= l < matched.len() && upper(#[trigger] allow[k]) == upper(
                #[trigger] matched[l],
            ) {
            LicensePolicyResult::Denied
        } else {
            LicensePolicyResult::Allowed
        },
{
    lemma_policy_matches_len(matched, deny);
    lemma_policy_matches_len(matched, allow);
}

/// A list has an entry matching one of the licenses exactly when its
/// policy matches are not empty.
proof fn lemma_policy_matches_len(matched: Seq<Seq<char>>, list: Seq<Seq<char>>)
    ensures
        (policy_matches(matched, list).len() > 0) == exists|k: int, l: int|
            0 <= k < list.len() && 0 <= l < matched.len() && upper(#[trigger] list[k]) == upper(
                #[trigger] matched[l],
            ),
{
    let mu = matched.map_values(|m: Seq<char>| upper(m));
    let pred = |d: Seq<char>| mu.contains(upper(d));
    if exists|k: int, l: int| 0 <= k < list.len() && 0 <= l < matched.len() && upper(#[trigger] list[k]) == upper(#[trigger] matched[l]) {
        let (k, l) = choose|k: int, l: int| 0 <= k < list.len() && 0 <= l < matched.len() && upper(#[trigger] list[k]) == upper(#[trigger] matched[l]);
        assert(mu[l] == upper(matched[l]));
        assert(pred(list[k]));
        list.lemma_filter_contains(pred, k);
        assert(policy_matches(matched, list).contains(list[k]));
    } else {
        assert forall|k: int| 0 <= k < list.len() implies !pred(list[k]) by {
            if mu.contains(upper(list[k])) {
                let l = choose|l: int| 0 <= l < mu.len() && mu[l] == upper(list[k]);
                assert(mu[l] == upper(matched[l]));
            }
        }
        assert(list.all(|x: Seq<char>| !pred(x)));
        list.lemma_all_neg_filter_empty(pred);
    }
}

/// Whether an alternative crate is left out of the ranking: its license
/// is denied while a policy list was given.
pub open spec fn alternative_excluded(verdict: LicensePolicyResult, allow_count: nat, deny_count: nat) -> bool {
    verdict == LicensePolicyResult::Denied && (allow_count > 0 || deny_count > 0)
}

/// Screens an alternative crate by its license expression: the policy
/// verdict and reason for its SPDX identifiers, and whether it is left out.
pub fn screen_alternative(
    license_expression: &Option<String>,
    allow_licenses: &[String],
    deny_licenses: &[String],
) -> (r: (LicensePolicyResult, Vec<String>, bool))
    ensures
        exists|matched: Seq<Seq<char>>|
            {
                &&& strictly_sorted(matched)
                &&& matched.to_set() == match license_expression {
                    Some(e) => license_identifiers(e@).to_set(),
                    None => Set::<Seq<char>>::empty(),
                }
                &&& r.0 == policy_verdict(
                    matched,
                    str_views(allow_licenses@),
                    str_views(deny_licenses@),
                ).0
                &&& r.1@.len() == 1
                &&& r.1@[0]@ == policy_verdict(
                    matched,
                    str_views(allow_licenses@),
                    str_views(deny_licenses@),
                ).1
            },
        r.2 == alternative_excluded(r.0, allow_licenses@.len(), deny_licenses@.len()),
{
    let matched: Vec<String> = match license_expression {
        Some(e) => extract_license_identifiers(e.as_str()),
        None => Vec::new(),
    };
    let (verdict, reasons) = evaluate_policy(matched.as_slice(), allow_licenses, deny_licenses);
    proof {
        if license_expression is None {
            assert(str_views(matched@) =~= Seq::<Seq<char>>::empty());
            assert(str_views(matched@).to_set() =~= Set::<Seq<char>>::empty());
        }
    }
    let excluded = verdict == LicensePolicyResult::Denied && (allow_licenses.len() > 0 || deny_licenses.len() > 0);
    (verdict, reasons, excluded)
}

/// The confidence of an alternatives ranking.
pub fn alternatives_confidence(alternatives: usize, has_taxonomy: bool) -> (r: (crate::error_types::ConfidenceLevel, String))
    ensures
        alternatives == 0 ==> r.0 == crate::error_types::ConfidenceLevel::Low
            && r.1@ == "no alternatives matched similarity, taxonomy, and policy constraints"@,
        alternatives != 0 && !has_taxonomy ==> r.0 == crate::error_types::ConfidenceLevel::Medium
            && r.1@ == "ranking relied mostly on name similarity and adoption signals"@,
        alternatives != 0 && has_taxonomy ==> r.0 == crate::error_types::ConfidenceLevel::High
            && r.1@ == "ranking combined similarity, taxonomy overlap, adoption, and risk signals"@,
{
    if alternatives == 0 {
        (
            crate::error_types::ConfidenceLevel::Low,
            string_of(&lit("no alternatives matched similarity, taxonomy, and policy constraints")),
        )
    } else if !has_taxonomy {
        (
            crate::error_types::ConfidenceLevel::Medium,
            string_of(&lit("ranking relied mostly on name similarity and adoption signals")),
        )
    } else {
        (
            crate::error_types::ConfidenceLevel::High,
            string_of(&lit("ranking combined similarity, taxonomy overlap, adoption, and risk signals")),
        )
    }
}

} // verus!
