//! Ordered string sets.
//!
//! `String`'s `Ord` compares UTF-8 bytes lexicographically, which orders
//! strings as the lexicographic order of their code points; `lex_lt` states
//! that order over the `Seq<char>` view. A `BTreeSet<String>` turned into a
//! vector is then the unique strictly ascending sequence of its elements.
//!
//! The sets are kept as strictly ascending vectors rather than as
//! `BTreeSet<String>`: vstd states what a `BTreeSet` holds only for keys whose
//! `Ord` it models (`key_obeys_cmp_spec`), which `String` is not, so a
//! `BTreeSet<String>` would carry no provable contents.
use vstd::prelude::*;
use crate::text::views;

verus! {

/// Strict lexicographic order of code-point sequences.
pub open spec fn lex_lt(a: Seq<char>, b: Seq<char>) -> bool
    decreases a.len(),
{
    if a.len() == 0 {
        b.len() > 0
    } else if b.len() == 0 {
        false
    } else if a[0] != b[0] {
        a[0] < b[0]
    } else {
        lex_lt(a.drop_first(), b.drop_first())
    }
}

/// Every element is strictly below every later one.
pub open spec fn strictly_sorted(s: Seq<Seq<char>>) -> bool {
    forall|i: int, j: int| 0 <= i < j < s.len() ==> lex_lt(#[trigger] s[i], #[trigger] s[j])
}

/// No sequence is below itself.
pub proof fn lemma_lex_irreflexive(a: Seq<char>)
    ensures
        !lex_lt(a, a),
    decreases a.len(),
{
    if a.len() > 0 {
        lemma_lex_irreflexive(a.drop_first());
    }
}

/// The order is transitive.
pub proof fn lemma_lex_transitive(a: Seq<char>, b: Seq<char>, c: Seq<char>)
    requires
        lex_lt(a, b),
        lex_lt(b, c),
    ensures
        lex_lt(a, c),
    decreases a.len(),
{
    if a.len() > 0 && b.len() > 0 && c.len() > 0 {
        if a[0] == b[0] && b[0] == c[0] {
            lemma_lex_transitive(a.drop_first(), b.drop_first(), c.drop_first());
        }
    }
}

/// Two distinct sequences are ordered one way or the other.
pub proof fn lemma_lex_total(a: Seq<char>, b: Seq<char>)
    requires
        a != b,
    ensures
        lex_lt(a, b) || lex_lt(b, a),
    decreases a.len(),
{
    if a.len() > 0 && b.len() > 0 && a[0] == b[0] {
        if a.drop_first() == b.drop_first() {
            assert(a =~= seq![a[0]] + a.drop_first());
            assert(b =~= seq![b[0]] + b.drop_first());
        }
        lemma_lex_total(a.drop_first(), b.drop_first());
    } else if a.len() == 0 && b.len() == 0 {
        assert(a =~= b);
    }
}

/// The order is asymmetric.
pub proof fn lemma_lex_asymmetric(a: Seq<char>, b: Seq<char>)
    requires
        lex_lt(a, b),
    ensures
        !lex_lt(b, a),
{
    if lex_lt(b, a) {
        lemma_lex_transitive(a, b, a);
        lemma_lex_irreflexive(a);
    }
}

proof fn lemma_lex_skip(a: Seq<char>, b: Seq<char>, i: int)
    requires
        0 <= i <= a.len(),
        i <= b.len(),
        a.take(i) == b.take(i),
    ensures
        lex_lt(a, b) == lex_lt(a.skip(i), b.skip(i)),
    decreases i,
{
    if i > 0 {
        assert(a[0] == a.take(i)[0]);
        assert(b[0] == b.take(i)[0]);
        assert(a.drop_first().take(i - 1) =~= a.take(i).drop_first());
        assert(b.drop_first().take(i - 1) =~= b.take(i).drop_first());
        lemma_lex_skip(a.drop_first(), b.drop_first(), i - 1);
        assert(a.drop_first().skip(i - 1) =~= a.skip(i));
        assert(b.drop_first().skip(i - 1) =~= b.skip(i));
    } else {
        assert(a.skip(0) =~= a);
        assert(b.skip(0) =~= b);
    }
}

/// Whether `a` sorts strictly before `b`.
pub fn lex_less(a: &Vec<char>, b: &Vec<char>) -> (r: bool)
    ensures
        r == lex_lt(a@, b@),
{
    let mut i: usize = 0;
    while i < a.len() && i < b.len() && a[i] == b[i]
        invariant
            i <= a.len(),
            i <= b.len(),
            a@.take(i as int) == b@.take(i as int),
        decreases a.len() - i,
    {
        proof {
            assert(a@.take(i + 1) =~= a@.take(i as int).push(a@[i as int]));
            assert(b@.take(i + 1) =~= b@.take(i as int).push(b@[i as int]));
        }
        i += 1;
    }
    proof {
        lemma_lex_skip(a@, b@, i as int);
    }
    if i == a.len() {
        i < b.len()
    } else if i == b.len() {
        false
    } else {
        proof {
            assert(a@.skip(i as int)[0] == a@[i as int]);
            assert(b@.skip(i as int)[0] == b@[i as int]);
        }
        a[i] < b[i]
    }
}

/// Inserts `x` into the strictly ascending `set` unless it is already there
/// (`BTreeSet::insert`).
pub fn insert_sorted(set: &mut Vec<Vec<char>>, x: Vec<char>)
    requires
        strictly_sorted(views(old(set)@)),
    ensures
        strictly_sorted(views(final(set)@)),
        views(final(set)@).to_set() == views(old(set)@).to_set().insert(x@),
{
    let ghost s0 = views(set@);
    let mut p: usize = 0;
    while p < set.len() && lex_less(&set[p], &x)
        invariant
            p <= set.len(),
            s0 == views(set@),
            forall|k: int| 0 <= k < p ==> lex_lt(#[trigger] s0[k], x@),
        decreases set.len() - p,
    {
        p += 1;
    }
    if p < set.len() && crate::text::chars_eq(&set[p], &x) {
        proof {
            assert(s0[p as int] == x@);
            assert(s0.to_set().insert(x@) =~= s0.to_set());
        }
        return;
    }
    proof {
        if p < set.len() {
            assert(s0[p as int] != x@);
            assert(!lex_lt(s0[p as int], x@));
            lemma_lex_total(s0[p as int], x@);
        }
    }
    set.insert(p, x);
    proof {
        let s1 = views(set@);
        assert(s1 =~= s0.insert(p as int, x@));
        assert(p < s0.len() ==> lex_lt(x@, s0[p as int]));
        assert forall|j: int| p <= j < s0.len() implies lex_lt(x@, #[trigger] s0[j]) by {
            if j > p {
                assert(lex_lt(s0[p as int], s0[j]));
                lemma_lex_transitive(x@, s0[p as int], s0[j]);
            }
        }
        assert forall|i: int, j: int| 0 <= i < j < s1.len() implies lex_lt(
            #[trigger] s1[i],
            #[trigger] s1[j],
        ) by {
            if j < p {
            } else if j == p {
            } else if i < p {
                assert(lex_lt(x@, s0[j - 1]));
                lemma_lex_transitive(s0[i], x@, s0[j - 1]);
            } else if i == p {
                assert(lex_lt(x@, s0[j - 1]));
            } else {
                assert(lex_lt(s0[i - 1], s0[j - 1]));
            }
        }
        assert(s1.to_set() =~= s0.to_set().insert(x@)) by {
            assert forall|e: Seq<char>| s1.to_set().contains(e) <==> s0.to_set().insert(x@).contains(e) by {
                if s1.to_set().contains(e) {
                    let k = choose|k: int| 0 <= k < s1.len() && s1[k] == e;
                    if k < p {
                        assert(s0[k] == e);
                    } else if k > p {
                        assert(s0[k - 1] == e);
                    }
                }
                if s0.to_set().contains(e) {
                    let k = choose|k: int| 0 <= k < s0.len() && s0[k] == e;
                    if k < p {
                        assert(s1[k] == e);
                    } else {
                        assert(s1[k + 1] == e);
                    }
                }
                if e == x@ {
                    assert(s1[p as int] == e);
                }
            }
        }
    }
}


/// A strictly ascending sequence has no duplicates, so its set has its length.
pub proof fn lemma_sorted_set_len(s: Seq<Seq<char>>)
    requires
        strictly_sorted(s),
    ensures
        s.no_duplicates(),
        s.to_set().len() == s.len(),
{
    assert forall|i: int, j: int| 0 <= i < s.len() && 0 <= j < s.len() && i != j implies s[i]
        != s[j] by {
        if i < j {
            assert(lex_lt(s[i], s[j]));
            if s[i] == s[j] {
                lemma_lex_irreflexive(s[i]);
            }
        } else {
            assert(lex_lt(s[j], s[i]));
            if s[i] == s[j] {
                lemma_lex_irreflexive(s[i]);
            }
        }
    }
    s.unique_seq_to_set();
}

/// Going from `a` to `b` past their common first element keeps membership.
proof fn lemma_tail_subset(a: Seq<Seq<char>>, b: Seq<Seq<char>>, x: Seq<char>)
    requires
        strictly_sorted(a),
        strictly_sorted(b),
        a.len() > 0,
        b.len() > 0,
        a[0] == b[0],
        a.to_set() == b.to_set(),
        a.drop_first().to_set().contains(x),
    ensures
        b.drop_first().to_set().contains(x),
{
    let k = choose|k: int| 0 <= k < a.drop_first().len() && a.drop_first()[k] == x;
    assert(a[k + 1] == x);
    assert(a.to_set().contains(x));
    let m = choose|m: int| 0 <= m < b.len() && b[m] == x;
    if m == 0 {
        assert(lex_lt(a[0], a[k + 1]));
        lemma_lex_irreflexive(x);
    }
    assert(b.drop_first()[m - 1] == x);
}

/// Two strictly ascending sequences with the same elements are equal.
pub proof fn lemma_sorted_unique(a: Seq<Seq<char>>, b: Seq<Seq<char>>)
    requires
        strictly_sorted(a),
        strictly_sorted(b),
        a.to_set() == b.to_set(),
    ensures
        a == b,
    decreases a.len(),
{
    lemma_sorted_set_len(a);
    lemma_sorted_set_len(b);
    if a.len() == 0 {
        assert(a =~= b);
    } else {
        assert(b.to_set().contains(a[0]));
        assert(a.to_set().contains(b[0]));
        let k = choose|k: int| 0 <= k < b.len() && b[k] == a[0];
        let m = choose|m: int| 0 <= m < a.len() && a[m] == b[0];
        if k > 0 {
            assert(lex_lt(b[0], b[k]));
            if m > 0 {
                assert(lex_lt(a[0], a[m]));
                lemma_lex_asymmetric(a[0], b[0]);
            } else {
                lemma_lex_irreflexive(a[0]);
            }
        }
        assert(a[0] == b[0]);
        let a1 = a.drop_first();
        let b1 = b.drop_first();
        assert(strictly_sorted(a1)) by {
            assert forall|i: int, j: int| 0 <= i < j < a1.len() implies lex_lt(a1[i], a1[j]) by {
                assert(a1[i] == a[i + 1] && a1[j] == a[j + 1]);
            }
        }
        assert(strictly_sorted(b1)) by {
            assert forall|i: int, j: int| 0 <= i < j < b1.len() implies lex_lt(b1[i], b1[j]) by {
                assert(b1[i] == b[i + 1] && b1[j] == b[j + 1]);
            }
        }
        assert forall|x: Seq<char>| a1.to_set().contains(x) <==> b1.to_set().contains(x) by {
            if a1.to_set().contains(x) {
                lemma_tail_subset(a, b, x);
            }
            if b1.to_set().contains(x) {
                lemma_tail_subset(b, a, x);
            }
        }
        assert(a1.to_set() =~= b1.to_set());
        lemma_sorted_unique(a1, b1);
        assert(a =~= seq![a[0]] + a1);
        assert(b =~= seq![b[0]] + b1);
    }
}

/// The distinct elements of `v` in ascending order (sort, then dedup).
pub fn sort_dedup(v: &Vec<Vec<char>>) -> (out: Vec<Vec<char>>)
    ensures
        strictly_sorted(views(out@)),
        views(out@).to_set() == views(v@).to_set(),
{
    let mut out: Vec<Vec<char>> = Vec::new();
    let mut i: usize = 0;
    while i < v.len()
        invariant
            i <= v.len(),
            strictly_sorted(views(out@)),
            views(out@).to_set() == views(v@).take(i as int).to_set(),
        decreases v.len() - i,
    {
        let x = v[i].clone();
        insert_sorted(&mut out, x);
        proof {
            assert(views(v@).take(i + 1) =~= views(v@).take(i as int).push(v@[i as int]@));
            views(v@).take(i as int).lemma_push_to_set_commute(v@[i as int]@);
        }
        i += 1;
    }
    proof {
        assert(views(v@).take(v.len() as int) =~= views(v@));
    }
    out
}

/// Whether `x` is one of the elements of `set`.
pub fn contains_seq(set: &Vec<Vec<char>>, x: &Vec<char>) -> (r: bool)
    ensures
        r == views(set@).contains(x@),
{
    let mut i: usize = 0;
    while i < set.len()
        invariant
            i <= set.len(),
            forall|k: int| 0 <= k < i ==> views(set@)[k] != x@,
        decreases set.len() - i,
    {
        if crate::text::chars_eq(&set[i], x) {
            proof {
                assert(views(set@)[i as int] == x@);
            }
            return true;
        }
        i += 1;
    }
    false
}


/// The set of a concatenation is the union of the sets.
pub proof fn lemma_concat_to_set(a: Seq<Seq<char>>, b: Seq<Seq<char>>)
    ensures
        (a + b).to_set() == a.to_set().union(b.to_set()),
{
    assert forall|e: Seq<char>| (a + b).to_set().contains(e) <==> a.to_set().union(
        b.to_set(),
    ).contains(e) by {
        if (a + b).to_set().contains(e) {
            let k = choose|k: int| 0 <= k < (a + b).len() && (a + b)[k] == e;
            if k < a.len() {
                assert(a[k] == e);
            } else {
                assert(b[k - a.len()] == e);
            }
        }
        if a.to_set().contains(e) {
            let k = choose|k: int| 0 <= k < a.len() && a[k] == e;
            assert((a + b)[k] == e);
        }
        if b.to_set().contains(e) {
            let k = choose|k: int| 0 <= k < b.len() && b[k] == e;
            assert((a + b)[k + a.len()] == e);
        }
    }
    assert((a + b).to_set() =~= a.to_set().union(b.to_set()));
}

} // verus!
