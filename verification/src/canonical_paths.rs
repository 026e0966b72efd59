//! Canonical import paths of rustdoc items: an item re-exported publicly
//! under a shorter path is known by that path.
use vstd::prelude::*;
use std::collections::HashMap;
use crate::text::{chars_of_string, split};
use crate::sorted::{lex_less, lex_lt, lemma_lex_asymmetric, lemma_lex_irreflexive, lemma_lex_total, lemma_lex_transitive};
use crate::type_render::{path_rank, segment_count};

verus! {

broadcast use vstd::std_specs::hash::group_hash_axioms;

/// A `use` item of a rustdoc document: its id, the item it re-exports (if
/// rustdoc resolved one), whether it is public and whether it is a glob.
#[derive(Clone, Copy, Debug)]
pub struct UseEntry {
    pub id: u32,
    pub target: Option<u32>,
    pub is_public: bool,
    pub is_glob: bool,
}

/// Follows `use` items from `cur`: stops at an id seen before, at an id
/// that is not a `use` item, or at a `use` without a target.
pub open spec fn chase(m: Map<u32, Option<u32>>, cur: u32, seen: Set<u32>, fuel: nat) -> u32
    decreases fuel,
{
    if fuel == 0 || seen.contains(cur) || !m.dom().contains(cur) || m[cur] is None {
        cur
    } else {
        chase(m, m[cur]->0, seen.insert(cur), (fuel - 1) as nat)
    }
}

/// The item a re-export finally refers to, following chains of `use` items
/// (a cycle ends at the first repeated id).
pub open spec fn resolved_target(m: Map<u32, Option<u32>>, start: u32) -> u32 {
    chase(m, start, Set::empty(), m.dom().len() + 1)
}

proof fn lemma_chase_fuel(m: Map<u32, Option<u32>>, cur: u32, seen: Set<u32>, f1: nat, f2: nat)
    requires
        m.dom().finite(),
        seen.finite(),
        seen.subset_of(m.dom()),
        f1 >= m.dom().len() - seen.len() + 1,
        f2 >= m.dom().len() - seen.len() + 1,
    ensures
        chase(m, cur, seen, f1) == chase(m, cur, seen, f2),
    decreases f1,
{
    vstd::set_lib::lemma_len_subset(seen, m.dom());
    if seen.contains(cur) || !m.dom().contains(cur) || m[cur] is None {
    } else {
        let s2 = seen.insert(cur);
        assert(s2.len() == seen.len() + 1);
        vstd::set_lib::lemma_len_subset(s2, m.dom());
        lemma_chase_fuel(m, m[cur]->0, s2, (f1 - 1) as nat, (f2 - 1) as nat);
    }
}

/// Resolves a re-export to the item it finally refers to.
pub fn resolve_use_target_id(start: u32, use_targets: &HashMap<u32, Option<u32>>) -> (r: u32)
    ensures
        r == resolved_target(use_targets@, start),
{
    let ghost m = use_targets@;
    let mut current = start;
    let mut seen: Vec<u32> = Vec::new();
    let ghost mut seen_set: Set<u32> = Set::empty();
    proof {
        vstd::std_specs::hash::axiom_hashmap_view_finite_dom(*use_targets);
    }
    loop
        invariant
            m == use_targets@,
            m.dom().finite(),
            seen_set.finite(),
            seen_set.subset_of(m.dom()),
            seen@.to_set() == seen_set,
            chase(m, current, seen_set, (m.dom().len() - seen_set.len() + 1) as nat)
                == resolved_target(m, start),
            seen_set.len() <= m.dom().len(),
        decreases m.dom().len() - seen_set.len(),
    {
        let mut i: usize = 0;
        let mut repeated = false;
        while i < seen.len()
            invariant
                i <= seen.len(),
                repeated == exists|j: int| 0 <= j < i && seen@[j] == current,
            decreases seen.len() - i,
        {
            if seen[i] == current {
                repeated = true;
            }
            i += 1;
        }
        proof {
            assert(repeated == seen@.contains(current));
        }
        if repeated {
            return current;
        }
        let next = match use_targets.get(&current) {
            Some(Some(t)) => *t,
            _ => {
                return current;
            },
        };
        proof {
            let fuel = (m.dom().len() - seen_set.len() + 1) as nat;
            let s2 = seen_set.insert(current);
            assert(s2.len() == seen_set.len() + 1);
            vstd::set_lib::lemma_len_subset(s2, m.dom());
            assert(chase(m, current, seen_set, fuel) == chase(m, next, s2, (fuel - 1) as nat));
            seen_set = s2;
            seen@.lemma_push_to_set_commute(current);
        }
        seen.push(current);
        current = next;
    }
}

/// Whether path `a` ranks strictly before path `b`: fewer `::` segments,
/// then shorter text, then smaller text.
pub open spec fn rank_lt(a: Seq<char>, b: Seq<char>) -> bool {
    let ca = segment_count(split(a, "::"@));
    let cb = segment_count(split(b, "::"@));
    ca < cb || (ca == cb && (a.len() < b.len() || (a.len() == b.len() && lex_lt(a, b))))
}

/// `rank_lt` is a strict order.
pub proof fn lemma_rank_order(a: Seq<char>, b: Seq<char>, c: Seq<char>)
    ensures
        !rank_lt(a, a),
        rank_lt(a, b) && rank_lt(b, c) ==> rank_lt(a, c),
        rank_lt(a, b) ==> !rank_lt(b, a),
        a != b ==> rank_lt(a, b) || rank_lt(b, a),
{
    lemma_lex_irreflexive(a);
    if rank_lt(a, b) && rank_lt(b, c) && lex_lt(a, b) && lex_lt(b, c) {
        lemma_lex_transitive(a, b, c);
    }
    if lex_lt(a, b) {
        lemma_lex_asymmetric(a, b);
    }
    if a != b {
        lemma_lex_total(a, b);
    }
}

fn rank_less(a: &String, b: &String) -> (r: bool)
    ensures
        r == rank_lt(a@, b@),
{
    let ra = path_rank(a.as_str());
    let rb = path_rank(b.as_str());
    if ra.0 != rb.0 {
        ra.0 < rb.0
    } else if ra.1 != rb.1 {
        ra.1 < rb.1
    } else {
        lex_less(&chars_of_string(a), &chars_of_string(b))
    }
}

/// The paths of a map, as plain values.
pub open spec fn paths_view(c: Map<u32, String>) -> Map<u32, Seq<char>> {
    c.map_values(|s: String| s@)
}

/// Whether a `use` item can lend its path to the item it re-exports: it is
/// public, not a glob, has a target, and has a path of its own.
pub open spec fn lends_path(c: Map<u32, Seq<char>>, u: UseEntry) -> bool {
    u.is_public && !u.is_glob && u.target is Some && c.dom().contains(u.id)
}

/// One re-export considered: its target takes the re-export's path when it
/// has none yet or when that path ranks before the one it has.
pub open spec fn canonical_step(c: Map<u32, Seq<char>>, m: Map<u32, Option<u32>>, u: UseEntry) -> Map<
    u32,
    Seq<char>,
> {
    if !lends_path(c, u) {
        c
    } else {
        let t = resolved_target(m, u.target->0);
        let alias = c[u.id];
        if !c.dom().contains(t) || rank_lt(alias, c[t]) {
            c.insert(t, alias)
        } else {
            c
        }
    }
}

/// The canonical paths after considering the re-exports in order.
pub open spec fn canonical_fold(c0: Map<u32, Seq<char>>, m: Map<u32, Option<u32>>, uses: Seq<UseEntry>) -> Map<
    u32,
    Seq<char>,
>
    decreases uses.len(),
{
    if uses.len() == 0 {
        c0
    } else {
        canonical_step(canonical_fold(c0, m, uses.drop_last()), m, uses.last())
    }
}

/// Builds the canonical path of every item: the documented path of each
/// item, replaced by the path of a public, non-glob re-export of it that
/// ranks before (see [`rank_lt`]), considering the re-exports in order.
pub fn build_canonical_path_map(
    paths: HashMap<u32, String>,
    uses: &Vec<UseEntry>,
    use_targets: &HashMap<u32, Option<u32>>,
) -> (out: HashMap<u32, String>)
    ensures
        paths_view(out@) == canonical_fold(paths_view(paths@), use_targets@, uses@),
{
    let ghost c0 = paths_view(paths@);
    let mut canonical = paths;
    let mut k: usize = 0;
    while k < uses.len()
        invariant
            k <= uses.len(),
            paths_view(canonical@) == canonical_fold(c0, use_targets@, uses@.take(k as int)),
        decreases uses.len() - k,
    {
        let u = uses[k];
        proof {
            assert(uses@.take(k + 1).drop_last() =~= uses@.take(k as int));
            assert(uses@.take(k + 1).last() == u);
        }
        let ghost before = paths_view(canonical@);
        if u.is_public && !u.is_glob {
            match u.target {
                Some(target) => {
                    let alias = match canonical.get(&u.id) {
                        Some(a) => Some(a.clone()),
                        None => None,
                    };
                    match alias {
                        Some(alias) => {
                            let resolved = resolve_use_target_id(target, use_targets);
                            let replace = match canonical.get(&resolved) {
                                Some(existing) => rank_less(&alias, existing),
                                None => true,
                            };
                            if replace {
                                canonical.insert(resolved, alias);
                                proof {
                                    assert(paths_view(canonical@) =~= before.insert(resolved, alias@));
                                }
                            }
                        },
                        None => {},
                    }
                },
                None => {},
            }
        }
        k += 1;
    }
    proof {
        assert(uses@.take(uses@.len() as int) =~= uses@);
    }
    canonical
}

/// `b` ranks at least as well as `a`: `a` does not rank before `b`.
pub open spec fn rank_le(b: Seq<char>, a: Seq<char>) -> bool {
    !rank_lt(a, b)
}

proof fn lemma_rank_le_trans(a: Seq<char>, b: Seq<char>, c: Seq<char>)
    requires
        rank_le(b, a),
        rank_le(c, b),
    ensures
        rank_le(c, a),
{
    lemma_rank_order(a, b, c);
    lemma_rank_order(b, c, a);
    lemma_rank_order(c, a, b);
    lemma_rank_order(a, c, b);
    lemma_rank_order(b, a, c);
    lemma_rank_order(c, b, a);
}

proof fn lemma_step_improves(c: Map<u32, Seq<char>>, m: Map<u32, Option<u32>>, u: UseEntry)
    ensures
        forall|t: u32|
            c.dom().contains(t) ==> canonical_step(c, m, u).dom().contains(t) && #[trigger] rank_le(
                canonical_step(c, m, u)[t],
                c[t],
            ),
        forall|x: u32|
            c.dom().contains(x) && (u.target is None || x != resolved_target(m, u.target->0))
                ==> canonical_step(c, m, u)[x] == c[x],
{
    let n = canonical_step(c, m, u);
    assert forall|t: u32| c.dom().contains(t) implies n.dom().contains(t) && #[trigger] rank_le(n[t], c[t]) by {
        lemma_rank_order(c[t], c[t], c[t]);
        if lends_path(c, u) {
            let r = resolved_target(m, u.target->0);
            let alias = c[u.id];
            if t == r && rank_lt(alias, c[t]) {
                lemma_rank_order(alias, c[t], alias);
            }
        }
    }
}

proof fn lemma_fold_take(c0: Map<u32, Seq<char>>, m: Map<u32, Option<u32>>, uses: Seq<UseEntry>, n: int)
    requires
        0 <= n < uses.len(),
    ensures
        canonical_fold(c0, m, uses.take(n + 1)) == canonical_step(
            canonical_fold(c0, m, uses.take(n)),
            m,
            uses[n],
        ),
{
    assert(uses.take(n + 1).drop_last() =~= uses.take(n));
    assert(uses.take(n + 1).last() == uses[n]);
}

pub(crate) proof fn lemma_fold_improves(
    c0: Map<u32, Seq<char>>,
    m: Map<u32, Option<u32>>,
    uses: Seq<UseEntry>,
    a: int,
    b: int,
    t: u32,
)
    requires
        0 <= a <= b <= uses.len(),
        canonical_fold(c0, m, uses.take(a)).dom().contains(t),
    ensures
        canonical_fold(c0, m, uses.take(b)).dom().contains(t),
        rank_le(canonical_fold(c0, m, uses.take(b))[t], canonical_fold(c0, m, uses.take(a))[t]),
    decreases b - a,
{
    let fa = canonical_fold(c0, m, uses.take(a));
    if a == b {
        lemma_rank_order(fa[t], fa[t], fa[t]);
    } else {
        lemma_fold_improves(c0, m, uses, a, b - 1, t);
        lemma_fold_take(c0, m, uses, b - 1);
        let prev = canonical_fold(c0, m, uses.take(b - 1));
        lemma_step_improves(prev, m, uses[b - 1]);
        assert(rank_le(canonical_step(prev, m, uses[b - 1])[t], prev[t]));
        lemma_rank_le_trans(fa[t], prev[t], canonical_fold(c0, m, uses.take(b))[t]);
    }
}

proof fn lemma_source_kept(
    c0: Map<u32, Seq<char>>,
    m: Map<u32, Option<u32>>,
    uses: Seq<UseEntry>,
    n: int,
    id: u32,
)
    requires
        0 <= n <= uses.len(),
        c0.dom().contains(id),
        forall|j: int|
            0 <= j < uses.len() && uses[j].target is Some ==> resolved_target(
                m,
                uses[j].target->0,
            ) != id,
    ensures
        canonical_fold(c0, m, uses.take(n)).dom().contains(id),
        canonical_fold(c0, m, uses.take(n))[id] == c0[id],
    decreases n,
{
    if n == 0 {
        assert(uses.take(0) =~= Seq::<UseEntry>::empty());
    } else {
        lemma_source_kept(c0, m, uses, n - 1, id);
        lemma_fold_take(c0, m, uses, n - 1);
        lemma_step_improves(canonical_fold(c0, m, uses.take(n - 1)), m, uses[n - 1]);
    }
}

/// A re-export's path, and an item's own documented path, are never
/// better ranked than the canonical path chosen for the item: the chosen
/// path is the best-ranked one among them. (Stated for re-exports whose
/// own id is not itself the target of a re-export.)
pub proof fn law_canonical_path_is_best_ranked(
    c0: Map<u32, Seq<char>>,
    m: Map<u32, Option<u32>>,
    uses: Seq<UseEntry>,
    k: int,
)
    requires
        0 <= k < uses.len(),
        lends_path(c0, uses[k]),
        forall|j: int|
            0 <= j < uses.len() && uses[j].target is Some ==> resolved_target(
                m,
                uses[j].target->0,
            ) != uses[k].id,
    ensures
        ({
            let t = resolved_target(m, uses[k].target->0);
            let out = canonical_fold(c0, m, uses);
            &&& out.dom().contains(t)
            &&& rank_le(out[t], c0[uses[k].id])
            &&& c0.dom().contains(t) ==> rank_le(out[t], c0[t])
        }),
{
    let u = uses[k];
    let t = resolved_target(m, u.target->0);
    let n = uses.len() as int;
    assert(uses.take(n) =~= uses);
    lemma_source_kept(c0, m, uses, k, u.id);
    let fk = canonical_fold(c0, m, uses.take(k));
    lemma_fold_take(c0, m, uses, k);
    let fk1 = canonical_fold(c0, m, uses.take(k + 1));
    assert(lends_path(fk, u));
    assert(fk1.dom().contains(t) && rank_le(fk1[t], c0[u.id])) by {
        lemma_rank_order(c0[u.id], c0[u.id], c0[u.id]);
        if fk.dom().contains(t) && !rank_lt(c0[u.id], fk[t]) {
            lemma_rank_order(c0[u.id], fk[t], c0[u.id]);
        }
    }
    lemma_fold_improves(c0, m, uses, k + 1, n, t);
    lemma_rank_le_trans(c0[u.id], fk1[t], canonical_fold(c0, m, uses)[t]);
    if c0.dom().contains(t) {
        assert(uses.take(0) =~= Seq::<UseEntry>::empty());
        lemma_fold_improves(c0, m, uses, 0, n, t);
    }
}

} // verus!
