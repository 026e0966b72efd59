//! Newest-first ordering of crate versions to process: versions that
//! `semver` parses come in descending order, the others by name.
use vstd::prelude::*;
use crate::sorted::{lex_less, lex_lt};
use crate::text::chars_of_string;
use crate::versions::{compare_versions, semver_order, SemVersion};

verus! {

/// The parsed versions as plain values.
pub open spec fn parsed_views(v: Seq<Option<SemVersion>>) -> Seq<Option<Seq<char>>> {
    v.map_values(|o: Option<SemVersion>|
        match o {
            Some(x) => Some(x@),
            None => None,
        })
}

/// Whether candidate `a` must come strictly before candidate `b`: a greater
/// version first; a parsed version before an unparsed one when
/// `unparsed_last` (after it otherwise); two unparsed ones by name.
pub open spec fn candidate_precedes(
    vs: Seq<Option<Seq<char>>>,
    keys: Seq<Seq<char>>,
    unparsed_last: bool,
    a: int,
    b: int,
) -> bool {
    match (vs[a], vs[b]) {
        (Some(x), Some(y)) => semver_order(y, x) < 0,
        (Some(_), None) => unparsed_last,
        (None, Some(_)) => !unparsed_last,
        (None, None) => lex_lt(keys[a], keys[b]),
    }
}

/// Consecutive candidates `a` then `b` are in order: `a` precedes `b`, or
/// neither precedes the other and `a` came first (the sort is stable).
pub open spec fn in_order(vs: Seq<Option<Seq<char>>>, keys: Seq<Seq<char>>, unparsed_last: bool, a: int, b: int) -> bool {
    candidate_precedes(vs, keys, unparsed_last, a, b) || (!candidate_precedes(
        vs,
        keys,
        unparsed_last,
        b,
        a,
    ) && a < b)
}

fn precedes(versions: &Vec<Option<SemVersion>>, keys: &Vec<String>, unparsed_last: bool, a: usize, b: usize) -> (r: bool)
    requires
        a < versions.len(),
        b < versions.len(),
        versions.len() == keys.len(),
    ensures
        r == candidate_precedes(
            parsed_views(versions@),
            keys@.map_values(|k: String| k@),
            unparsed_last,
            a as int,
            b as int,
        ),
{
    match (&versions[a], &versions[b]) {
        (Some(x), Some(y)) => compare_versions(y, x) < 0,
        (Some(_), None) => unparsed_last,
        (None, Some(_)) => !unparsed_last,
        (None, None) => lex_less(&chars_of_string(&keys[a]), &chars_of_string(&keys[b])),
    }
}

/// Orders candidates newest version first, by index: every index appears
/// once, and each consecutive pair is in order (see [`in_order`]).
pub fn newest_first_order(versions: &Vec<Option<SemVersion>>, keys: &Vec<String>, unparsed_last: bool) -> (out: Vec<usize>)
    requires
        versions.len() == keys.len(),
    ensures
        out@.len() == versions@.len(),
        out@.no_duplicates(),
        forall|k: int| 0 <= k < out@.len() ==> out@[k] < versions@.len(),
        forall|k: int|
            0 <= k < out@.len() - 1 ==> in_order(
                parsed_views(versions@),
                keys@.map_values(|k: String| k@),
                unparsed_last,
                #[trigger] out@[k] as int,
                out@[k + 1] as int,
            ),
{
    let ghost vs = parsed_views(versions@);
    let ghost ks = keys@.map_values(|k: String| k@);
    let mut out: Vec<usize> = Vec::new();
    let mut i: usize = 0;
    while i < versions.len()
        invariant
            i <= versions.len(),
            versions.len() == keys.len(),
            vs == parsed_views(versions@),
            ks == keys@.map_values(|k: String| k@),
            out@.len() == i,
            out@.no_duplicates(),
            forall|k: int| 0 <= k < out@.len() ==> out@[k] < i,
            forall|k: int|
                0 <= k < out@.len() - 1 ==> in_order(
                    vs,
                    ks,
                    unparsed_last,
                    #[trigger] out@[k] as int,
                    out@[k + 1] as int,
                ),
        decreases versions.len() - i,
    {
        let mut pos: usize = out.len();
        while pos > 0 && precedes(versions, keys, unparsed_last, i, out[pos - 1])
            invariant
                pos <= out@.len(),
                out@.len() == i,
                i < versions.len(),
                versions.len() == keys.len(),
                vs == parsed_views(versions@),
                ks == keys@.map_values(|k: String| k@),
                forall|k: int| 0 <= k < out@.len() ==> out@[k] < i,
                pos < out@.len() ==> candidate_precedes(vs, ks, unparsed_last, i as int, out@[pos as int] as int),
            decreases pos,
        {
            pos -= 1;
        }
        let ghost old_out = out@;
        proof {
            if pos > 0 {
                assert(!candidate_precedes(vs, ks, unparsed_last, i as int, old_out[pos - 1] as int));
                assert(old_out[pos - 1] < i);
            }
        }
        out.insert(pos, i);
        proof {
            assert(out@ == old_out.insert(pos as int, i));
            assert forall|k: int| 0 <= k < out@.len() implies out@[k] < i + 1 by {
                if k < pos {
                    assert(out@[k] == old_out[k]);
                } else if k > pos {
                    assert(out@[k] == old_out[k - 1]);
                }
            }
            assert forall|a: int, b: int| 0 <= a < out@.len() && 0 <= b < out@.len() && a != b
                implies out@[a] != out@[b] by {
                if a != pos as int && b != pos as int {
                    let oa = if a < pos { a } else { a - 1 };
                    let ob = if b < pos { b } else { b - 1 };
                    assert(out@[a] == old_out[oa]);
                    assert(out@[b] == old_out[ob]);
                } else if a == pos as int {
                    let ob = if b < pos { b } else { b - 1 };
                    assert(out@[b] == old_out[ob]);
                } else {
                    let oa = if a < pos { a } else { a - 1 };
                    assert(out@[a] == old_out[oa]);
                }
            }
            assert forall|k: int| 0 <= k < out@.len() - 1 implies in_order(
                vs,
                ks,
                unparsed_last,
                #[trigger] out@[k] as int,
                out@[k + 1] as int,
            ) by {
                if k + 1 < pos {
                    assert(out@[k] == old_out[k] && out@[k + 1] == old_out[k + 1]);
                } else if k + 1 == pos {
                    assert(out@[k] == old_out[k] && out@[k + 1] == i);
                } else if k == pos {
                    assert(out@[k] == i && out@[k + 1] == old_out[k]);
                } else {
                    assert(out@[k] == old_out[k - 1] && out@[k + 1] == old_out[k]);
                }
            }
        }
        i += 1;
    }
    out
}

} // verus!
