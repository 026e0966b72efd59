//! Unsafe and concurrency hotspots in crate source text.
use vstd::prelude::*;
use crate::text::{
    chars_of, chars_of_string, contains, contains_chars, lines, lines_of, lit, lower, lower_chars,
    string_of, sub_chars, trim, trim_chars, views,
};
use crate::sorted::{lex_less, lex_lt};
use crate::error_types::ConfidenceLevel;

verus! {

/// What a hotspot pattern indicates.
#[derive(Clone, Copy, Debug, PartialEq, Eq, Structural)]
pub enum HotspotKind {
    /// Raw pointers, `unsafe` blocks, FFI.
    Unsafe,
    /// Shared-state synchronization primitives.
    Concurrency,
}

/// How much attention a hotspot deserves.
#[derive(Clone, Copy, Debug, PartialEq, Eq, Structural)]
pub enum HotspotSeverity {
    /// Needs review.
    High,
    /// Worth a look.
    Medium,
    /// Informational.
    Low,
}

/// A text pattern that marks a hotspot.
#[derive(Clone, Copy, Debug)]
pub struct HotspotPattern {
    /// Kind of hotspot the pattern marks.
    pub kind: HotspotKind,
    /// Text searched for, ASCII case-insensitively.
    pub text: &'static str,
    /// Severity of a match.
    pub severity: HotspotSeverity,
}

/// One hotspot found in a source file.
#[derive(Clone, Debug)]
pub struct CrateHotspotHit {
    /// Path of the source file.
    pub path: String,
    /// 1-based line number.
    pub line: u32,
    /// Kind of the matched pattern.
    pub kind: HotspotKind,
    /// The matched pattern's text.
    pub pattern: String,
    /// Severity of the matched pattern.
    pub severity: HotspotSeverity,
    /// The trimmed line, at most 220 characters.
    pub snippet: String,
}

/// Sort key of a severity: `High` first.
pub open spec fn severity_rank_spec(severity: HotspotSeverity) -> u8 {
    match severity {
        HotspotSeverity::High => 0,
        HotspotSeverity::Medium => 1,
        HotspotSeverity::Low => 2,
    }
}

/// Sort key of a severity: `High` (0) before `Medium` (1) before `Low` (2).
pub fn severity_rank(severity: HotspotSeverity) -> (r: u8)
    ensures
        r == severity_rank_spec(severity),
{
    match severity {
        HotspotSeverity::High => 0,
        HotspotSeverity::Medium => 1,
        HotspotSeverity::Low => 2,
    }
}

/// A pattern as plain values.
pub type PatternView = (HotspotKind, Seq<char>, HotspotSeverity);

/// The view of a pattern.
pub open spec fn pattern_view(p: HotspotPattern) -> PatternView {
    (p.kind, p.text@, p.severity)
}

/// The views of a list of patterns.
pub open spec fn pattern_views(v: Seq<HotspotPattern>) -> Seq<PatternView> {
    v.map_values(|p: HotspotPattern| pattern_view(p))
}

/// The unsafe-code patterns.
pub open spec fn unsafe_patterns() -> Seq<PatternView> {
    seq![
        (HotspotKind::Unsafe, "unsafe"@, HotspotSeverity::High),
        (HotspotKind::Unsafe, "extern \"C\""@, HotspotSeverity::High),
        (HotspotKind::Unsafe, "*const"@, HotspotSeverity::High),
        (HotspotKind::Unsafe, "*mut"@, HotspotSeverity::High),
        (HotspotKind::Unsafe, "UnsafeCell"@, HotspotSeverity::Medium),
    ]
}

/// The concurrency patterns.
pub open spec fn concurrency_patterns() -> Seq<PatternView> {
    seq![
        (HotspotKind::Concurrency, "std::sync"@, HotspotSeverity::Medium),
        (HotspotKind::Concurrency, "Mutex"@, HotspotSeverity::Medium),
        (HotspotKind::Concurrency, "RwLock"@, HotspotSeverity::Medium),
        (HotspotKind::Concurrency, "Atomic"@, HotspotSeverity::Medium),
        (HotspotKind::Concurrency, "channel("@, HotspotSeverity::Low),
        (HotspotKind::Concurrency, "parking_lot"@, HotspotSeverity::Medium),
    ]
}

/// The patterns searched for, given which families are enabled.
pub open spec fn pattern_table(include_unsafe: bool, include_concurrency: bool) -> Seq<PatternView> {
    (if include_unsafe {
        unsafe_patterns()
    } else {
        seq![]
    }) + (if include_concurrency {
        concurrency_patterns()
    } else {
        seq![]
    })
}

fn pat(kind: HotspotKind, text: &'static str, severity: HotspotSeverity) -> (p: HotspotPattern)
    ensures
        pattern_view(p) == (kind, text@, severity),
{
    HotspotPattern { kind, text, severity }
}

/// The hotspot patterns: unsafe-code patterns, then concurrency patterns,
/// each family only when enabled.
pub fn hotspot_patterns(include_unsafe: bool, include_concurrency: bool) -> (out: Vec<
    HotspotPattern,
>)
    ensures
        pattern_views(out@) == pattern_table(include_unsafe, include_concurrency),
{
    let mut out: Vec<HotspotPattern> = Vec::new();
    if include_unsafe {
        out.push(pat(HotspotKind::Unsafe, "unsafe", HotspotSeverity::High));
        out.push(pat(HotspotKind::Unsafe, "extern \"C\"", HotspotSeverity::High));
        out.push(pat(HotspotKind::Unsafe, "*const", HotspotSeverity::High));
        out.push(pat(HotspotKind::Unsafe, "*mut", HotspotSeverity::High));
        out.push(pat(HotspotKind::Unsafe, "UnsafeCell", HotspotSeverity::Medium));
    }
    let ghost mid = pattern_views(out@);
    proof {
        if include_unsafe {
            assert(mid =~= unsafe_patterns());
        } else {
            assert(mid =~= Seq::<PatternView>::empty());
        }
    }
    if include_concurrency {
        out.push(pat(HotspotKind::Concurrency, "std::sync", HotspotSeverity::Medium));
        out.push(pat(HotspotKind::Concurrency, "Mutex", HotspotSeverity::Medium));
        out.push(pat(HotspotKind::Concurrency, "RwLock", HotspotSeverity::Medium));
        out.push(pat(HotspotKind::Concurrency, "Atomic", HotspotSeverity::Medium));
        out.push(pat(HotspotKind::Concurrency, "channel(", HotspotSeverity::Low));
        out.push(pat(HotspotKind::Concurrency, "parking_lot", HotspotSeverity::Medium));
    }
    proof {
        if include_concurrency {
            assert(pattern_views(out@) =~= mid + concurrency_patterns());
        } else {
            assert(pattern_views(out@) =~= mid);
        }
    }
    out
}

/// The patterns that match `line` (ASCII case-insensitively), each pattern
/// text reported once, scanning the patterns from index `k` with the texts in
/// `emitted` already reported.
pub open spec fn line_matches(
    line: Seq<char>,
    pats: Seq<PatternView>,
    k: int,
    emitted: Set<Seq<char>>,
) -> Seq<PatternView>
    decreases pats.len() - k,
{
    if k < 0 || k >= pats.len() {
        seq![]
    } else if contains(lower(line), lower(pats[k].1)) && !emitted.contains(pats[k].1) {
        seq![pats[k]] + line_matches(line, pats, k + 1, emitted.insert(pats[k].1))
    } else {
        line_matches(line, pats, k + 1, emitted)
    }
}

/// A hit as plain values: path, line, kind, pattern, severity, snippet.
pub type HitView = (Seq<char>, u32, HotspotKind, Seq<char>, HotspotSeverity, Seq<char>);

/// The view of a hit.
pub open spec fn hit_view(h: CrateHotspotHit) -> HitView {
    (h.path@, h.line, h.kind, h.pattern@, h.severity, h.snippet@)
}

/// The views of a list of hits.
pub open spec fn hit_views(v: Seq<CrateHotspotHit>) -> Seq<HitView> {
    v.map_values(|h: CrateHotspotHit| hit_view(h))
}

/// At most the first 220 characters of `s`.
pub open spec fn snippet_of(s: Seq<char>) -> Seq<char> {
    if s.len() <= 220 {
        s
    } else {
        s.take(220)
    }
}

/// The hits of one line: nothing for a blank line, else one per matching pattern text.
pub open spec fn line_hits(path: Seq<char>, index: int, line: Seq<char>, pats: Seq<PatternView>) -> Seq<
    HitView,
> {
    if trim(line).len() == 0 {
        seq![]
    } else {
        line_matches(line, pats, 0, Set::empty()).map_values(
            |p: PatternView| (path, (index + 1) as u32, p.0, p.1, p.2, snippet_of(trim(line))),
        )
    }
}

/// The hits of the lines `ls[i..]`.
pub open spec fn file_hits_from(
    path: Seq<char>,
    ls: Seq<Seq<char>>,
    i: int,
    pats: Seq<PatternView>,
) -> Seq<HitView>
    decreases ls.len() - i,
{
    if i < 0 || i >= ls.len() {
        seq![]
    } else {
        line_hits(path, i, ls[i], pats) + file_hits_from(path, ls, i + 1, pats)
    }
}

/// The hotspot hits of a file, line by line, in pattern order.
pub open spec fn file_hits(path: Seq<char>, content: Seq<char>, pats: Seq<PatternView>) -> Seq<
    HitView,
> {
    file_hits_from(path, lines(content), 0, pats)
}

fn set_contains_text(emitted: &Vec<Vec<char>>, t: &Vec<char>) -> (b: bool)
    ensures
        b == views(emitted@).contains(t@),
{
    crate::sorted::contains_seq(emitted, t)
}

/// Scans every non-blank line of `content` for every pattern (ASCII
/// case-insensitively) and reports each `(line, pattern text)` pair once.
pub fn detect_hotspots_in_file(path: &str, content: &str, patterns: &[HotspotPattern]) -> (hits: Vec<
    CrateHotspotHit,
>)
    ensures
        hit_views(hits@) == file_hits(path@, content@, pattern_views(patterns@)),
{
    let ghost pats = pattern_views(patterns@);
    let content_chars = chars_of(content);
    let ls = lines_of(&content_chars);
    let ghost lv = views(ls@);
    let mut hits: Vec<CrateHotspotHit> = Vec::new();
    let mut li: usize = 0;
    while li < ls.len()
        invariant
            li <= ls.len(),
            lv == views(ls@),
            lv == lines(content@),
            pats == pattern_views(patterns@),
            hit_views(hits@) + file_hits_from(path@, lv, li as int, pats) == file_hits(
                path@,
                content@,
                pats,
            ),
        decreases ls.len() - li,
    {
        let line = &ls[li];
        let trimmed = trim_chars(line);
        let ghost before = hit_views(hits@);
        if trimmed.len() > 0 {
            let line_lower = lower_chars(line);
            let snippet = if trimmed.len() <= 220 {
                sub_chars(&trimmed, 0, trimmed.len())
            } else {
                sub_chars(&trimmed, 0, 220)
            };
            let ghost line_v = line@;
            let ghost sv = snippet_of(trim(line_v));
            assert(snippet@ =~= sv);
            let line_number: u32 = (li as u64 + 1) as u32;
            let ghost f = |p: PatternView|
                (path@, (li + 1) as u32, p.0, p.1, p.2, sv);
            let mut emitted: Vec<Vec<char>> = Vec::new();
            let ghost mut found: Seq<PatternView> = seq![];
            proof {
                assert(views(emitted@).to_set() =~= Set::<Seq<char>>::empty());
                assert(found.map_values(|p: PatternView| p.1).to_set() =~= Set::<Seq<char>>::empty());
                assert(found + line_matches(line_v, pats, 0, Set::empty()) =~= line_matches(
                    line_v,
                    pats,
                    0,
                    Set::empty(),
                ));
                assert(found.map_values(f) =~= Seq::<HitView>::empty());
                assert(hit_views(hits@) =~= before + found.map_values(f));
            }
            let mut k: usize = 0;
            while k < patterns.len()
                invariant
                    k <= patterns.len(),
                    pats == pattern_views(patterns@),
                    line_lower@ == lower(line_v),
                    snippet@ == sv,
                    line_number == (li + 1) as u32,
                    f == (|p: PatternView| (path@, (li + 1) as u32, p.0, p.1, p.2, sv)),
                    views(emitted@).to_set() == found.map_values(|p: PatternView| p.1).to_set(),
                    found + line_matches(line_v, pats, k as int, views(emitted@).to_set())
                        == line_matches(line_v, pats, 0, Set::empty()),
                    hit_views(hits@) == before + found.map_values(f),
                decreases patterns.len() - k,
            {
                let p = patterns[k];
                let text = chars_of(p.text);
                let text_lower = lower_chars(&text);
                let ghost es = views(emitted@).to_set();
                proof {
                    assert(pats[k as int] == pattern_view(p));
                    assert(text@ == pats[k as int].1);
                }
                if contains_chars(&line_lower, &text_lower) && !set_contains_text(&emitted, &text) {
                    let hit = CrateHotspotHit {
                        path: string_of(&chars_of(path)),
                        line: line_number,
                        kind: p.kind,
                        pattern: string_of(&text),
                        severity: p.severity,
                        snippet: string_of(&snippet),
                    };
                    let ghost pv = pattern_view(p);
                    let ghost hb = hits@;
                    let ghost eb = emitted@;
                    proof {
                        assert(hit_view(hit) == f(pv));
                    }
                    hits.push(hit);
                    emitted.push(text);
                    proof {
                        assert(hit_views(hits@) =~= hit_views(hb).push(f(pv)));
                        assert(found.push(pv).map_values(f) =~= found.map_values(f).push(f(pv)));
                        assert(views(emitted@) =~= views(eb).push(pv.1));
                        views(eb).lemma_push_to_set_commute(pv.1);
                        assert(found.push(pv).map_values(|p: PatternView| p.1) =~= found.map_values(
                            |p: PatternView| p.1,
                        ).push(pv.1));
                        found.map_values(|p: PatternView| p.1).lemma_push_to_set_commute(pv.1);
                        assert(found + line_matches(line_v, pats, k as int, es) =~= found.push(pv)
                            + line_matches(line_v, pats, k + 1, es.insert(pv.1)));
                        found = found.push(pv);
                    }
                } else {
                    proof {
                        assert(line_matches(line_v, pats, k as int, es) == line_matches(
                            line_v,
                            pats,
                            k + 1,
                            es,
                        ));
                    }
                }
                k += 1;
            }
            proof {
                assert(line_matches(line_v, pats, k as int, views(emitted@).to_set()) =~= seq![]);
                assert(found =~= line_matches(line_v, pats, 0, Set::empty()));
                assert(line_hits(path@, li as int, lv[li as int], pats) =~= found.map_values(f));
                assert(hit_views(hits@) + file_hits_from(path@, lv, li + 1, pats) =~= before
                    + file_hits_from(path@, lv, li as int, pats));
            }
        } else {
            proof {
                assert(line_hits(path@, li as int, lv[li as int], pats) =~= seq![]);
                assert(file_hits_from(path@, lv, li as int, pats) =~= file_hits_from(
                    path@,
                    lv,
                    li + 1,
                    pats,
                ));
            }
        }
        li += 1;
    }
    proof {
        assert(file_hits_from(path@, lv, li as int, pats) =~= seq![]);
    }
    hits
}

proof fn lemma_line_matches_distinct(
    line: Seq<char>,
    pats: Seq<PatternView>,
    k: int,
    emitted: Set<Seq<char>>,
)
    ensures
        forall|a: int, b: int|
            0 <= a < b < line_matches(line, pats, k, emitted).len() ==> line_matches(
                line,
                pats,
                k,
                emitted,
            )[a].1 != line_matches(line, pats, k, emitted)[b].1,
        forall|a: int|
            0 <= a < line_matches(line, pats, k, emitted).len() ==> !emitted.contains(
                #[trigger] line_matches(line, pats, k, emitted)[a].1,
            ),
    decreases pats.len() - k,
{
    if k < 0 || k >= pats.len() {
    } else if contains(lower(line), lower(pats[k].1)) && !emitted.contains(pats[k].1) {
        let e2 = emitted.insert(pats[k].1);
        lemma_line_matches_distinct(line, pats, k + 1, e2);
        let rest = line_matches(line, pats, k + 1, e2);
        let all = line_matches(line, pats, k, emitted);
        assert(all == seq![pats[k]] + rest);
        assert forall|a: int| 0 <= a < all.len() implies !emitted.contains(#[trigger] all[a].1) by {
            if a > 0 {
                assert(all[a] == rest[a - 1]);
                assert(!e2.contains(rest[a - 1].1));
            }
        }
        assert forall|a: int, b: int| 0 <= a < b < all.len() implies all[a].1 != all[b].1 by {
            assert(all[b] == rest[b - 1]);
            if a == 0 {
                assert(!e2.contains(rest[b - 1].1));
            } else {
                assert(all[a] == rest[a - 1]);
            }
        }
    } else {
        lemma_line_matches_distinct(line, pats, k + 1, emitted);
        assert(line_matches(line, pats, k, emitted) == line_matches(line, pats, k + 1, emitted));
    }
}

proof fn lemma_file_hits_from_unique(path: Seq<char>, ls: Seq<Seq<char>>, i: int, pats: Seq<PatternView>)
    requires
        0 <= i,
        ls.len() < u32::MAX,
    ensures
        forall|a: int|
            0 <= a < file_hits_from(path, ls, i, pats).len() ==> i + 1 <= #[trigger] file_hits_from(
                path,
                ls,
                i,
                pats,
            )[a].1 <= ls.len(),
        forall|a: int, b: int|
            0 <= a < b < file_hits_from(path, ls, i, pats).len() ==> (
                file_hits_from(path, ls, i, pats)[a].1,
                file_hits_from(path, ls, i, pats)[a].3,
            ) != (file_hits_from(path, ls, i, pats)[b].1, file_hits_from(path, ls, i, pats)[b].3),
    decreases ls.len() - i,
{
    if i >= ls.len() {
    } else {
        lemma_file_hits_from_unique(path, ls, i + 1, pats);
        let here = line_hits(path, i, ls[i], pats);
        let rest = file_hits_from(path, ls, i + 1, pats);
        let all = file_hits_from(path, ls, i, pats);
        assert(all == here + rest);
        let ms = line_matches(ls[i], pats, 0, Set::empty());
        lemma_line_matches_distinct(ls[i], pats, 0, Set::empty());
        assert forall|a: int| 0 <= a < here.len() implies #[trigger] here[a].1 == (i + 1) as u32
            && here[a].3 == ms[a].1 by {
        }
        assert forall|a: int| 0 <= a < all.len() implies i + 1 <= #[trigger] all[a].1 <= ls.len() by {
            if a < here.len() {
                assert(all[a] == here[a]);
                assert(all[a].1 == (i + 1) as u32);
            } else {
                assert(all[a] == rest[a - here.len()]);
            }
        }
        assert forall|a: int, b: int| 0 <= a < b < all.len() implies (all[a].1, all[a].3) != (
            all[b].1,
            all[b].3,
        ) by {
            if b < here.len() {
                assert(all[a] == here[a] && all[b] == here[b]);
            } else if a < here.len() {
                assert(all[a] == here[a]);
                assert(all[b] == rest[b - here.len()]);
                assert(rest[b - here.len()].1 >= i + 2);
            } else {
                assert(all[a] == rest[a - here.len()]);
                assert(all[b] == rest[b - here.len()]);
            }
        }
    }
}

/// A file never yields two hits for the same pattern text on the same
/// line (for files of fewer than `u32::MAX` lines, whose line numbers are
/// all distinct).
pub proof fn law_hits_unique_per_line_and_pattern(
    path: Seq<char>,
    content: Seq<char>,
    pats: Seq<PatternView>,
)
    requires
        lines(content).len() < u32::MAX,
    ensures
        forall|a: int, b: int|
            0 <= a < b < file_hits(path, content, pats).len() ==> (
                file_hits(path, content, pats)[a].1,
                file_hits(path, content, pats)[a].3,
            ) != (file_hits(path, content, pats)[b].1, file_hits(path, content, pats)[b].3),
{
    lemma_file_hits_from_unique(path, lines(content), 0, pats);
}

/// Whether hit `a` sorts strictly before hit `b`: by severity (`High`
/// first), then path, then line, then pattern text.
#[verifier::opaque]
pub open spec fn hit_key_lt(a: HitView, b: HitView) -> bool {
    let ra = severity_rank_spec(a.4);
    let rb = severity_rank_spec(b.4);
    ra < rb || (ra == rb && (lex_lt(a.0, b.0) || (a.0 == b.0 && (a.1 < b.1 || (a.1 == b.1
        && lex_lt(a.3, b.3))))))
}

/// An order of the hits, by index, as a stable sort produces it: each
/// index once, and each consecutive pair either strictly ordered by key or
/// tied and in their input order.
pub open spec fn is_stable_hit_order(hv: Seq<HitView>, order: Seq<usize>) -> bool {
    &&& order.len() == hv.len()
    &&& order.no_duplicates()
    &&& forall|k: int| 0 <= k < order.len() ==> order[k] < hv.len()
    &&& forall|k: int|
        0 <= k < order.len() - 1 ==> hit_key_lt(hv[#[trigger] order[k] as int], hv[order[k + 1] as int])
            || (!hit_key_lt(hv[order[k + 1] as int], hv[order[k] as int]) && order[k] < order[k + 1])
}

fn hit_less(a: &CrateHotspotHit, b: &CrateHotspotHit) -> (r: bool)
    ensures
        r == hit_key_lt(hit_view(*a), hit_view(*b)),
{
    reveal(hit_key_lt);
    let ra = severity_rank(a.severity);
    let rb = severity_rank(b.severity);
    if ra != rb {
        return ra < rb;
    }
    let pa = chars_of_string(&a.path);
    let pb = chars_of_string(&b.path);
    if lex_less(&pa, &pb) {
        return true;
    }
    if !crate::text::chars_eq(&pa, &pb) {
        return false;
    }
    if a.line != b.line {
        return a.line < b.line;
    }
    lex_less(&chars_of_string(&a.pattern), &chars_of_string(&b.pattern))
}

/// The order in which hits are reported: a stable sort by severity, path,
/// line and pattern.
pub fn hotspot_order(hits: &Vec<CrateHotspotHit>) -> (out: Vec<usize>)
    ensures
        is_stable_hit_order(hit_views(hits@), out@),
{
    let ghost hv = hit_views(hits@);
    let mut out: Vec<usize> = Vec::new();
    let mut i: usize = 0;
    while i < hits.len()
        invariant
            i <= hits.len(),
            hv == hit_views(hits@),
            out@.len() == i,
            out@.no_duplicates(),
            forall|k: int| 0 <= k < out@.len() ==> out@[k] < i,
            forall|k: int|
                0 <= k < out@.len() - 1 ==> hit_key_lt(hv[#[trigger] out@[k] as int], hv[out@[k + 1] as int])
                    || (!hit_key_lt(hv[out@[k + 1] as int], hv[out@[k] as int]) && out@[k] < out@[k + 1]),
        decreases hits.len() - i,
    {
        let mut pos: usize = out.len();
        while pos > 0 && hit_less(&hits[i], &hits[out[pos - 1]])
            invariant
                pos <= out@.len(),
                out@.len() == i,
                i < hits.len(),
                hv == hit_views(hits@),
                forall|k: int| 0 <= k < out@.len() ==> out@[k] < i,
                pos < out@.len() ==> hit_key_lt(hv[i as int], hv[out@[pos as int] as int]),
            decreases pos,
        {
            pos -= 1;
        }
        let ghost old_out = out@;
        proof {
            if pos > 0 {
                assert(!hit_key_lt(hv[i as int], hv[old_out[pos - 1] as int]));
                assert(old_out[pos - 1] < i);
            }
        }
        out.insert(pos, i);
        proof {
            assert(out@ == old_out.insert(pos as int, i));
            assert forall|k: int| 0 <= k < out@.len() implies out@[k] < i + 1 by {
                if k < pos {
                    assert(out@[k] == old_out[k]);
                } else if k > pos {
                    assert(out@[k] == old_out[k - 1]);
                }
            }
            assert forall|a: int, b: int| 0 <= a < out@.len() && 0 <= b < out@.len() && a != b
                implies out@[a] != out@[b] by {
                if a != pos as int && b != pos as int {
                    let oa = if a < pos { a } else { a - 1 };
                    let ob = if b < pos { b } else { b - 1 };
                    assert(out@[a] == old_out[oa]);
                    assert(out@[b] == old_out[ob]);
                } else if a == pos as int {
                    let ob = if b < pos { b } else { b - 1 };
                    assert(out@[b] == old_out[ob]);
                } else {
                    let oa = if a < pos { a } else { a - 1 };
                    assert(out@[a] == old_out[oa]);
                }
            }
            assert forall|k: int| 0 <= k < out@.len() - 1 implies hit_key_lt(
                hv[#[trigger] out@[k] as int],
                hv[out@[k + 1] as int],
            ) || (!hit_key_lt(hv[out@[k + 1] as int], hv[out@[k] as int]) && out@[k] < out@[k + 1]) by {
                if k + 1 < pos {
                    assert(out@[k] == old_out[k] && out@[k + 1] == old_out[k + 1]);
                } else if k + 1 == pos {
                    assert(out@[k] == old_out[k] && out@[k + 1] == i);
                } else if k == pos {
                    assert(out@[k] == i && out@[k + 1] == old_out[k]);
                } else {
                    assert(out@[k] == old_out[k - 1] && out@[k + 1] == old_out[k]);
                }
            }
        }
        i += 1;
    }
    out
}

fn copy_hit(h: &CrateHotspotHit) -> (r: CrateHotspotHit)
    ensures
        hit_view(r) == hit_view(*h),
{
    CrateHotspotHit {
        path: h.path.clone(),
        line: h.line,
        kind: h.kind,
        pattern: h.pattern.clone(),
        severity: h.severity,
        snippet: h.snippet.clone(),
    }
}

/// The hits a hotspot report lists: sorted stably by severity, path, line
/// and pattern, and cut to the first `limit`.
pub fn rank_hotspots(hits: &Vec<CrateHotspotHit>, limit: u32) -> (out: Vec<CrateHotspotHit>)
    ensures
        exists|order: Seq<usize>|
            {
                &&& is_stable_hit_order(hit_views(hits@), order)
                &&& out@.len() == if hits@.len() <= limit {
                    hits@.len() as int
                } else {
                    limit as int
                }
                &&& forall|k: int|
                    0 <= k < out@.len() ==> hit_view(#[trigger] out@[k]) == hit_views(
                        hits@,
                    )[order[k] as int]
            },
{
    let order = hotspot_order(hits);
    let n: usize = if hits.len() <= limit as usize {
        hits.len()
    } else {
        limit as usize
    };
    let mut out: Vec<CrateHotspotHit> = Vec::new();
    let mut k: usize = 0;
    while k < n
        invariant
            k <= n <= hits.len(),
            order@.len() == hits@.len(),
            forall|j: int| 0 <= j < order@.len() ==> order@[j] < hits@.len(),
            out@.len() == k,
            forall|j: int|
                0 <= j < k ==> hit_view(#[trigger] out@[j]) == hit_views(hits@)[order@[j] as int],
        decreases n - k,
    {
        out.push(copy_hit(&hits[order[k]]));
        k += 1;
    }
    proof {
        assert(is_stable_hit_order(hit_views(hits@), order@));
    }
    out
}

/// Whether a hotspot request asks for at least one family of patterns.
pub fn hotspot_request_error(include_unsafe: bool, include_concurrency: bool) -> (r: Option<String>)
    ensures
        (include_unsafe || include_concurrency) ==> r is None,
        !(include_unsafe || include_concurrency) ==> (r matches Some(e) && e@
            == "at least one of include_unsafe/include_concurrency must be true"@),
{
    if !include_unsafe && !include_concurrency {
        Some(string_of(&lit("at least one of include_unsafe/include_concurrency must be true")))
    } else {
        None
    }
}

/// The confidence of a hotspot report: low with no source files scanned,
/// medium when nothing matched, high otherwise.
pub fn hotspots_confidence(scanned_files: usize, hits: usize) -> (r: (ConfidenceLevel, String))
    ensures
        scanned_files == 0 ==> r.0 == ConfidenceLevel::Low
            && r.1@ == "no source files were indexed for the selected version"@,
        scanned_files != 0 && hits == 0 ==> r.0 == ConfidenceLevel::Medium
            && r.1@ == "no hotspots matched configured lexical patterns"@,
        scanned_files != 0 && hits != 0 ==> r.0 == ConfidenceLevel::High
            && r.1@ == "hotspots derived from indexed source files with deterministic pattern matching"@,
{
    if scanned_files == 0 {
        (ConfidenceLevel::Low, string_of(&lit("no source files were indexed for the selected version")))
    } else if hits == 0 {
        (ConfidenceLevel::Medium, string_of(&lit("no hotspots matched configured lexical patterns")))
    } else {
        (
            ConfidenceLevel::High,
            string_of(&lit("hotspots derived from indexed source files with deterministic pattern matching")),
        )
    }
}

} // verus!
