//! Security advisories: merging sync outcomes, naming advisories, describing
//! affected ranges, reading RustSec advisory files and deciding which
//! versions an advisory affects.
use vstd::prelude::*;
use crate::text::{
    append_chars, chars_of, chars_of_string, chars_to_strings, join, join_chars, lit, starts_with,
    starts_with_chars, str_views, string_of, strings_to_chars, views,
};
use crate::sorted::{insert_sorted, sort_dedup, strictly_sorted};
use crate::text::{first_occurrence, lines, lines_of, occurs_at, sub_chars, trim, trim_chars};
use vstd::string::StrSliceExecFns;
use crate::versions::{
    parse_version, parse_version_req, req_matches, semver_accepts, semver_req_accepts,
    semver_req_matches, SemVersion, SemVersionReq,
};

verus! {

/// Outcome of a security advisory synchronization.
#[derive(Debug, Default)]
pub struct SecuritySyncOutcome {
    /// Number of crates whose advisories were checked.
    pub crates_processed: usize,
    /// Number of advisory records written to the database.
    pub advisories_written: usize,
    /// Errors encountered during the sync, one per failed operation.
    pub errors: Vec<String>,
    /// Names of crates that had advisory data updated.
    pub touched_crates: Vec<String>,
}

impl SecuritySyncOutcome {
    /// Merges another outcome into this one: counts add up, errors are
    /// appended, and the touched crates become the sorted distinct union.
    pub fn merge(&mut self, other: SecuritySyncOutcome)
        requires
            old(self).crates_processed + other.crates_processed <= usize::MAX,
            old(self).advisories_written + other.advisories_written <= usize::MAX,
        ensures
            final(self).crates_processed == old(self).crates_processed + other.crates_processed,
            final(self).advisories_written == old(self).advisories_written
                + other.advisories_written,
            str_views(final(self).errors@) == str_views(old(self).errors@) + str_views(
                other.errors@,
            ),
            strictly_sorted(str_views(final(self).touched_crates@)),
            str_views(final(self).touched_crates@).to_set() == str_views(
                old(self).touched_crates@,
            ).to_set().union(str_views(other.touched_crates@).to_set()),
            merged_outcome(*old(self), other, *final(self)),
    {
        let mut other = other;
        self.crates_processed = self.crates_processed + other.crates_processed;
        self.advisories_written = self.advisories_written + other.advisories_written;
        let ghost e0 = self.errors@;
        let ghost e1 = other.errors@;
        self.errors.append(&mut other.errors);
        proof {
            assert(self.errors@ == e0 + e1);
            assert(str_views(self.errors@) =~= str_views(e0) + str_views(e1));
        }
        let mut all = strings_to_chars(self.touched_crates.as_slice());
        let more = strings_to_chars(other.touched_crates.as_slice());
        let ghost a0 = views(all@);
        let mut i: usize = 0;
        while i < more.len()
            invariant
                i <= more.len(),
                views(all@) == a0 + views(more@).take(i as int),
            decreases more.len() - i,
        {
            let x = more[i].clone();
            let ghost before = all@;
            all.push(x);
            proof {
                assert(views(all@) =~= views(before).push(x@));
                assert(views(more@).take(i + 1) =~= views(more@).take(i as int).push(x@));
            }
            i += 1;
        }
        let set = sort_dedup(&all);
        proof {
            assert(views(more@).take(more.len() as int) =~= views(more@));
            crate::sorted::lemma_concat_to_set(a0, views(more@));
        }
        self.touched_crates = chars_to_strings(&set);
    }
}

/// `after` is what merging `other` into `before` gives: counts added,
/// errors appended, touched crates the sorted distinct union.
pub open spec fn merged_outcome(
    before: SecuritySyncOutcome,
    other: SecuritySyncOutcome,
    after: SecuritySyncOutcome,
) -> bool {
    &&& after.crates_processed == before.crates_processed + other.crates_processed
    &&& after.advisories_written == before.advisories_written + other.advisories_written
    &&& str_views(after.errors@) == str_views(before.errors@) + str_views(other.errors@)
    &&& strictly_sorted(str_views(after.touched_crates@))
    &&& str_views(after.touched_crates@).to_set() == str_views(before.touched_crates@).to_set().union(
        str_views(other.touched_crates@).to_set(),
    )
}

/// Merging two outcomes in either order gives the same counts and the same
/// touched crates, and the same errors up to their order.
pub proof fn law_merge_commutes(
    x: SecuritySyncOutcome,
    y: SecuritySyncOutcome,
    xy: SecuritySyncOutcome,
    yx: SecuritySyncOutcome,
)
    requires
        merged_outcome(x, y, xy),
        merged_outcome(y, x, yx),
    ensures
        xy.crates_processed == yx.crates_processed,
        xy.advisories_written == yx.advisories_written,
        str_views(xy.touched_crates@) == str_views(yx.touched_crates@),
        str_views(xy.errors@).to_multiset() == str_views(yx.errors@).to_multiset(),
{
    let ex = str_views(x.errors@);
    let ey = str_views(y.errors@);
    vstd::seq_lib::lemma_multiset_commutative(ex, ey);
    vstd::seq_lib::lemma_multiset_commutative(ey, ex);
    assert(ex.to_multiset().add(ey.to_multiset()) =~= ey.to_multiset().add(ex.to_multiset()));
    let tx = str_views(x.touched_crates@).to_set();
    let ty = str_views(y.touched_crates@).to_set();
    assert(tx.union(ty) =~= ty.union(tx));
    crate::sorted::lemma_sorted_unique(str_views(xy.touched_crates@), str_views(yx.touched_crates@));
}

/// Summary of a full security sync run (all pages).
#[derive(Debug, Default)]
pub struct SecuritySyncRunOutcome {
    /// Total crates processed across all pages.
    pub crates_processed: usize,
    /// Total advisory records written.
    pub advisories_written: usize,
    /// Total errors encountered.
    pub errors: usize,
    /// Number of pages fetched.
    pub pages: usize,
}

impl SecuritySyncRunOutcome {
    /// Adds one page's counts to the run totals.
    pub fn accumulate(&mut self, page_outcome: &SecuritySyncOutcome)
        requires
            old(self).crates_processed + page_outcome.crates_processed <= usize::MAX,
            old(self).advisories_written + page_outcome.advisories_written <= usize::MAX,
            old(self).errors + page_outcome.errors@.len() <= usize::MAX,
            old(self).pages < usize::MAX,
        ensures
            final(self).crates_processed == old(self).crates_processed
                + page_outcome.crates_processed,
            final(self).advisories_written == old(self).advisories_written
                + page_outcome.advisories_written,
            final(self).errors == old(self).errors + page_outcome.errors@.len(),
            final(self).pages == old(self).pages + 1,
    {
        self.crates_processed = self.crates_processed + page_outcome.crates_processed;
        self.advisories_written = self.advisories_written + page_outcome.advisories_written;
        self.errors = self.errors + page_outcome.errors.len();
        self.pages = self.pages + 1;
    }
}

/// The maximum age of a security check before a crate is checked again:
/// the sync interval, or no limit when the interval is 0 (one-shot mode).
pub fn staleness_threshold(security_sync_interval_secs: u64) -> (r: Option<i64>)
    ensures
        r == (if security_sync_interval_secs == 0 {
            None
        } else {
            Some(security_sync_interval_secs as i64)
        }),
{
    if security_sync_interval_secs == 0 {
        None
    } else {
        Some(security_sync_interval_secs as i64)
    }
}

/// The index of the first alias that starts with `RUSTSEC-`, if any.
pub open spec fn first_rustsec_index(aliases: Seq<Seq<char>>) -> Option<int> {
    if exists|i: int| 0 <= i < aliases.len() && starts_with(aliases[i], "RUSTSEC-"@) {
        Some(
            choose|i: int|
                0 <= i < aliases.len() && starts_with(aliases[i], "RUSTSEC-"@) && forall|j: int|
                    0 <= j < i ==> !starts_with(aliases[j], "RUSTSEC-"@),
        )
    } else {
        None
    }
}

/// The first element of `v` that starts with `prefix`, with its index.
fn first_with_prefix(v: &[String], prefix: &Vec<char>) -> (r: Option<usize>)
    ensures
        match r {
            Some(i) => i < v@.len() && starts_with(v@[i as int]@, prefix@) && forall|j: int|
                0 <= j < i ==> !starts_with(v@[j]@, prefix@),
            None => forall|j: int| 0 <= j < v@.len() ==> !starts_with(v@[j]@, prefix@),
        },
{
    let mut i: usize = 0;
    while i < v.len()
        invariant
            i <= v.len(),
            forall|j: int| 0 <= j < i ==> !starts_with(v@[j]@, prefix@),
        decreases v.len() - i,
    {
        if starts_with_chars(&chars_of_string(&v[i]), prefix) {
            return Some(i);
        }
        i += 1;
    }
    None
}

/// The first alias that is a RustSec identifier (`RUSTSEC-...`).
pub fn first_rustsec_alias(aliases: &[String]) -> (r: Option<String>)
    ensures
        match first_rustsec_index(str_views(aliases@)) {
            Some(i) => r is Some && r->0@ == aliases@[i]@,
            None => r is None,
        },
{
    let prefix = lit("RUSTSEC-");
    match first_with_prefix(aliases, &prefix) {
        Some(i) => {
            proof {
                let s = str_views(aliases@);
                assert(s[i as int] == aliases@[i as int]@);
                let w = first_rustsec_index(s)->0;
                assert(w == i) by {
                    if w < i {
                        assert(s[w] == aliases@[w]@);
                    } else if w > i {
                    }
                }
            }
            Some(aliases[i].clone())
        },
        None => {
            proof {
                let s = str_views(aliases@);
                assert forall|j: int| 0 <= j < s.len() implies !starts_with(s[j], "RUSTSEC-"@) by {
                    assert(s[j] == aliases@[j]@);
                }
            }
            None
        },
    }
}


/// One event of an OSV affected range.
#[derive(Clone, Debug, Default)]
pub struct OsvEvent {
    /// Version that introduced the vulnerability.
    pub introduced: Option<String>,
    /// Version that fixed it.
    pub fixed: Option<String>,
    /// Last affected version.
    pub last_affected: Option<String>,
    /// Upper limit of the range.
    pub limit: Option<String>,
}

/// An OSV affected range.
#[derive(Clone, Debug, Default)]
pub struct OsvRange {
    /// Range type (`SEMVER`, `ECOSYSTEM`, ...).
    pub range_type: String,
    /// Events of the range, in order.
    pub events: Vec<OsvEvent>,
}

/// An OSV affected package entry.
#[derive(Clone, Debug, Default)]
pub struct OsvAffected {
    /// Affected ranges.
    pub ranges: Vec<OsvRange>,
    /// Explicitly listed affected versions.
    pub versions: Vec<String>,
}

/// An OSV vulnerability record, as far as advisory naming reads it.
#[derive(Clone, Debug, Default)]
pub struct OsvVulnerability {
    /// OSV identifier.
    pub id: String,
    /// Aliases (CVE, GHSA, RUSTSEC identifiers).
    pub aliases: Vec<String>,
    /// One-line summary.
    pub summary: Option<String>,
    /// Longer details.
    pub details: Option<String>,
    /// Affected packages.
    pub affected: Vec<OsvAffected>,
}

/// The advisory id and source of an OSV record: its RustSec alias if it has
/// one (source `rustsec_osv`), else its own id (source `osv`).
pub open spec fn advisory_identity_spec(vuln: OsvVulnerability) -> (Seq<char>, Seq<char>) {
    match first_rustsec_index(str_views(vuln.aliases@)) {
        Some(i) => (vuln.aliases@[i]@, "rustsec_osv"@),
        None => (vuln.id@, "osv"@),
    }
}

/// Names an OSV advisory, preferring its RustSec identifier.
pub fn advisory_identity(vuln: &OsvVulnerability) -> (r: (String, String))
    ensures
        (r.0@, r.1@) == advisory_identity_spec(*vuln),
{
    if let Some(rustsec_id) = first_rustsec_alias(vuln.aliases.as_slice()) {
        return (rustsec_id, string_of(&lit("rustsec_osv")));
    }
    (vuln.id.clone(), string_of(&lit("osv")))
}

/// The title of an OSV advisory: its summary, else its details, else its
/// first alias, else its id.
pub open spec fn osv_title_spec(vuln: OsvVulnerability) -> Seq<char> {
    match vuln.summary {
        Some(s) => s@,
        None => match vuln.details {
            Some(d) => d@,
            None => if vuln.aliases@.len() > 0 {
                vuln.aliases@[0]@
            } else {
                vuln.id@
            },
        },
    }
}

/// The title shown for an OSV advisory.
pub fn osv_title(vuln: &OsvVulnerability) -> (t: String)
    ensures
        t@ == osv_title_spec(*vuln),
{
    match &vuln.summary {
        Some(s) => s.clone(),
        None => match &vuln.details {
            Some(d) => d.clone(),
            None => if vuln.aliases.len() > 0 {
                vuln.aliases[0].clone()
            } else {
                vuln.id.clone()
            },
        },
    }
}

/// `label=value` when the value is present.
pub open spec fn labeled(label: Seq<char>, v: Option<String>) -> Seq<Seq<char>> {
    match v {
        Some(x) => seq![label + x@],
        None => seq![],
    }
}

/// The parts describing one event, in the order introduced, fixed, last_affected, limit.
pub open spec fn event_parts(e: OsvEvent) -> Seq<Seq<char>> {
    labeled("introduced="@, e.introduced) + labeled("fixed="@, e.fixed) + labeled(
        "last_affected="@,
        e.last_affected,
    ) + labeled("limit="@, e.limit)
}

/// The text of one range: its type, followed by its event parts in parentheses if it has any.
pub open spec fn range_text(r: OsvRange) -> Seq<char> {
    let parts = r.events@.flat_map(|e: OsvEvent| event_parts(e));
    if parts.len() == 0 {
        r.range_type@
    } else {
        r.range_type@ + "("@ + join(parts, ","@) + ")"@
    }
}

/// The texts of every range of every affected entry, in order.
pub open spec fn range_texts(affected: Seq<OsvAffected>) -> Seq<Seq<char>> {
    affected.flat_map(|a: OsvAffected| a.ranges@.map_values(|r: OsvRange| range_text(r)))
}

/// The affected-range summary: range texts joined by `; `, or
/// `osv_affected_unknown` when there are none.
pub open spec fn affected_range_spec(affected: Seq<OsvAffected>) -> Seq<char> {
    if range_texts(affected).len() == 0 {
        "osv_affected_unknown"@
    } else {
        join(range_texts(affected), "; "@)
    }
}

fn push_labeled(parts: &mut Vec<Vec<char>>, label: &str, v: &Option<String>)
    ensures
        views(final(parts)@) == views(old(parts)@) + labeled(label@, *v),
{
    match v {
        Some(x) => {
            let mut t = lit(label);
            append_chars(&mut t, &chars_of_string(x));
            let ghost before = parts@;
            parts.push(t);
            proof {
                assert(views(parts@) =~= views(before) + seq![label@ + x@]);
            }
        },
        None => {
            proof {
                assert(views(parts@) =~= views(parts@) + Seq::<Seq<char>>::empty());
            }
        },
    }
}

fn range_text_exec(r: &OsvRange) -> (t: Vec<char>)
    ensures
        t@ == range_text(*r),
{
    let ghost f = |e: OsvEvent| event_parts(e);
    let mut parts: Vec<Vec<char>> = Vec::new();
    let mut i: usize = 0;
    while i < r.events.len()
        invariant
            i <= r.events.len(),
            f == (|e: OsvEvent| event_parts(e)),
            views(parts@) == r.events@.take(i as int).flat_map(f),
        decreases r.events.len() - i,
    {
        let e = &r.events[i];
        proof {
            r.events@.lemma_flat_map_take_append(f, i as int);
        }
        let ghost p0 = views(parts@);
        push_labeled(&mut parts, "introduced=", &e.introduced);
        push_labeled(&mut parts, "fixed=", &e.fixed);
        push_labeled(&mut parts, "last_affected=", &e.last_affected);
        push_labeled(&mut parts, "limit=", &e.limit);
        proof {
            assert(views(parts@) =~= p0 + event_parts(*e));
        }
        i += 1;
    }
    proof {
        assert(r.events@.take(r.events.len() as int) =~= r.events@);
    }
    let mut out = chars_of_string(&r.range_type);
    if parts.len() > 0 {
        append_chars(&mut out, &lit("("));
        append_chars(&mut out, &join_chars(&parts, &lit(",")));
        append_chars(&mut out, &lit(")"));
    }
    out
}

/// Describes the affected ranges of an OSV record, e.g.
/// `SEMVER(introduced=0,fixed=1.2.0); ECOSYSTEM`.
pub fn affected_range_text(affected: &[OsvAffected]) -> (t: String)
    ensures
        t@ == affected_range_spec(affected@),
{
    let ghost g = |a: OsvAffected| a.ranges@.map_values(|r: OsvRange| range_text(r));
    let mut ranges: Vec<Vec<char>> = Vec::new();
    let mut i: usize = 0;
    while i < affected.len()
        invariant
            i <= affected.len(),
            g == (|a: OsvAffected| a.ranges@.map_values(|r: OsvRange| range_text(r))),
            views(ranges@) == affected@.take(i as int).flat_map(g),
        decreases affected.len() - i,
    {
        let item = &affected[i];
        proof {
            affected@.lemma_flat_map_take_append(g, i as int);
        }
        let ghost r0 = views(ranges@);
        let mut k: usize = 0;
        while k < item.ranges.len()
            invariant
                k <= item.ranges.len(),
                views(ranges@) == r0 + item.ranges@.take(k as int).map_values(
                    |r: OsvRange| range_text(r),
                ),
            decreases item.ranges.len() - k,
        {
            let t = range_text_exec(&item.ranges[k]);
            let ghost before = ranges@;
            ranges.push(t);
            proof {
                assert(views(ranges@) =~= views(before).push(t@));
                assert(item.ranges@.take(k + 1).map_values(|r: OsvRange| range_text(r))
                    =~= item.ranges@.take(k as int).map_values(|r: OsvRange| range_text(r)).push(
                    range_text(item.ranges@[k as int]),
                ));
            }
            k += 1;
        }
        proof {
            assert(item.ranges@.take(item.ranges.len() as int) =~= item.ranges@);
        }
        i += 1;
    }
    proof {
        assert(affected@.take(affected.len() as int) =~= affected@);
    }
    if ranges.len() == 0 {
        string_of(&lit("osv_affected_unknown"))
    } else {
        string_of(&join_chars(&ranges, &lit("; ")))
    }
}

/// Every `fixed` version named by the events, in order.
pub open spec fn fixed_list(affected: Seq<OsvAffected>) -> Seq<Seq<char>> {
    affected.flat_map(
        |a: OsvAffected|
            a.ranges@.flat_map(
                |r: OsvRange|
                    r.events@.flat_map(
                        |e: OsvEvent|
                            match e.fixed {
                                Some(v) => seq![v@],
                                None => seq![],
                            },
                    ),
            ),
    )
}

/// The distinct fixed versions of an OSV record in ascending order.
pub fn fixed_versions(affected: &[OsvAffected]) -> (out: Vec<String>)
    ensures
        strictly_sorted(str_views(out@)),
        str_views(out@).to_set() == fixed_list(affected@).to_set(),
{
    let ghost fe = |e: OsvEvent|
        match e.fixed {
            Some(v) => seq![v@],
            None => seq![],
        };
    let ghost fr = |r: OsvRange| r.events@.flat_map(fe);
    let ghost fa = |a: OsvAffected| a.ranges@.flat_map(fr);
    let mut all: Vec<Vec<char>> = Vec::new();
    let mut i: usize = 0;
    while i < affected.len()
        invariant
            i <= affected.len(),
            fe == (|e: OsvEvent|
                match e.fixed {
                    Some(v) => seq![v@],
                    None => seq![],
                }),
            fr == (|r: OsvRange| r.events@.flat_map(fe)),
            fa == (|a: OsvAffected| a.ranges@.flat_map(fr)),
            views(all@) == affected@.take(i as int).flat_map(fa),
        decreases affected.len() - i,
    {
        let item = &affected[i];
        proof {
            affected@.lemma_flat_map_take_append(fa, i as int);
        }
        let ghost a0 = views(all@);
        let mut k: usize = 0;
        while k < item.ranges.len()
            invariant
                k <= item.ranges.len(),
                fr == (|r: OsvRange| r.events@.flat_map(fe)),
                fe == (|e: OsvEvent|
                    match e.fixed {
                        Some(v) => seq![v@],
                        None => seq![],
                    }),
                views(all@) == a0 + item.ranges@.take(k as int).flat_map(fr),
            decreases item.ranges.len() - k,
        {
            let range = &item.ranges[k];
            proof {
                item.ranges@.lemma_flat_map_take_append(fr, k as int);
            }
            let ghost b0 = views(all@);
            let mut m: usize = 0;
            while m < range.events.len()
                invariant
                    m <= range.events.len(),
                    fe == (|e: OsvEvent|
                        match e.fixed {
                            Some(v) => seq![v@],
                            None => seq![],
                        }),
                    views(all@) == b0 + range.events@.take(m as int).flat_map(fe),
                decreases range.events.len() - m,
            {
                proof {
                    range.events@.lemma_flat_map_take_append(fe, m as int);
                }
                let ghost before = all@;
                if let Some(v) = &range.events[m].fixed {
                    all.push(chars_of_string(v));
                    proof {
                        assert(views(all@) =~= views(before) + seq![v@]);
                    }
                } else {
                    proof {
                        assert(views(all@) =~= views(before) + Seq::<Seq<char>>::empty());
                    }
                }
                m += 1;
            }
            proof {
                assert(range.events@.take(range.events.len() as int) =~= range.events@);
            }
            k += 1;
        }
        proof {
            assert(item.ranges@.take(item.ranges.len() as int) =~= item.ranges@);
        }
        i += 1;
    }
    proof {
        assert(affected@.take(affected.len() as int) =~= affected@);
    }
    chars_to_strings(&sort_dedup(&all))
}


/// The index of the first `'\n'` in `md`, if any.
pub open spec fn first_newline(md: Seq<char>) -> Option<int> {
    if exists|p: int| 0 <= p < md.len() && md[p] == '\n' {
        Some(
            choose|p: int|
                0 <= p < md.len() && md[p] == '\n' && forall|q: int| 0 <= q < p ==> md[q] != '\n',
        )
    } else {
        None
    }
}

/// The first index where `n` occurs in `h`, if any.
pub open spec fn first_index_of(h: Seq<char>, n: Seq<char>) -> Option<int> {
    if exists|e: int| occurs_at(h, n, e) {
        Some(choose|e: int| occurs_at(h, n, e) && forall|f: int| 0 <= f < e ==> !occurs_at(h, n, f))
    } else {
        None
    }
}

/// The split of a RustSec advisory file into its TOML frontmatter and its
/// markdown body: the first line (trimmed) must be `+++` or `---`, and the
/// frontmatter runs up to the first later line holding the same marker.
pub open spec fn frontmatter_split(md: Seq<char>) -> Option<(Seq<char>, Seq<char>)> {
    match first_newline(md) {
        None => None,
        Some(p) => {
            let m = trim(md.take(p));
            if m == seq!['+', '+', '+'] || m == seq!['-', '-', '-'] {
                let tail = md.skip(p + 1);
                let marker = seq!['\n'] + m + seq!['\n'];
                match first_index_of(tail, marker) {
                    Some(e) => Some((tail.take(e), tail.skip(e + marker.len()))),
                    None => None,
                }
            } else {
                None
            }
        },
    }
}

proof fn lemma_first_index_of(h: Seq<char>, n: Seq<char>, e: int)
    requires
        occurs_at(h, n, e),
        forall|f: int| 0 <= f < e ==> !occurs_at(h, n, f),
    ensures
        first_index_of(h, n) == Some(e),
{
    let w = choose|e: int| occurs_at(h, n, e) && forall|f: int| 0 <= f < e ==> !occurs_at(h, n, f);
    assert(w == e) by {
        if w < e {
            assert(0 <= w);
        } else if w > e {
            assert(0 <= e);
        }
    }
}

proof fn lemma_newline_occurs(md: Seq<char>, q: int)
    requires
        0 <= q < md.len(),
    ensures
        occurs_at(md, seq!['\n'], q) <==> md[q] == '\n',
{
    if md[q] == '\n' {
        assert(md.subrange(q, q + 1) =~= seq!['\n']);
    }
    if occurs_at(md, seq!['\n'], q) {
        assert(md.subrange(q, q + 1)[0] == md[q]);
    }
}

proof fn lemma_no_newline(md: Seq<char>)
    requires
        forall|j: int| 0 <= j ==> !occurs_at(md, seq!['\n'], j),
    ensures
        first_newline(md) is None,
{
    assert forall|q: int| !(0 <= q < md.len() && md[q] == '\n') by {
        if 0 <= q < md.len() {
            lemma_newline_occurs(md, q);
        }
    }
}

proof fn lemma_first_newline(md: Seq<char>, p: int)
    requires
        0 <= p,
        occurs_at(md, seq!['\n'], p),
        forall|j: int| 0 <= j < p ==> !occurs_at(md, seq!['\n'], j),
    ensures
        first_newline(md) == Some(p),
        p < md.len(),
{
    lemma_newline_occurs(md, p);
    assert forall|q: int| 0 <= q < p implies md[q] != '\n' by {
        lemma_newline_occurs(md, q);
    }
    let w = choose|w: int|
        0 <= w < md.len() && md[w] == '\n' && forall|q: int| 0 <= q < w ==> md[q] != '\n';
    assert(w == p) by {
        if w < p {
        } else if w > p {
        }
    }
}

/// The view of an optional pair of strings.
pub open spec fn pair_opt_view(r: Option<(String, String)>) -> Option<(Seq<char>, Seq<char>)> {
    match r {
        Some((a, b)) => Some((a@, b@)),
        None => None,
    }
}

/// The view of an optional pair of string slices.
pub open spec fn slice_pair_view(r: Option<(&str, &str)>) -> Option<(Seq<char>, Seq<char>)> {
    match r {
        Some((a, b)) => Some((a@, b@)),
        None => None,
    }
}

/// Splits a RustSec advisory into `(frontmatter, body)`.
#[verifier::rlimit(60)]
pub fn split_toml_frontmatter(markdown: &str) -> (r: Option<(&str, &str)>)
    ensures
        slice_pair_view(r) == frontmatter_split(markdown@),
{
    let md = chars_of(markdown);
    let nl = vec!['\n'];
    proof {
        assert(nl@ =~= seq!['\n']);
    }
    let p = match first_occurrence(&md, &nl, 0) {
        Some(p) => p,
        None => {
            proof {
                lemma_no_newline(md@);
            }
            return None;
        },
    };
    proof {
        lemma_first_newline(md@, p as int);
    }
    let first = trim_chars(&sub_chars(&md, 0, p));
    let plus = vec!['+', '+', '+'];
    let dash = vec!['-', '-', '-'];
    proof {
        assert(plus@ =~= seq!['+', '+', '+']);
        assert(dash@ =~= seq!['-', '-', '-']);
    }
    if !crate::text::chars_eq(&first, &plus) && !crate::text::chars_eq(&first, &dash) {
        return None;
    }
    let tail = sub_chars(&md, p + 1, md.len());
    let mut marker = vec!['\n'];
    append_chars(&mut marker, &first);
    marker.push('\n');
    proof {
        assert(tail@ =~= md@.skip(p + 1));
        assert(marker@ =~= seq!['\n'] + first@ + seq!['\n']);
    }
    match first_occurrence(&tail, &marker, 0) {
        Some(e) => {
            proof {
                lemma_first_index_of(tail@, marker@, e as int);
            }
            let front = markdown.substring_char(p + 1, p + 1 + e);
            let body = markdown.substring_char(p + 1 + e + marker.len(), md.len());
            proof {
                assert(front@ =~= tail@.take(e as int));
                assert(body@ =~= tail@.skip(e + marker@.len()));
            }
            Some((front, body))
        },
        None => None,
    }
}

proof fn lemma_marker_line(marker: Seq<char>, rest: Seq<char>)
    requires
        marker == seq!['+', '+', '+'] || marker == seq!['-', '-', '-'],
    ensures
        first_newline(marker + seq!['\n'] + rest) == Some(3int),
        trim((marker + seq!['\n'] + rest).take(3)) == marker,
        (marker + seq!['\n'] + rest).skip(4) == rest,
{
    let md = marker + seq!['\n'] + rest;
    assert(md[3] == '\n');
    lemma_newline_occurs(md, 3);
    assert forall|j: int| 0 <= j < 3 implies !occurs_at(md, seq!['\n'], j) by {
        lemma_newline_occurs(md, j);
        assert(md[j] == marker[j]);
    }
    lemma_first_newline(md, 3);
    assert(md.take(3) =~= marker);
    crate::text::lemma_trim_fixed(marker);
    assert(md.skip(4) =~= rest);
}

proof fn lemma_no_early_separator(marker: Seq<char>, fm: Seq<char>, body: Seq<char>, f: int)
    requires
        marker == seq!['+', '+', '+'] || marker == seq!['-', '-', '-'],
        !crate::text::contains(fm, marker),
        0 <= f < fm.len(),
    ensures
        !occurs_at(fm + (seq!['\n'] + marker + seq!['\n']) + body, seq!['\n'] + marker + seq!['\n'], f),
{
    let sep = seq!['\n'] + marker + seq!['\n'];
    let tail = fm + sep + body;
    let l = fm.len() as int;
    if occurs_at(tail, sep, f) {
        let w = tail.subrange(f, f + 5);
        assert(w == sep);
        if f + 3 < l {
            assert forall|k: int| 0 <= k < 3 implies fm.subrange(f + 1, f + 4)[k] == marker[k] by {
                assert(w[k + 1] == sep[k + 1]);
                assert(w[k + 1] == tail[f + 1 + k]);
            }
            assert(fm.subrange(f + 1, f + 4) =~= marker);
            assert(occurs_at(fm, marker, f + 1));
        } else {
            assert(w[l - f] == tail[l]);
            assert(tail[l] == '\n');
            assert(sep[l - f] == marker[l - f - 1]);
        }
    }
}

proof fn lemma_separator_first(marker: Seq<char>, fm: Seq<char>, body: Seq<char>)
    requires
        marker == seq!['+', '+', '+'] || marker == seq!['-', '-', '-'],
        !crate::text::contains(fm, marker),
    ensures
        first_index_of(fm + (seq!['\n'] + marker + seq!['\n']) + body, seq!['\n'] + marker + seq!['\n'])
            == Some(fm.len() as int),
        (fm + (seq!['\n'] + marker + seq!['\n']) + body).take(fm.len() as int) == fm,
        (fm + (seq!['\n'] + marker + seq!['\n']) + body).skip(fm.len() + 5int) == body,
{
    let sep = seq!['\n'] + marker + seq!['\n'];
    let tail = fm + sep + body;
    let l = fm.len() as int;
    assert(tail.subrange(l, l + 5) =~= sep);
    assert(occurs_at(tail, sep, l));
    assert forall|f: int| 0 <= f < l implies !occurs_at(tail, sep, f) by {
        lemma_no_early_separator(marker, fm, body, f);
    }
    lemma_first_index_of(tail, sep, l);
    assert(tail.take(l) =~= fm);
    assert(tail.skip(l + 5) =~= body);
}

/// A RustSec file written as a marker line (`+++` or `---`), the
/// frontmatter, the same marker line and a body splits back into that
/// frontmatter and body, provided the frontmatter does not hold the marker.
#[verifier::rlimit(60)]
proof fn lemma_split_when(md: Seq<char>, marker: Seq<char>, e: int)
    requires
        first_newline(md) == Some(3int),
        trim(md.take(3)) == marker,
        marker == seq!['+', '+', '+'] || marker == seq!['-', '-', '-'],
        first_index_of(md.skip(4), seq!['\n'] + marker + seq!['\n']) == Some(e),
    ensures
        frontmatter_split(md) == Some((md.skip(4).take(e), md.skip(4).skip(e + 5))),
{
    let m = trim(md.take(3));
    assert(m == marker);
    assert((seq!['\n'] + marker + seq!['\n']).len() == 5);
}

pub proof fn law_frontmatter_round_trip(marker: Seq<char>, fm: Seq<char>, body: Seq<char>)
    requires
        marker == seq!['+', '+', '+'] || marker == seq!['-', '-', '-'],
        !crate::text::contains(fm, marker),
    ensures
        frontmatter_split(
            marker + seq!['\n'] + (fm + (seq!['\n'] + marker + seq!['\n']) + body),
        ) == Some((fm, body)),
{
    let tail = fm + (seq!['\n'] + marker + seq!['\n']) + body;
    lemma_marker_line(marker, tail);
    lemma_separator_first(marker, fm, body);
    lemma_split_when(marker + seq!['\n'] + tail, marker, fm.len() as int);
}

/// A markdown text whose first line, trimmed, is neither `+++` nor `---`
/// (or that has no line break at all) has no frontmatter.
pub proof fn law_frontmatter_needs_marker(md: Seq<char>)
    requires
        first_newline(md) matches Some(p) ==> trim(md.take(p)) != seq!['+', '+', '+'] && trim(
            md.take(p),
        ) != seq!['-', '-', '-'],
    ensures
        frontmatter_split(md) is None,
{
}

/// `s` without its leading `'#'` characters.
pub open spec fn strip_hashes(s: Seq<char>) -> Seq<char>
    decreases s.len(),
{
    if s.len() > 0 && s[0] == '#' {
        strip_hashes(s.drop_first())
    } else {
        s
    }
}

/// The heading text of a (trimmed) markdown line: after its leading `#`s, trimmed, if not empty.
pub open spec fn heading_title(line: Seq<char>) -> Option<Seq<char>> {
    if line.len() > 0 && line[0] == '#' && trim(strip_hashes(line)).len() > 0 {
        Some(trim(strip_hashes(line)))
    } else {
        None
    }
}

/// The first heading title among the lines `ls[i..]`.
pub open spec fn first_heading(ls: Seq<Seq<char>>, i: int) -> Option<Seq<char>>
    decreases ls.len() - i,
{
    if i < 0 || i >= ls.len() {
        None
    } else {
        match heading_title(trim(ls[i])) {
            Some(t) => Some(t),
            None => first_heading(ls, i + 1),
        }
    }
}

proof fn lemma_strip_hashes_skip(s: Seq<char>, k: int)
    requires
        0 <= k <= s.len(),
        forall|i: int| 0 <= i < k ==> s[i] == '#',
        k < s.len() ==> s[k] != '#',
    ensures
        strip_hashes(s) == s.skip(k),
    decreases k,
{
    if k > 0 {
        assert forall|i: int| 0 <= i < k - 1 implies s.drop_first()[i] == '#' by {
            assert(s.drop_first()[i] == s[i + 1]);
        }
        lemma_strip_hashes_skip(s.drop_first(), k - 1);
        assert(s.drop_first().skip(k - 1) =~= s.skip(k));
    } else {
        assert(s.skip(0) =~= s);
    }
}

fn heading_title_exec(line: &Vec<char>) -> (r: Option<Vec<char>>)
    ensures
        match r {
            Some(t) => heading_title(line@) == Some(t@),
            None => heading_title(line@) is None,
        },
{
    if line.len() == 0 || line[0] != '#' {
        return None;
    }
    let mut k: usize = 0;
    while k < line.len() && line[k] == '#'
        invariant
            k <= line.len(),
            forall|i: int| 0 <= i < k ==> line@[i] == '#',
        decreases line.len() - k,
    {
        k += 1;
    }
    proof {
        lemma_strip_hashes_skip(line@, k as int);
    }
    let rest = sub_chars(line, k, line.len());
    proof {
        assert(rest@ =~= line@.skip(k as int));
    }
    let t = trim_chars(&rest);
    if t.len() == 0 {
        None
    } else {
        Some(t)
    }
}

/// The title of a RustSec advisory body: its first non-empty markdown heading.
pub fn rustsec_title_from_body(body: &str) -> (r: Option<String>)
    ensures
        crate::jobs::opt_view(r) == first_heading(lines(body@), 0),
{
    let ls = lines_of(&chars_of(body));
    let mut i: usize = 0;
    while i < ls.len()
        invariant
            i <= ls.len(),
            views(ls@) == lines(body@),
            first_heading(lines(body@), 0) == first_heading(lines(body@), i as int),
        decreases ls.len() - i,
    {
        let t = trim_chars(&ls[i]);
        proof {
            assert(views(ls@)[i as int] == ls@[i as int]@);
        }
        match heading_title_exec(&t) {
            Some(title) => {
                return Some(string_of(&title));
            },
            None => {},
        }
        i += 1;
    }
    None
}

/// `s` without its leading `'v'` characters (`trim_start_matches('v')`).
pub open spec fn strip_v(s: Seq<char>) -> Seq<char>
    decreases s.len(),
{
    if s.len() > 0 && s[0] == 'v' {
        strip_v(s.drop_first())
    } else {
        s
    }
}

/// The text a version is matched as: itself if `semver` accepts it, else
/// without its leading `v`s if that is accepted.
pub open spec fn matching_version_text(v: Seq<char>) -> Option<Seq<char>> {
    if semver_accepts(v) {
        Some(v)
    } else if semver_accepts(strip_v(v)) {
        Some(strip_v(v))
    } else {
        None
    }
}

proof fn lemma_strip_v_skip(s: Seq<char>, k: int)
    requires
        0 <= k <= s.len(),
        forall|i: int| 0 <= i < k ==> s[i] == 'v',
        k < s.len() ==> s[k] != 'v',
    ensures
        strip_v(s) == s.skip(k),
    decreases k,
{
    if k > 0 {
        assert forall|i: int| 0 <= i < k - 1 implies s.drop_first()[i] == 'v' by {
            assert(s.drop_first()[i] == s[i + 1]);
        }
        lemma_strip_v_skip(s.drop_first(), k - 1);
        assert(s.drop_first().skip(k - 1) =~= s.skip(k));
    } else {
        assert(s.skip(0) =~= s);
    }
}

/// The characters of `v` without their leading `'v'`s.
pub fn strip_v_chars(v: &Vec<char>) -> (out: Vec<char>)
    ensures
        out@ == strip_v(v@),
{
    let mut k: usize = 0;
    while k < v.len() && v[k] == 'v'
        invariant
            k <= v.len(),
            forall|i: int| 0 <= i < k ==> v@[i] == 'v',
        decreases v.len() - k,
    {
        k += 1;
    }
    proof {
        lemma_strip_v_skip(v@, k as int);
    }
    let out = sub_chars(v, k, v.len());
    proof {
        assert(out@ =~= v@.skip(k as int));
    }
    out
}

/// Parses a version for advisory matching, retrying without a leading `v`.
pub fn parse_semver_for_matching(version: &str) -> (r: Option<SemVersion>)
    ensures
        match r {
            Some(v) => matching_version_text(version@) == Some(v@),
            None => matching_version_text(version@) is None,
        },
{
    if let Some(v) = parse_version(version) {
        return Some(v);
    }
    let s = chars_of(version);
    let mut k: usize = 0;
    while k < s.len() && s[k] == 'v'
        invariant
            k <= s.len(),
            s@ == version@,
            forall|i: int| 0 <= i < k ==> s@[i] == 'v',
        decreases s.len() - k,
    {
        k += 1;
    }
    proof {
        lemma_strip_v_skip(s@, k as int);
    }
    let rest = string_of(&sub_chars(&s, k, s.len()));
    proof {
        assert(rest@ =~= s@.skip(k as int));
    }
    parse_version(rest.as_str())
}

/// The views of a list of parsed requirements.
pub open spec fn req_views(v: Seq<SemVersionReq>) -> Seq<Seq<char>> {
    v.map_values(|r: SemVersionReq| r@)
}

/// Parses the requirements that `semver` accepts, dropping the others.
pub fn parse_version_reqs(requirements: &[String]) -> (out: Vec<SemVersionReq>)
    ensures
        req_views(out@) == str_views(requirements@).filter(|t: Seq<char>| semver_req_accepts(t)),
{
    let ghost pred = |t: Seq<char>| semver_req_accepts(t);
    let mut out: Vec<SemVersionReq> = Vec::new();
    let mut i: usize = 0;
    while i < requirements.len()
        invariant
            i <= requirements.len(),
            pred == (|t: Seq<char>| semver_req_accepts(t)),
            req_views(out@) == str_views(requirements@).take(i as int).filter(pred),
        decreases requirements.len() - i,
    {
        proof {
            assert(str_views(requirements@).take(i + 1) =~= str_views(requirements@).take(
                i as int,
            ).push(requirements@[i as int]@));
            str_views(requirements@).take(i as int).lemma_filter_push(
                requirements@[i as int]@,
                pred,
            );
        }
        match parse_version_req(requirements[i].as_str()) {
            Some(r) => {
                let ghost before = out@;
                out.push(r);
                proof {
                    assert(req_views(out@) =~= req_views(before).push(r@));
                }
            },
            None => {},
        }
        i += 1;
    }
    proof {
        assert(str_views(requirements@).take(requirements.len() as int) =~= str_views(
            requirements@,
        ));
    }
    out
}

/// Some requirement of the list matches the version text.
pub open spec fn any_matches(reqs: Seq<Seq<char>>, v: Seq<char>) -> bool {
    exists|i: int| 0 <= i < reqs.len() && semver_req_matches(reqs[i], v)
}

/// Whether an advisory affects a version: unknown (`None`) when the version
/// does not parse; affected when the advisory lists no patched or unaffected
/// ranges; else affected unless some patched or unaffected range matches.
pub open spec fn version_affected(
    version: Seq<char>,
    patched: Seq<Seq<char>>,
    unaffected: Seq<Seq<char>>,
) -> Option<bool> {
    match matching_version_text(version) {
        None => None,
        Some(v) => if patched.len() == 0 && unaffected.len() == 0 {
            Some(true)
        } else {
            Some(!(any_matches(patched, v) || any_matches(unaffected, v)))
        },
    }
}

fn any_req_matches(reqs: &[SemVersionReq], v: &SemVersion) -> (b: bool)
    ensures
        b == any_matches(req_views(reqs@), v@),
{
    let mut i: usize = 0;
    while i < reqs.len()
        invariant
            i <= reqs.len(),
            forall|k: int| 0 <= k < i ==> !semver_req_matches(req_views(reqs@)[k], v@),
        decreases reqs.len() - i,
    {
        if req_matches(&reqs[i], v) {
            proof {
                assert(req_views(reqs@)[i as int] == reqs@[i as int]@);
            }
            return true;
        }
        proof {
            assert(req_views(reqs@)[i as int] == reqs@[i as int]@);
        }
        i += 1;
    }
    false
}

/// An advisory affects a version that parses exactly when none of its
/// patched and none of its unaffected requirements matches the version; in
/// particular an advisory with neither list affects every such version.
pub proof fn law_affected_iff_no_range_matches(
    version: Seq<char>,
    patched: Seq<Seq<char>>,
    unaffected: Seq<Seq<char>>,
)
    requires
        matching_version_text(version) is Some,
    ensures
        version_affected(version, patched, unaffected) == Some(
            (forall|i: int| 0 <= i < patched.len() ==> !semver_req_matches(
                #[trigger] patched[i],
                matching_version_text(version)->0,
            )) && (forall|i: int| 0 <= i < unaffected.len() ==> !semver_req_matches(
                #[trigger] unaffected[i],
                matching_version_text(version)->0,
            )),
        ),
        patched.len() == 0 && unaffected.len() == 0 ==> version_affected(version, patched, unaffected)
            == Some(true),
{
}

/// Decides whether an advisory affects a version.
pub fn is_version_affected(
    version: &str,
    patched_reqs: &[SemVersionReq],
    unaffected_reqs: &[SemVersionReq],
) -> (r: Option<bool>)
    ensures
        r == version_affected(version@, req_views(patched_reqs@), req_views(unaffected_reqs@)),
{
    let parsed = match parse_semver_for_matching(version) {
        Some(v) => v,
        None => return None,
    };
    if patched_reqs.len() == 0 && unaffected_reqs.len() == 0 {
        return Some(true);
    }
    let patched = any_req_matches(patched_reqs, &parsed);
    let unaffected = any_req_matches(unaffected_reqs, &parsed);
    Some(!(patched || unaffected))
}


/// `label` followed by the values joined with `sep`, when there are values.
pub open spec fn labeled_list(label: Seq<char>, values: Seq<Seq<char>>, sep: Seq<char>) -> Seq<
    Seq<char>,
> {
    if values.len() == 0 {
        seq![]
    } else {
        seq![label + join(values, sep)]
    }
}

/// The affected-range summary of a RustSec advisory: its patched and
/// unaffected requirements, withdrawal date and categories, those present
/// joined by `; `.
pub open spec fn rustsec_range_spec(
    patched: Seq<Seq<char>>,
    unaffected: Seq<Seq<char>>,
    withdrawn: Option<String>,
    categories: Seq<Seq<char>>,
) -> Seq<char> {
    join(
        labeled_list("patched="@, patched, " | "@) + labeled_list(
            "unaffected="@,
            unaffected,
            " | "@,
        ) + labeled("withdrawn="@, withdrawn) + labeled_list("categories="@, categories, "|"@),
        "; "@,
    )
}

fn push_labeled_list(parts: &mut Vec<Vec<char>>, label: &str, values: &[String], sep: &str)
    ensures
        views(final(parts)@) == views(old(parts)@) + labeled_list(label@, str_views(values@), sep@),
{
    if values.len() > 0 {
        let mut t = lit(label);
        let vs = strings_to_chars(values);
        append_chars(&mut t, &join_chars(&vs, &lit(sep)));
        let ghost before = parts@;
        parts.push(t);
        proof {
            assert(views(parts@) =~= views(before) + seq![t@]);
        }
    } else {
        proof {
            assert(views(parts@) =~= views(parts@) + Seq::<Seq<char>>::empty());
        }
    }
}

/// Describes the ranges of a RustSec advisory.
pub fn rustsec_affected_range(
    patched: &[String],
    unaffected: &[String],
    withdrawn: &Option<String>,
    categories: &[String],
) -> (t: String)
    ensures
        t@ == rustsec_range_spec(
            str_views(patched@),
            str_views(unaffected@),
            *withdrawn,
            str_views(categories@),
        ),
{
    let mut parts: Vec<Vec<char>> = Vec::new();
    push_labeled_list(&mut parts, "patched=", patched, " | ");
    push_labeled_list(&mut parts, "unaffected=", unaffected, " | ");
    push_labeled(&mut parts, "withdrawn=", withdrawn);
    push_labeled_list(&mut parts, "categories=", categories, "|");
    proof {
        assert(views(parts@) =~= labeled_list("patched="@, str_views(patched@), " | "@)
            + labeled_list("unaffected="@, str_views(unaffected@), " | "@) + labeled(
            "withdrawn="@,
            *withdrawn,
        ) + labeled_list("categories="@, str_views(categories@), "|"@));
    }
    string_of(&join_chars(&parts, &lit("; ")))
}

/// The reference URL of a RustSec advisory: its `url`, else its first alias
/// that starts with `https://`.
pub fn rustsec_url(url: Option<String>, aliases: &[String]) -> (r: Option<String>)
    ensures
        match url {
            Some(u) => r == Some(u),
            None => match r {
                Some(a) => exists|i: int|
                    0 <= i < aliases@.len() && a@ == aliases@[i]@ && starts_with(
                        a@,
                        "https://"@,
                    ) && forall|j: int| 0 <= j < i ==> !starts_with(aliases@[j]@, "https://"@),
                None => forall|j: int|
                    0 <= j < aliases@.len() ==> !starts_with(aliases@[j]@, "https://"@),
            },
        },
{
    if url.is_some() {
        return url;
    }
    match first_with_prefix(aliases, &lit("https://")) {
        Some(i) => Some(aliases[i].clone()),
        None => None,
    }
}

/// The title of a RustSec advisory: its `title`, else the first heading of
/// its body, else its `description`, else its id.
pub open spec fn rustsec_title_spec(
    title: Option<Seq<char>>,
    body: Seq<char>,
    description: Option<Seq<char>>,
    advisory_id: Seq<char>,
) -> Seq<char> {
    match title {
        Some(t) => t,
        None => match first_heading(lines(body), 0) {
            Some(h) => h,
            None => match description {
                Some(d) => d,
                None => advisory_id,
            },
        },
    }
}

/// Picks the title of a RustSec advisory.
pub fn rustsec_title(
    title: Option<String>,
    body: &str,
    description: Option<String>,
    advisory_id: &String,
) -> (t: String)
    ensures
        t@ == rustsec_title_spec(
            crate::jobs::opt_view(title),
            body@,
            crate::jobs::opt_view(description),
            advisory_id@,
        ),
{
    if let Some(t) = title {
        return t;
    }
    if let Some(h) = rustsec_title_from_body(body) {
        return h;
    }
    if let Some(d) = description {
        return d;
    }
    advisory_id.clone()
}

/// The identifier of a RustSec advisory: its `id`, else the advisory file's
/// stem, else `RUSTSEC-UNKNOWN`.
pub fn rustsec_advisory_id(id: Option<String>, file_stem: Option<String>) -> (r: String)
    ensures
        r@ == match id {
            Some(i) => i@,
            None => match file_stem {
                Some(f) => f@,
                None => "RUSTSEC-UNKNOWN"@,
            },
        },
{
    match id {
        Some(i) => i,
        None => match file_stem {
            Some(f) => f,
            None => string_of(&lit("RUSTSEC-UNKNOWN")),
        },
    }
}

/// Whether an advisory file applies to a crate: it does unless it names
/// another package.
pub fn advisory_applies_to_crate(package: &Option<String>, crate_name: &str) -> (b: bool)
    ensures
        b == match package {
            Some(p) => p@ == crate_name@,
            None => true,
        },
{
    match package {
        Some(p) => crate::text::chars_eq(&chars_of_string(p), &chars_of(crate_name)),
        None => true,
    }
}

/// The indices of the versions an advisory affects.
pub fn affected_version_indices(
    versions: &[String],
    patched_reqs: &[SemVersionReq],
    unaffected_reqs: &[SemVersionReq],
) -> (out: Vec<usize>)
    ensures
        forall|k: int| 0 <= k < out@.len() ==> out@[k] < versions@.len(),
        forall|i: int|
            0 <= i < versions@.len() ==> (out@.contains(i as usize) <==> version_affected(
                versions@[i]@,
                req_views(patched_reqs@),
                req_views(unaffected_reqs@),
            ) == Some(true)),
        forall|a: int, b: int| 0 <= a < b < out@.len() ==> out@[a] < out@[b],
{
    let mut out: Vec<usize> = Vec::new();
    let mut i: usize = 0;
    while i < versions.len()
        invariant
            i <= versions.len(),
            forall|k: int| 0 <= k < out@.len() ==> out@[k] < i,
            forall|j: int|
                0 <= j < i ==> (out@.contains(j as usize) <==> version_affected(
                    versions@[j]@,
                    req_views(patched_reqs@),
                    req_views(unaffected_reqs@),
                ) == Some(true)),
            forall|a: int, b: int| 0 <= a < b < out@.len() ==> out@[a] < out@[b],
        decreases versions.len() - i,
    {
        let affected = is_version_affected(versions[i].as_str(), patched_reqs, unaffected_reqs);
        let ghost before = out@;
        if affected == Some(true) {
            out.push(i);
            proof {
                assert forall|j: int| 0 <= j < i + 1 implies (out@.contains(j as usize)
                    <==> version_affected(
                    versions@[j]@,
                    req_views(patched_reqs@),
                    req_views(unaffected_reqs@),
                ) == Some(true)) by {
                    if j < i {
                        if out@.contains(j as usize) {
                            let k = choose|k: int| 0 <= k < out@.len() && out@[k] == j as usize;
                            assert(k < before.len());
                            assert(before.contains(j as usize));
                        }
                        if before.contains(j as usize) {
                            let k = choose|k: int| 0 <= k < before.len() && before[k] == j as usize;
                            assert(out@[k] == j as usize);
                        }
                    } else {
                        assert(out@[before.len() as int] == i);
                    }
                }
            }
        } else {
            proof {
                assert(!before.contains(i as usize));
            }
        }
        i += 1;
    }
    out
}

/// Combines the OSV and RustSec results of one page. Both succeeding merge;
/// one failing records its error on the other; both failing ends the run
/// (`None`) after counting two errors and one page.
pub fn combine_security_page(
    osv: Result<SecuritySyncOutcome, String>,
    rustsec: Result<SecuritySyncOutcome, String>,
    run_outcome: &mut SecuritySyncRunOutcome,
) -> (page: Option<SecuritySyncOutcome>)
    requires
        old(run_outcome).errors + 2 <= usize::MAX,
        old(run_outcome).pages < usize::MAX,
        osv matches Ok(o) && rustsec matches Ok(r) ==> o.crates_processed + r.crates_processed
            <= usize::MAX && o.advisories_written + r.advisories_written <= usize::MAX,
    ensures
        match (osv, rustsec) {
            (Ok(o), Ok(r)) => page matches Some(p) && p.crates_processed == o.crates_processed
                + r.crates_processed && p.advisories_written == o.advisories_written
                + r.advisories_written && str_views(p.errors@) == str_views(o.errors@)
                + str_views(r.errors@) && *final(run_outcome) == *old(run_outcome),
            (Ok(o), Err(e)) => page matches Some(p) && p.crates_processed == o.crates_processed
                && p.advisories_written == o.advisories_written && p.errors@ == o.errors@.push(e)
                && p.touched_crates@ == o.touched_crates@ && *final(run_outcome) == *old(
                run_outcome,
            ),
            (Err(e), Ok(r)) => page matches Some(p) && p.crates_processed == r.crates_processed
                && p.advisories_written == r.advisories_written && p.errors@ == r.errors@.push(e)
                && p.touched_crates@ == r.touched_crates@ && *final(run_outcome) == *old(
                run_outcome,
            ),
            (Err(_), Err(_)) => page is None && final(run_outcome).errors == old(
                run_outcome,
            ).errors + 2 && final(run_outcome).pages == old(run_outcome).pages + 1
                && final(run_outcome).crates_processed == old(run_outcome).crates_processed
                && final(run_outcome).advisories_written == old(run_outcome).advisories_written,
        },
{
    match (osv, rustsec) {
        (Ok(mut o), Ok(r)) => {
            o.merge(r);
            Some(o)
        },
        (Ok(mut o), Err(e)) => {
            o.errors.push(e);
            Some(o)
        },
        (Err(e), Ok(mut r)) => {
            r.errors.push(e);
            Some(r)
        },
        (Err(_), Err(_)) => {
            run_outcome.errors = run_outcome.errors + 2;
            run_outcome.pages = run_outcome.pages + 1;
            None
        },
    }
}

/// Whether the security sync goes on to the next page: a full page means
/// there may be more crates.
pub fn security_page_has_more(page_crates: usize, batch_size: u32) -> (b: bool)
    ensures
        b == (page_crates >= batch_size),
{
    page_crates >= batch_size as usize
}

} // verus!
