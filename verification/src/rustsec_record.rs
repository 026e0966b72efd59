//! The record a RustSec advisory file gives for one crate: its front
//! matter read as plain values, and what is stored from it.
use vstd::prelude::*;
use crate::doc_extract::copy_opt;
use crate::jobs::opt_view;
use crate::security::{
    advisory_applies_to_crate, is_version_affected, parse_version_reqs, req_views,
    rustsec_advisory_id, rustsec_affected_range, rustsec_range_spec, rustsec_title,
    rustsec_title_spec, rustsec_url, version_affected,
};
use crate::text::{starts_with, str_views};
use crate::versions::semver_req_accepts;

verus! {

/// The `[advisory]` table of a RustSec advisory's front matter.
#[derive(Debug, Clone, Default)]
pub struct RustSecAdvisory {
    pub id: Option<String>,
    pub package: Option<String>,
    pub title: Option<String>,
    pub description: Option<String>,
    pub url: Option<String>,
    pub cvss: Option<String>,
    pub withdrawn: Option<String>,
    pub aliases: Vec<String>,
    pub categories: Vec<String>,
}

/// The `[versions]` table of a RustSec advisory's front matter.
#[derive(Debug, Clone, Default)]
pub struct RustSecVersions {
    pub patched: Vec<String>,
    pub unaffected: Vec<String>,
}

/// The TOML front matter of a RustSec advisory file.
#[derive(Debug, Clone, Default)]
pub struct RustSecFrontmatter {
    pub advisory: RustSecAdvisory,
    pub versions: RustSecVersions,
}

/// One advisory as it is stored for a crate.
#[derive(Debug, Clone)]
pub struct RustSecAdvisoryRecord {
    pub advisory_id: String,
    pub title: String,
    pub severity: Option<String>,
    pub url: Option<String>,
    pub affected_range: String,
    pub affected_versions: Vec<String>,
}

/// The requirement texts that `semver` accepts, in order.
pub open spec fn accepted_reqs(texts: Seq<String>) -> Seq<Seq<char>> {
    str_views(texts).filter(|t: Seq<char>| semver_req_accepts(t))
}

/// The identifier of an advisory: its `id`, else the file stem, else
/// `RUSTSEC-UNKNOWN`.
pub open spec fn advisory_id_of(id: Option<Seq<char>>, file_stem: Option<Seq<char>>) -> Seq<char> {
    match id {
        Some(i) => i,
        None => match file_stem {
            Some(f) => f,
            None => "RUSTSEC-UNKNOWN"@,
        },
    }
}

/// The stored URL: the advisory's `url`, else its first alias that starts
/// with `https://`, else none.
pub open spec fn advisory_url_ok(url: Option<Seq<char>>, aliases: Seq<Seq<char>>, r: Option<Seq<char>>) -> bool {
    match url {
        Some(u) => r == Some(u),
        None => match r {
            Some(a) => exists|i: int|
                0 <= i < aliases.len() && a == aliases[i] && starts_with(a, "https://"@) && forall|
                    j: int,
                | 0 <= j < i ==> !starts_with(aliases[j], "https://"@),
            None => forall|j: int| 0 <= j < aliases.len() ==> !starts_with(aliases[j], "https://"@),
        },
    }
}

/// Whether an advisory's package is the crate (an advisory without a
/// package applies to every crate).
pub open spec fn applies_to(package: Option<Seq<char>>, crate_name: Seq<char>) -> bool {
    match package {
        Some(p) => p == crate_name,
        None => true,
    }
}

/// The stored record of an advisory for a crate with the given versions.
pub open spec fn record_ok(
    fm: RustSecFrontmatter,
    body: Seq<char>,
    file_stem: Option<Seq<char>>,
    versions: Seq<Seq<char>>,
    severity: Option<Seq<char>>,
    rec: RustSecAdvisoryRecord,
) -> bool {
    let a = fm.advisory;
    let id = advisory_id_of(opt_view(a.id), file_stem);
    &&& rec.advisory_id@ == id
    &&& rec.title@ == rustsec_title_spec(opt_view(a.title), body, opt_view(a.description), id)
    &&& opt_view(rec.severity) == severity
    &&& advisory_url_ok(opt_view(a.url), str_views(a.aliases@), opt_view(rec.url))
    &&& rec.affected_range@ == rustsec_range_spec(
        str_views(fm.versions.patched@),
        str_views(fm.versions.unaffected@),
        a.withdrawn,
        str_views(a.categories@),
    )
    &&& str_views(rec.affected_versions@) == versions.filter(
        |v: Seq<char>|
            version_affected(
                v,
                accepted_reqs(fm.versions.patched@),
                accepted_reqs(fm.versions.unaffected@),
            ) == Some(true),
    )
}

/// Builds the record an advisory gives for a crate: none when its package
/// is another crate; else its id, title, severity (`severity`, computed from
/// its CVSS score by the caller), URL, affected range, and the crate's
/// versions it affects, in order.
pub fn rustsec_advisory_record(
    fm: &RustSecFrontmatter,
    body: &str,
    file_stem: Option<String>,
    crate_name: &str,
    crate_versions: &[String],
    severity: Option<String>,
) -> (r: Option<RustSecAdvisoryRecord>)
    ensures
        r is None <==> !applies_to(opt_view(fm.advisory.package), crate_name@),
        r matches Some(rec) ==> record_ok(
            *fm,
            body@,
            opt_view(file_stem),
            str_views(crate_versions@),
            opt_view(severity),
            rec,
        ),
{
    let a = &fm.advisory;
    let ghost stem = opt_view(file_stem);
    let advisory_id = rustsec_advisory_id(copy_opt(&a.id), file_stem);
    if !advisory_applies_to_crate(&a.package, crate_name) {
        return None;
    }
    let title = rustsec_title(copy_opt(&a.title), body, copy_opt(&a.description), &advisory_id);
    let url = rustsec_url(copy_opt(&a.url), a.aliases.as_slice());
    proof {
        let al = str_views(a.aliases@);
        assert(al.len() == a.aliases@.len());
        assert(forall|j: int| 0 <= j < al.len() ==> al[j] == a.aliases@[j]@);
        if a.url is None && url is Some {
            let w = choose|i: int|
                0 <= i < a.aliases@.len() && url->0@ == a.aliases@[i]@ && starts_with(
                    url->0@,
                    "https://"@,
                ) && forall|j: int| 0 <= j < i ==> !starts_with(a.aliases@[j]@, "https://"@);
            assert(al[w] == a.aliases@[w]@);
        }
    }
    let affected_range = rustsec_affected_range(
        fm.versions.patched.as_slice(),
        fm.versions.unaffected.as_slice(),
        &a.withdrawn,
        a.categories.as_slice(),
    );
    let patched_reqs = parse_version_reqs(fm.versions.patched.as_slice());
    let unaffected_reqs = parse_version_reqs(fm.versions.unaffected.as_slice());
    let ghost pv = req_views(patched_reqs@);
    let ghost uv = req_views(unaffected_reqs@);
    let ghost keep = |v: Seq<char>| version_affected(v, pv, uv) == Some(true);
    let ghost vs = str_views(crate_versions@);
    let mut affected: Vec<String> = Vec::new();
    let mut i: usize = 0;
    while i < crate_versions.len()
        invariant
            i <= crate_versions@.len(),
            vs == str_views(crate_versions@),
            pv == req_views(patched_reqs@),
            uv == req_views(unaffected_reqs@),
            keep == (|v: Seq<char>| version_affected(v, pv, uv) == Some(true)),
            str_views(affected@) == vs.take(i as int).filter(keep),
        decreases crate_versions@.len() - i,
    {
        proof {
            assert(vs.take(i + 1) =~= vs.take(i as int).push(crate_versions@[i as int]@));
            vs.take(i as int).lemma_filter_push(crate_versions@[i as int]@, keep);
        }
        let hit = is_version_affected(
            crate_versions[i].as_str(),
            patched_reqs.as_slice(),
            unaffected_reqs.as_slice(),
        );
        if hit == Some(true) {
            let ghost before = affected@;
            affected.push(crate_versions[i].clone());
            proof {
                assert(str_views(affected@) =~= str_views(before).push(crate_versions@[i as int]@));
            }
        }
        i += 1;
    }
    proof {
        assert(vs.take(crate_versions@.len() as int) =~= vs);
    }
    Some(
        RustSecAdvisoryRecord {
            advisory_id,
            title,
            severity,
            url,
            affected_range,
            affected_versions: affected,
        },
    )
}

} // verus!
