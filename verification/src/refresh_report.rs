//! What an `index.refresh` call reports for each refresh scope, built from
//! the outcome of the work it ran.
use vstd::prelude::*;
use crate::text::{append_chars, chars_of, decimal, decimal_chars, lit, string_of, str_views};
use crate::outcomes::{LocalCacheRefreshOutcome, RustdocJsonRefreshOutcome, SyncCrateOutcome};
use crate::security::SecuritySyncOutcome;

verus! {

/// The page of a list that starts at `offset` and holds at most
/// `per_page` entries, in order (`skip(offset).take(per_page)`).
pub fn page_of<T>(items: Vec<T>, offset: usize, per_page: usize) -> (out: Vec<T>)
    ensures
        out@ == items@.subrange(
            if offset <= items@.len() { offset as int } else { items@.len() as int },
            if offset + per_page <= items@.len() { offset + per_page } else { items@.len() as int },
        ),
{
    let ghost all = items@;
    let n = items.len();
    let start = if offset <= n { offset } else { n };
    let end = if per_page <= n - start { start + per_page } else { n };
    let mut out: Vec<T> = Vec::new();
    let mut rest = items;
    let mut i: usize = 0;
    while rest.len() > 0 && i < end
        invariant
            all.len() == n,
            start <= end <= n,
            i <= end,
            i + rest@.len() == n,
            rest@ == all.skip(i as int),
            i <= start ==> out@.len() == 0,
            i > start ==> out@ == all.subrange(start as int, i as int),
        decreases rest.len(),
    {
        let x = rest.remove(0);
        proof {
            assert(x == all[i as int]);
            assert(rest@ =~= all.skip(i + 1));
        }
        if i >= start {
            let ghost before = out@;
            out.push(x);
            proof {
                assert(out@ =~= all.subrange(start as int, i + 1));
            }
        }
        i += 1;
    }
    proof {
        assert(i == end);
        if end == start {
            assert(out@ =~= all.subrange(start as int, end as int));
        }
    }
    out
}

/// Whether a stored source file has its symbols extracted again: it is a
/// Rust file with a stored row, and it changed or has no symbol rows yet.
pub fn needs_symbol_reindex(
    language: &Option<String>,
    source_file_id: Option<i64>,
    upserted: bool,
    existing_rows: i64,
) -> (b: bool)
    ensures
        b == (crate::jobs::opt_view(*language) == Some("rust"@) && source_file_id is Some && (
        upserted || existing_rows == 0)),
{
    let is_rust = match language {
        Some(l) => crate::text::chars_eq(&crate::text::chars_of_string(l), &lit("rust")),
        None => false,
    };
    is_rust && source_file_id.is_some() && (upserted || existing_rows == 0)
}

/// The error kept for a Rust file that did not parse.
pub fn unparseable_file_error(path: &str, crate_name: &str, version: &str, error: &str) -> (r: String)
    ensures
        r@ == "skipped unparseable file "@ + path@ + " in "@ + crate_name@ + "@"@ + version@ + ": "@
            + error@,
{
    let mut m = lit("skipped unparseable file ");
    append_chars(&mut m, &chars_of(path));
    append_chars(&mut m, &lit(" in "));
    append_chars(&mut m, &chars_of(crate_name));
    append_chars(&mut m, &lit("@"));
    append_chars(&mut m, &chars_of(version));
    append_chars(&mut m, &lit(": "));
    append_chars(&mut m, &chars_of(error));
    string_of(&m)
}

/// The freshness of one data source, as a refresh reports it.
#[derive(Clone, Debug)]
pub struct FreshnessEntry {
    pub source: String,
    pub status: String,
}

/// The counts and lists a refresh reports.
#[derive(Clone, Debug)]
pub struct RefreshResultSummary {
    pub synced_crates: usize,
    pub synced_versions: usize,
    pub synced_dependencies: usize,
    pub selected_versions: Vec<String>,
    pub errors: Vec<String>,
    pub synced_types: Option<usize>,
    pub synced_impls: Option<usize>,
    pub synced_traits: Option<usize>,
}

/// The report of one refresh: its status, message, results, the freshness
/// of each source it touched, and where its data came from.
#[derive(Clone, Debug)]
pub struct RefreshReport {
    pub status: String,
    pub message: String,
    pub result: RefreshResultSummary,
    pub freshness: Vec<FreshnessEntry>,
    pub provenance: String,
}

/// Outcome of a docs.rs documentation refresh.
#[derive(Debug, Default)]
pub struct DocsPagesOutcome {
    /// Number of crate versions whose documentation was processed.
    pub versions_processed: usize,
    /// Number of documentation pages written.
    pub pages_written: usize,
    /// `crate@version` strings touched by the refresh.
    pub touched_versions: Vec<String>,
    /// Errors encountered, one per failed operation.
    pub errors: Vec<String>,
}

/// The freshness entries as pairs of plain values.
pub open spec fn freshness_view(v: Seq<FreshnessEntry>) -> Seq<(Seq<char>, Seq<char>)> {
    v.map_values(|e: FreshnessEntry| (e.source@, e.status@))
}

/// `completed`, or `completed_with_errors` when there were errors.
pub open spec fn completion_status(error_count: nat) -> Seq<char> {
    if error_count == 0 {
        "completed"@
    } else {
        "completed_with_errors"@
    }
}

fn status_for(error_count: usize) -> (r: String)
    ensures
        r@ == completion_status(error_count as nat),
{
    if error_count == 0 {
        string_of(&lit("completed"))
    } else {
        string_of(&lit("completed_with_errors"))
    }
}

fn entry(source: &str, status: &str) -> (e: FreshnessEntry)
    ensures
        e.source@ == source@,
        e.status@ == status@,
{
    FreshnessEntry { source: string_of(&lit(source)), status: string_of(&lit(status)) }
}

fn push_count(out: &mut Vec<char>, n: usize)
    ensures
        final(out)@ == old(out)@ + decimal(n as nat),
{
    append_chars(out, &decimal_chars(n as u64));
}

fn push_text(out: &mut Vec<char>, s: &str)
    ensures
        final(out)@ == old(out)@ + s@,
{
    append_chars(out, &lit(s));
}

/// The message of a local cache refresh.
pub open spec fn local_cache_message(o: LocalCacheRefreshOutcome) -> Seq<char> {
    "scanned "@ + decimal(o.scanned_versions as nat) + " crate versions ("@ + decimal(
        o.scanned_files as nat,
    ) + " files), upserted "@ + decimal(o.upserted_files as nat) + ", pruned "@ + decimal(
        o.deleted_files as nat,
    )
}

/// Reports a refresh of the local cargo registry source cache.
pub fn local_cache_refresh_report(outcome: LocalCacheRefreshOutcome) -> (r: RefreshReport)
    ensures
        r.status@ == completion_status(outcome.errors@.len()),
        r.message@ == local_cache_message(outcome),
        r.result.synced_crates == outcome.scanned_versions,
        r.result.synced_versions == outcome.upserted_files,
        r.result.synced_dependencies == outcome.deleted_files,
        r.result.selected_versions@ == outcome.touched_versions@,
        r.result.errors@ == outcome.errors@,
        r.result.synced_types is None && r.result.synced_impls is None && r.result.synced_traits is None,
        freshness_view(r.freshness@) == seq![
            ("cargo_registry"@, "scanned"@),
            ("local_postgres_index"@, "updated"@),
        ],
        r.provenance@ == "cargo_registry + local_postgres_index"@,
{
    let mut message = lit("scanned ");
    push_count(&mut message, outcome.scanned_versions);
    push_text(&mut message, " crate versions (");
    push_count(&mut message, outcome.scanned_files);
    push_text(&mut message, " files), upserted ");
    push_count(&mut message, outcome.upserted_files);
    push_text(&mut message, ", pruned ");
    push_count(&mut message, outcome.deleted_files);
    proof {
        assert(message@ =~= local_cache_message(outcome));
    }
    let mut freshness: Vec<FreshnessEntry> = Vec::new();
    freshness.push(entry("cargo_registry", "scanned"));
    freshness.push(entry("local_postgres_index", "updated"));
    proof {
        assert(freshness_view(freshness@) =~= seq![
            ("cargo_registry"@, "scanned"@),
            ("local_postgres_index"@, "updated"@),
        ]);
    }
    let status = status_for(outcome.errors.len());
    RefreshReport {
        status,
        message: string_of(&message),
        result: RefreshResultSummary {
            synced_crates: outcome.scanned_versions,
            synced_versions: outcome.upserted_files,
            synced_dependencies: outcome.deleted_files,
            selected_versions: outcome.touched_versions,
            errors: outcome.errors,
            synced_types: None,
            synced_impls: None,
            synced_traits: None,
        },
        freshness,
        provenance: string_of(&lit("cargo_registry + local_postgres_index")),
    }
}

/// The message of a docs.rs refresh.
pub open spec fn docs_message(o: DocsPagesOutcome) -> Seq<char> {
    "docs sync processed "@ + decimal(o.versions_processed as nat) + " crate versions and wrote "@
        + decimal(o.pages_written as nat) + " docs pages"@
}

/// Reports a refresh of docs.rs documentation pages.
pub fn docs_refresh_report(outcome: DocsPagesOutcome) -> (r: RefreshReport)
    ensures
        r.status@ == completion_status(outcome.errors@.len()),
        r.message@ == docs_message(outcome),
        r.result.synced_crates == outcome.versions_processed,
        r.result.synced_versions == outcome.pages_written,
        r.result.synced_dependencies == 0,
        r.result.selected_versions@ == outcome.touched_versions@,
        r.result.errors@ == outcome.errors@,
        r.result.synced_types is None && r.result.synced_impls is None && r.result.synced_traits is None,
        freshness_view(r.freshness@) == seq![
            ("docs.rs"@, "refreshed"@),
            ("local_postgres_index"@, "updated"@),
        ],
        r.provenance@ == "docs.rs + local_postgres_index"@,
{
    let mut message = lit("docs sync processed ");
    push_count(&mut message, outcome.versions_processed);
    push_text(&mut message, " crate versions and wrote ");
    push_count(&mut message, outcome.pages_written);
    push_text(&mut message, " docs pages");
    proof {
        assert(message@ =~= docs_message(outcome));
    }
    let mut freshness: Vec<FreshnessEntry> = Vec::new();
    freshness.push(entry("docs.rs", "refreshed"));
    freshness.push(entry("local_postgres_index", "updated"));
    proof {
        assert(freshness_view(freshness@) =~= seq![
            ("docs.rs"@, "refreshed"@),
            ("local_postgres_index"@, "updated"@),
        ]);
    }
    let status = status_for(outcome.errors.len());
    RefreshReport {
        status,
        message: string_of(&message),
        result: RefreshResultSummary {
            synced_crates: outcome.versions_processed,
            synced_versions: outcome.pages_written,
            synced_dependencies: 0,
            selected_versions: outcome.touched_versions,
            errors: outcome.errors,
            synced_types: None,
            synced_impls: None,
            synced_traits: None,
        },
        freshness,
        provenance: string_of(&lit("docs.rs + local_postgres_index")),
    }
}

/// The message of a rustdoc JSON refresh.
pub open spec fn rustdoc_message(o: RustdocJsonRefreshOutcome) -> Seq<char> {
    "rustdoc JSON sync scanned "@ + decimal(o.scanned_files as nat) + " files, synced "@ + decimal(
        o.synced_versions as nat,
    ) + " crate versions, wrote "@ + decimal(o.symbols_written as nat) + " symbols, "@ + decimal(
        o.types_written as nat,
    ) + " types, "@ + decimal(o.impls_written as nat) + " impls, "@ + decimal(
        o.traits_written as nat,
    ) + " traits"@
}

/// Reports a refresh of the rustdoc JSON cache.
pub fn rustdoc_refresh_report(outcome: RustdocJsonRefreshOutcome) -> (r: RefreshReport)
    ensures
        r.status@ == completion_status(outcome.errors@.len()),
        r.message@ == rustdoc_message(outcome),
        r.result.synced_crates == outcome.scanned_files,
        r.result.synced_versions == outcome.synced_versions,
        r.result.synced_dependencies == outcome.symbols_written,
        r.result.selected_versions@ == outcome.touched_versions@,
        r.result.errors@ == outcome.errors@,
        r.result.synced_types == Some(outcome.types_written),
        r.result.synced_impls == Some(outcome.impls_written),
        r.result.synced_traits == Some(outcome.traits_written),
        freshness_view(r.freshness@) == seq![
            ("rustdoc_json"@, "scanned"@),
            ("local_postgres_index"@, "updated"@),
        ],
        r.provenance@ == "rustdoc_json + local_postgres_index"@,
{
    let mut message = lit("rustdoc JSON sync scanned ");
    push_count(&mut message, outcome.scanned_files);
    push_text(&mut message, " files, synced ");
    push_count(&mut message, outcome.synced_versions);
    push_text(&mut message, " crate versions, wrote ");
    push_count(&mut message, outcome.symbols_written);
    push_text(&mut message, " symbols, ");
    push_count(&mut message, outcome.types_written);
    push_text(&mut message, " types, ");
    push_count(&mut message, outcome.impls_written);
    push_text(&mut message, " impls, ");
    push_count(&mut message, outcome.traits_written);
    push_text(&mut message, " traits");
    proof {
        assert(message@ =~= rustdoc_message(outcome));
    }
    let mut freshness: Vec<FreshnessEntry> = Vec::new();
    freshness.push(entry("rustdoc_json", "scanned"));
    freshness.push(entry("local_postgres_index", "updated"));
    proof {
        assert(freshness_view(freshness@) =~= seq![
            ("rustdoc_json"@, "scanned"@),
            ("local_postgres_index"@, "updated"@),
        ]);
    }
    let status = status_for(outcome.errors.len());
    RefreshReport {
        status,
        message: string_of(&message),
        result: RefreshResultSummary {
            synced_crates: outcome.scanned_files,
            synced_versions: outcome.synced_versions,
            synced_dependencies: outcome.symbols_written,
            selected_versions: outcome.touched_versions,
            errors: outcome.errors,
            synced_types: Some(outcome.types_written),
            synced_impls: Some(outcome.impls_written),
            synced_traits: Some(outcome.traits_written),
        },
        freshness,
        provenance: string_of(&lit("rustdoc_json + local_postgres_index")),
    }
}

/// The message of a security refresh.
pub open spec fn security_message(o: SecuritySyncOutcome) -> Seq<char> {
    "security sync processed "@ + decimal(o.crates_processed as nat) + " crates and wrote "@
        + decimal(o.advisories_written as nat) + " advisory matches"@
}

/// Reports a security refresh (OSV, then the RustSec database when one is
/// configured), from the merged outcome of both.
pub fn security_refresh_report(outcome: SecuritySyncOutcome, rustsec_enabled: bool) -> (r: RefreshReport)
    ensures
        r.status@ == completion_status(outcome.errors@.len()),
        r.message@ == security_message(outcome),
        r.result.synced_crates == outcome.crates_processed,
        r.result.synced_versions == outcome.advisories_written,
        r.result.synced_dependencies == 0,
        r.result.selected_versions@ == outcome.touched_crates@,
        r.result.errors@ == outcome.errors@,
        r.result.synced_types is None && r.result.synced_impls is None && r.result.synced_traits is None,
        freshness_view(r.freshness@) == seq![
            ("osv.dev"@, "refreshed"@),
            ("rustsec-db"@, if rustsec_enabled { "refreshed"@ } else { "skipped"@ }),
            ("local_postgres_index"@, "updated"@),
        ],
        r.provenance@ == if rustsec_enabled {
            "osv.dev + rustsec-db + local_postgres_index"@
        } else {
            "osv.dev + local_postgres_index"@
        },
{
    let mut message = lit("security sync processed ");
    push_count(&mut message, outcome.crates_processed);
    push_text(&mut message, " crates and wrote ");
    push_count(&mut message, outcome.advisories_written);
    push_text(&mut message, " advisory matches");
    proof {
        assert(message@ =~= security_message(outcome));
    }
    let mut freshness: Vec<FreshnessEntry> = Vec::new();
    freshness.push(entry("osv.dev", "refreshed"));
    if rustsec_enabled {
        freshness.push(entry("rustsec-db", "refreshed"));
    } else {
        freshness.push(entry("rustsec-db", "skipped"));
    }
    freshness.push(entry("local_postgres_index", "updated"));
    proof {
        assert(freshness_view(freshness@) =~= seq![
            ("osv.dev"@, "refreshed"@),
            ("rustsec-db"@, if rustsec_enabled { "refreshed"@ } else { "skipped"@ }),
            ("local_postgres_index"@, "updated"@),
        ]);
    }
    let provenance = if rustsec_enabled {
        string_of(&lit("osv.dev + rustsec-db + local_postgres_index"))
    } else {
        string_of(&lit("osv.dev + local_postgres_index"))
    };
    let status = status_for(outcome.errors.len());
    RefreshReport {
        status,
        message: string_of(&message),
        result: RefreshResultSummary {
            synced_crates: outcome.crates_processed,
            synced_versions: outcome.advisories_written,
            synced_dependencies: 0,
            selected_versions: outcome.touched_crates,
            errors: outcome.errors,
            synced_types: None,
            synced_impls: None,
            synced_traits: None,
        },
        freshness,
        provenance,
    }
}

/// Reports a refresh of one crate from crates.io: its counts and selected
/// version when the sync succeeded, its error when it failed.
pub fn crate_refresh_report(crate_name: &str, outcome: Result<SyncCrateOutcome, String>) -> (r: RefreshReport)
    ensures
        match outcome {
            Ok(o) => {
                &&& r.status@ == "completed"@
                &&& r.message@ == "refreshed "@ + crate_name@
                &&& r.result.synced_crates == 1
                &&& r.result.synced_versions == o.versions_synced
                &&& r.result.synced_dependencies == o.dependencies_synced
                &&& str_views(r.result.selected_versions@) == match o.selected_version {
                    Some(v) => seq![crate_name@ + "@"@ + v@],
                    None => Seq::<Seq<char>>::empty(),
                }
                &&& r.result.errors@.len() == 0
                &&& freshness_view(r.freshness@) == seq![
                    ("crates.io"@, "refreshed"@),
                    ("local_postgres_index"@, "updated"@),
                ]
            },
            Err(e) => {
                &&& r.status@ == "failed"@
                &&& r.message@ == "refresh failed for "@ + crate_name@
                &&& r.result.synced_crates == 0
                &&& r.result.synced_versions == 0
                &&& r.result.synced_dependencies == 0
                &&& r.result.selected_versions@.len() == 0
                &&& str_views(r.result.errors@) == seq![e@]
                &&& freshness_view(r.freshness@) == seq![
                    ("crates.io"@, "failed"@),
                    ("local_postgres_index"@, "unchanged"@),
                ]
            },
        },
        r.result.synced_types is None && r.result.synced_impls is None && r.result.synced_traits is None,
        r.provenance@ == "crates.io + local_postgres_index"@,
{
    let provenance = string_of(&lit("crates.io + local_postgres_index"));
    match outcome {
        Ok(o) => {
            let mut message = lit("refreshed ");
            append_chars(&mut message, &chars_of(crate_name));
            let mut selected: Vec<String> = Vec::new();
            match &o.selected_version {
                Some(v) => {
                    let mut label = chars_of(crate_name);
                    push_text(&mut label, "@");
                    append_chars(&mut label, &crate::text::chars_of_string(v));
                    selected.push(string_of(&label));
                    proof {
                        assert(str_views(selected@) =~= seq![crate_name@ + "@"@ + v@]);
                    }
                },
                None => {
                    proof {
                        assert(str_views(selected@) =~= Seq::<Seq<char>>::empty());
                    }
                },
            }
            let mut freshness: Vec<FreshnessEntry> = Vec::new();
            freshness.push(entry("crates.io", "refreshed"));
            freshness.push(entry("local_postgres_index", "updated"));
            proof {
                assert(freshness_view(freshness@) =~= seq![
                    ("crates.io"@, "refreshed"@),
                    ("local_postgres_index"@, "updated"@),
                ]);
            }
            RefreshReport {
                status: string_of(&lit("completed")),
                message: string_of(&message),
                result: RefreshResultSummary {
                    synced_crates: 1,
                    synced_versions: o.versions_synced,
                    synced_dependencies: o.dependencies_synced,
                    selected_versions: selected,
                    errors: Vec::new(),
                    synced_types: None,
                    synced_impls: None,
                    synced_traits: None,
                },
                freshness,
                provenance,
            }
        },
        Err(error) => {
            let mut message = lit("refresh failed for ");
            append_chars(&mut message, &chars_of(crate_name));
            let ghost ev = error@;
            let mut errors: Vec<String> = Vec::new();
            errors.push(error);
            proof {
                assert(str_views(errors@) =~= seq![ev]);
            }
            let mut freshness: Vec<FreshnessEntry> = Vec::new();
            freshness.push(entry("crates.io", "failed"));
            freshness.push(entry("local_postgres_index", "unchanged"));
            proof {
                assert(freshness_view(freshness@) =~= seq![
                    ("crates.io"@, "failed"@),
                    ("local_postgres_index"@, "unchanged"@),
                ]);
            }
            RefreshReport {
                status: string_of(&lit("failed")),
                message: string_of(&message),
                result: RefreshResultSummary {
                    synced_crates: 0,
                    synced_versions: 0,
                    synced_dependencies: 0,
                    selected_versions: Vec::new(),
                    errors,
                    synced_types: None,
                    synced_impls: None,
                    synced_traits: None,
                },
                freshness,
                provenance,
            }
        },
    }
}

/// The offset of a page of security results (pages count from 1; page 0
/// is taken as page 1).
pub fn security_page_offset(page: u32, per_page: u32) -> (r: u32)
    requires
        (if page == 0 { 0 } else { page - 1 }) * per_page <= u32::MAX,
    ensures
        r == (if page == 0 { 0 } else { page - 1 }) * per_page,
{
    let p = if page == 0 {
        0
    } else {
        page - 1
    };
    p * per_page
}

/// The offset of a page of local cache versions (pages count from 1),
/// saturating at the largest `usize`.
pub fn local_cache_page_offset(page: u32, per_page: usize) -> (r: usize)
    requires
        page >= 1,
    ensures
        r == if (page - 1) * per_page > usize::MAX {
            usize::MAX as int
        } else {
            (page - 1) * per_page
        },
{
    match ((page - 1) as usize).checked_mul(per_page) {
        Some(v) => v,
        None => usize::MAX,
    }
}

/// What an `index.refresh` call refreshes.
#[derive(PartialEq, Eq, Structural, Clone, Copy, Debug)]
pub enum IndexRefreshScope {
    Crate,
    All,
    Security,
    Docs,
    LocalCache,
    RustdocJson,
}

/// The key under which refresh durations of a scope are recorded.
pub open spec fn scope_key_text(scope: IndexRefreshScope) -> Seq<char> {
    match scope {
        IndexRefreshScope::Crate => "crate"@,
        IndexRefreshScope::All => "all"@,
        IndexRefreshScope::Security => "security"@,
        IndexRefreshScope::Docs => "docs"@,
        IndexRefreshScope::LocalCache => "local_cache"@,
        IndexRefreshScope::RustdocJson => "rustdoc_json"@,
    }
}

/// The key under which refresh durations of a scope are recorded.
pub fn refresh_scope_key(scope: IndexRefreshScope) -> (r: &'static str)
    ensures
        r@ == scope_key_text(scope),
{
    match scope {
        IndexRefreshScope::Crate => "crate",
        IndexRefreshScope::All => "all",
        IndexRefreshScope::Security => "security",
        IndexRefreshScope::Docs => "docs",
        IndexRefreshScope::LocalCache => "local_cache",
        IndexRefreshScope::RustdocJson => "rustdoc_json",
    }
}

/// Whether enough past refreshes of a scope were recorded (at least three)
/// to estimate the next one's duration.
pub fn eta_has_enough_samples(sample_count: i64) -> (b: bool)
    ensures
        b == (sample_count >= 3),
{
    sample_count >= 3
}

} // verus!
