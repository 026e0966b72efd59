//! Results of the indexing passes, and the decisions that turn a refresh
//! job's outcome or a freshness probe into what a tool call reports.
use vstd::prelude::*;
use crate::jobs::JobOutcome;
use crate::text::{append_chars, chars_eq, chars_of, chars_of_string, lit, string_of};

verus! {

/// Outcome of syncing a single crate's metadata from crates.io.
#[derive(Debug)]
pub struct SyncCrateOutcome {
    /// Number of crate versions that were persisted.
    pub versions_synced: usize,
    /// Number of dependency edges that were persisted.
    pub dependencies_synced: usize,
    /// The primary version selected for detailed indexing, if any.
    pub selected_version: Option<String>,
}

/// Outcome of a GitHub metadata sync pass.
#[derive(Debug, Default)]
pub struct GitHubSyncOutcome {
    /// Number of crates whose metadata was fetched.
    pub crates_processed: usize,
    /// Number of errors encountered.
    pub errors: Vec<String>,
}

/// Outcome of a local cargo registry source cache refresh.
#[derive(Debug, Default)]
pub struct LocalCacheRefreshOutcome {
    /// Number of crate versions whose source directories were scanned.
    pub scanned_versions: usize,
    /// Total number of source files encountered during the scan.
    pub scanned_files: usize,
    /// Number of source files inserted or updated in the database.
    pub upserted_files: usize,
    /// Number of stale source files removed from the database.
    pub deleted_files: usize,
    /// List of `crate@version` strings that were touched during the refresh.
    pub touched_versions: Vec<String>,
    /// Errors encountered during the refresh, one per failed operation.
    pub errors: Vec<String>,
}

/// The outcome of a local cache refresh whose cargo registry source
/// directory (the path shown) is missing: nothing scanned, and one error
/// that names the directory.
pub fn missing_registry_source_outcome(src_root: &str) -> (r: LocalCacheRefreshOutcome)
    ensures
        r.scanned_versions == 0,
        r.scanned_files == 0,
        r.upserted_files == 0,
        r.deleted_files == 0,
        r.touched_versions@.len() == 0,
        r.errors@.len() == 1,
        r.errors@[0]@ == "cargo registry source directory not found: "@ + src_root@,
{
    let mut m = lit("cargo registry source directory not found: ");
    append_chars(&mut m, &chars_of(src_root));
    let mut errors: Vec<String> = Vec::new();
    errors.push(string_of(&m));
    LocalCacheRefreshOutcome {
        scanned_versions: 0,
        scanned_files: 0,
        upserted_files: 0,
        deleted_files: 0,
        touched_versions: Vec::new(),
        errors,
    }
}

/// Summary of a single enrichment maintenance scan.
#[derive(Debug, Default)]
pub struct EnrichmentMaintenanceOutcome {
    /// Number of crate names found needing enrichment.
    pub scanned: usize,
    /// New `rustdoc_json` jobs created this run.
    pub enqueued: usize,
    /// Crates that already had a pending/running job (deduplicated).
    pub already_queued: usize,
}

impl EnrichmentMaintenanceOutcome {
    /// Counts the result of enqueueing one crate's enrichment job: a new job,
    /// an already queued one, or a failure (counted nowhere).
    pub fn record_enqueue(&mut self, result: &Result<bool, String>)
        requires
            old(self).enqueued < usize::MAX,
            old(self).already_queued < usize::MAX,
        ensures
            final(self).scanned == old(self).scanned,
            final(self).enqueued == old(self).enqueued + (if result matches Ok(true) {
                1int
            } else {
                0
            }),
            final(self).already_queued == old(self).already_queued + (if result matches Ok(
                false,
            ) {
                1int
            } else {
                0
            }),
    {
        match result {
            Ok(true) => {
                self.enqueued = self.enqueued + 1;
            },
            Ok(false) => {
                self.already_queued = self.already_queued + 1;
            },
            Err(_) => {},
        }
    }
}

/// Outcome of a rustdoc JSON sync operation.
#[derive(Debug, Default)]
pub struct RustdocJsonRefreshOutcome {
    /// Number of rustdoc JSON files that were processed.
    pub scanned_files: usize,
    /// Number of crate versions whose documentation was synced.
    pub synced_versions: usize,
    /// Number of symbol entries written to the database.
    pub symbols_written: usize,
    /// Number of type entries written to the database.
    pub types_written: usize,
    /// Number of trait implementation entries written to the database.
    pub impls_written: usize,
    /// Number of trait definition entries written to the database.
    pub traits_written: usize,
    /// List of `crate@version` strings that were touched during the sync.
    pub touched_versions: Vec<String>,
    /// Errors encountered during the sync, one per failed operation.
    pub errors: Vec<String>,
}

/// Core crate metadata row.
#[derive(Clone, Debug)]
pub struct CrateCoreRow {
    /// Database id.
    pub id: i64,
    /// Crate name.
    pub name: String,
    /// Description.
    pub description: Option<String>,
    /// Repository URL.
    pub repository_url: Option<String>,
    /// Documentation URL.
    pub docs_url: Option<String>,
    /// Homepage URL.
    pub homepage_url: Option<String>,
    /// crates.io categories.
    pub categories: Vec<String>,
    /// crates.io keywords.
    pub keywords: Vec<String>,
    /// Last update time, as text.
    pub updated_at: Option<String>,
}

/// A selected crate version row.
#[derive(Clone, Debug)]
pub struct CrateVersionSelectionRow {
    /// Database id.
    pub id: i64,
    /// Version number.
    pub version: String,
    /// Minimum supported Rust version.
    pub rust_version: Option<String>,
    /// Publication time, as text.
    pub published_at: Option<String>,
    /// README contents.
    pub readme: Option<String>,
}

/// Result of the freshness check made during a tool interaction.
#[derive(Debug, Default)]
pub struct InteractionRefreshOutcome {
    /// Whether crates.io was probed.
    pub freshness_check_performed: bool,
    /// `skipped`, `failed`, `unchanged` or `changed`.
    pub freshness_check_result: String,
    /// Whether a deep refresh was enqueued.
    pub refresh_enqueued: bool,
    /// The enqueued refresh job's id.
    pub refresh_job_id: Option<String>,
}

/// Outcome of looking up a crate, its latest version, and checking freshness.
pub struct CrateContext {
    /// Core crate metadata row.
    pub crate_row: CrateCoreRow,
    /// The latest non-yanked version of the crate.
    pub latest_version: CrateVersionSelectionRow,
    /// Result of the freshness check triggered by this interaction.
    pub freshness_outcome: InteractionRefreshOutcome,
}

/// Outcome of resolving a specific or latest version, with backfill tracking.
pub struct VersionResolution {
    /// The resolved crate version row.
    pub selected_version: CrateVersionSelectionRow,
    /// Whether a backfill refresh was enqueued for a missing version.
    pub refresh_enqueued: bool,
    /// The job ID of the enqueued backfill refresh, if any.
    pub refresh_job_id: Option<String>,
}

/// What a tool call that waited for an on-demand indexing job reports: the
/// job completed, or an error naming the crate (a failure, a job still
/// pending, or the wait's own error such as a timeout).
pub open spec fn indexing_wait_spec(crate_name: Seq<char>, waited: Result<JobOutcome, String>) -> Result<
    (),
    Seq<char>,
> {
    match waited {
        Ok(JobOutcome::Completed) => Ok(()),
        Ok(JobOutcome::Failed(msg)) => Err(
            "on-demand indexing failed for '"@ + crate_name + "': "@ + msg@,
        ),
        Ok(JobOutcome::Pending) => Err(
            "unexpected pending state after waiting for on-demand indexing of '"@ + crate_name
                + "'"@,
        ),
        Err(e) => Err(e@),
    }
}

/// The view of a unit-or-message result.
pub open spec fn unit_result_view(r: Result<(), String>) -> Result<(), Seq<char>> {
    match r {
        Ok(()) => Ok(()),
        Err(e) => Err(e@),
    }
}

/// Turns the outcome of waiting for an on-demand crate indexing job into the result of
/// making sure the crate is indexed.
pub fn indexing_wait_result(crate_name: &str, waited: Result<JobOutcome, String>) -> (r: Result<
    (),
    String,
>)
    ensures
        unit_result_view(r) == indexing_wait_spec(crate_name@, waited),
{
    match waited {
        Ok(JobOutcome::Completed) => Ok(()),
        Ok(JobOutcome::Failed(msg)) => {
            let mut m = lit("on-demand indexing failed for '");
            append_chars(&mut m, &chars_of(crate_name));
            append_chars(&mut m, &lit("': "));
            append_chars(&mut m, &chars_of_string(&msg));
            Err(string_of(&m))
        },
        Ok(JobOutcome::Pending) => {
            let mut m = lit("unexpected pending state after waiting for on-demand indexing of '");
            append_chars(&mut m, &chars_of(crate_name));
            append_chars(&mut m, &lit("'"));
            Err(string_of(&m))
        },
        Err(e) => Err(e),
    }
}

/// What a missing-version backfill reports after waiting for its job.
pub open spec fn backfill_wait_spec(crate_name: Seq<char>, waited: Result<JobOutcome, String>) -> Result<
    (),
    Seq<char>,
> {
    match waited {
        Ok(JobOutcome::Completed) => Ok(()),
        Ok(JobOutcome::Failed(msg)) => Err(
            "on-demand version backfill failed for '"@ + crate_name + "': "@ + msg@,
        ),
        Ok(JobOutcome::Pending) => Err(
            "unexpected pending state after version backfill for '"@ + crate_name + "'"@,
        ),
        Err(e) => Err(e@),
    }
}

/// Turns the outcome of waiting for a missing-version backfill job into a result.
pub fn backfill_wait_result(crate_name: &str, waited: Result<JobOutcome, String>) -> (r: Result<
    (),
    String,
>)
    ensures
        unit_result_view(r) == backfill_wait_spec(crate_name@, waited),
{
    match waited {
        Ok(JobOutcome::Completed) => Ok(()),
        Ok(JobOutcome::Failed(msg)) => {
            let mut m = lit("on-demand version backfill failed for '");
            append_chars(&mut m, &chars_of(crate_name));
            append_chars(&mut m, &lit("': "));
            append_chars(&mut m, &chars_of_string(&msg));
            Err(string_of(&m))
        },
        Ok(JobOutcome::Pending) => {
            let mut m = lit("unexpected pending state after version backfill for '");
            append_chars(&mut m, &chars_of(crate_name));
            append_chars(&mut m, &lit("'"));
            Err(string_of(&m))
        },
        Err(e) => Err(e),
    }
}

/// Whether a freshness probe found a new release: crates.io reports a
/// latest version that differs from the locally indexed one.
pub fn freshness_changed(remote_max_version: &Option<String>, local_latest_version: &str) -> (b:
    bool)
    ensures
        b == match remote_max_version {
            Some(r) => r@.len() > 0 && r@ != local_latest_version@,
            None => false,
        },
{
    match remote_max_version {
        Some(r) => {
            let rv = chars_of_string(r);
            rv.len() > 0 && !chars_eq(&rv, &chars_of(local_latest_version))
        },
        None => false,
    }
}

/// A crates.io version entry.
#[derive(Clone, Debug)]
pub struct CratesIoVersion {
    /// Version number.
    pub num: String,
    /// Whether the version is yanked.
    pub yanked: bool,
}

/// The version indexed first for a crate: its `max_version` when crates.io
/// lists it, else the first version that is not yanked, else the first
/// version.
pub open spec fn primary_version_spec(max_version: Option<Seq<char>>, versions: Seq<CratesIoVersion>) -> Option<
    Seq<char>,
> {
    let listed = match max_version {
        Some(m) => exists|i: int| 0 <= i < versions.len() && versions[i].num@ == m,
        None => false,
    };
    if listed {
        max_version
    } else if exists|i: int| 0 <= i < versions.len() && !versions[i].yanked {
        Some(
            versions[choose|i: int|
                0 <= i < versions.len() && !versions[i].yanked && forall|j: int|
                    0 <= j < i ==> versions[j].yanked].num@,
        )
    } else if versions.len() > 0 {
        Some(versions[0].num@)
    } else {
        None
    }
}


/// The label stored for a crates.io category: its slug, else its name,
/// else its id.
pub fn category_label(slug: Option<String>, category: Option<String>, id: String) -> (r: String)
    ensures
        r == match slug {
            Some(s) => s,
            None => match category {
                Some(c) => c,
                None => id,
            },
        },
{
    match slug {
        Some(s) => s,
        None => match category {
            Some(c) => c,
            None => id,
        },
    }
}

/// The label stored for a crates.io keyword: the keyword, else its id.
pub fn keyword_label(keyword: Option<String>, id: String) -> (r: String)
    ensures
        r == match keyword {
            Some(k) => k,
            None => id,
        },
{
    match keyword {
        Some(k) => k,
        None => id,
    }
}

/// Picks the version to index in detail for a crate.
pub fn pick_primary_version(max_version: &Option<String>, versions: &[CratesIoVersion]) -> (r:
    Option<String>)
    ensures
        crate::jobs::opt_view(r) == primary_version_spec(crate::jobs::opt_view(*max_version), versions@),
{
    if let Some(m) = max_version {
        let mv = chars_of_string(m);
        let mut i: usize = 0;
        while i < versions.len()
            invariant
                i <= versions.len(),
                mv@ == m@,
                *max_version == Some(*m),
                forall|j: int| 0 <= j < i ==> versions@[j].num@ != m@,
            decreases versions.len() - i,
        {
            if chars_eq(&chars_of_string(&versions[i].num), &mv) {
                proof {
                    assert(versions@[i as int].num@ == m@);
                }
                return Some(m.clone());
            }
            i += 1;
        }
    }
    assert(match max_version {
        Some(m) => !exists|i: int| 0 <= i < versions@.len() && versions@[i].num@ == m@,
        None => true,
    });
    let mut k: usize = 0;
    while k < versions.len()
        invariant
            k <= versions.len(),
            forall|j: int| 0 <= j < k ==> versions@[j].yanked,
            match max_version {
                Some(m) => !exists|i: int| 0 <= i < versions@.len() && versions@[i].num@ == m@,
                None => true,
            },
        decreases versions.len() - k,
    {
        if !versions[k].yanked {
            proof {
                let w = choose|i: int|
                    0 <= i < versions@.len() && !versions@[i].yanked && forall|j: int|
                        0 <= j < i ==> versions@[j].yanked;
                assert(w == k) by {
                    if w < k {
                    } else if w > k {
                    }
                }
            }
            return Some(versions[k].num.clone());
        }
        k += 1;
    }
    if versions.len() > 0 {
        Some(versions[0].num.clone())
    } else {
        None
    }
}

/// What a freshness probe of crates.io found, as the interaction sees it.
#[derive(Debug)]
pub enum FreshnessProbe {
    /// The crate's refresh deadline has not passed; crates.io is not asked.
    NotDue,
    /// Asking crates.io failed with this error.
    Failed(String),
    /// crates.io answered with this `max_version`, if it gave one.
    Answered(Option<String>),
}

/// What an interaction does after its freshness probe.
#[derive(Debug, PartialEq, Eq, Structural, Clone, Copy)]
pub enum FreshnessAction {
    /// Nothing: freshness is not probed.
    Skip,
    /// Record the probe failure.
    RecordFailure,
    /// Record that the crate is unchanged.
    RecordUnchanged,
    /// Refresh the crate inline and enqueue a deep refresh.
    RefreshChanged,
}

/// The action for a probe result.
pub open spec fn freshness_action_spec(probe: FreshnessProbe, local_latest: Seq<char>) -> FreshnessAction {
    match probe {
        FreshnessProbe::NotDue => FreshnessAction::Skip,
        FreshnessProbe::Failed(_) => FreshnessAction::RecordFailure,
        FreshnessProbe::Answered(remote) => match remote {
            Some(r) => if r@.len() > 0 && r@ != local_latest {
                FreshnessAction::RefreshChanged
            } else {
                FreshnessAction::RecordUnchanged
            },
            None => FreshnessAction::RecordUnchanged,
        },
    }
}

/// Decides what an interaction does after probing crates.io.
pub fn freshness_action(probe: &FreshnessProbe, local_latest_version: &str) -> (r: FreshnessAction)
    ensures
        r == freshness_action_spec(*probe, local_latest_version@),
{
    match probe {
        FreshnessProbe::NotDue => FreshnessAction::Skip,
        FreshnessProbe::Failed(_) => FreshnessAction::RecordFailure,
        FreshnessProbe::Answered(remote) => if freshness_changed(remote, local_latest_version) {
            FreshnessAction::RefreshChanged
        } else {
            FreshnessAction::RecordUnchanged
        },
    }
}

/// What an interaction reports after acting on its probe: `skipped`,
/// `failed`, `unchanged`, or `changed` with the enqueued refresh job.
pub fn interaction_outcome(action: FreshnessAction, refresh_job_id: Option<String>) -> (r: InteractionRefreshOutcome)
    ensures
        r.freshness_check_performed == (action != FreshnessAction::Skip),
        r.freshness_check_result@ == match action {
            FreshnessAction::Skip => "skipped"@,
            FreshnessAction::RecordFailure => "failed"@,
            FreshnessAction::RecordUnchanged => "unchanged"@,
            FreshnessAction::RefreshChanged => "changed"@,
        },
        r.refresh_enqueued == (action == FreshnessAction::RefreshChanged),
        r.refresh_job_id == if action == FreshnessAction::RefreshChanged {
            refresh_job_id
        } else {
            None
        },
{
    match action {
        FreshnessAction::Skip => InteractionRefreshOutcome {
            freshness_check_performed: false,
            freshness_check_result: string_of(&lit("skipped")),
            refresh_enqueued: false,
            refresh_job_id: None,
        },
        FreshnessAction::RecordFailure => InteractionRefreshOutcome {
            freshness_check_performed: true,
            freshness_check_result: string_of(&lit("failed")),
            refresh_enqueued: false,
            refresh_job_id: None,
        },
        FreshnessAction::RecordUnchanged => InteractionRefreshOutcome {
            freshness_check_performed: true,
            freshness_check_result: string_of(&lit("unchanged")),
            refresh_enqueued: false,
            refresh_job_id: None,
        },
        FreshnessAction::RefreshChanged => InteractionRefreshOutcome {
            freshness_check_performed: true,
            freshness_check_result: string_of(&lit("changed")),
            refresh_enqueued: true,
            refresh_job_id,
        },
    }
}

fn quoted_message(pre: &str, name: &str, post: &str) -> (r: String)
    ensures
        r@ == pre@ + name@ + post@,
{
    let mut m = lit(pre);
    append_chars(&mut m, &chars_of(name));
    append_chars(&mut m, &lit(post));
    string_of(&m)
}

/// The error of a tool call about a crate that is not in the index.
pub fn crate_not_indexed_error(crate_name: &str) -> (r: String)
    ensures
        r@ == "crate '"@ + crate_name@ + "' is not indexed locally; run index.sync_crates first"@,
{
    quoted_message("crate '", crate_name, "' is not indexed locally; run index.sync_crates first")
}

/// The error of a tool call about a crate with no indexed version.
pub fn no_indexed_versions_error(crate_name: &str) -> (r: String)
    ensures
        r@ == "crate '"@ + crate_name@ + "' has no indexed versions yet; run index.sync_crates first"@,
{
    quoted_message("crate '", crate_name, "' has no indexed versions yet; run index.sync_crates first")
}

/// The error of a tool call about a version still missing after a refresh.
pub fn version_not_indexed_error(version: &str, crate_name: &str) -> (r: String)
    ensures
        r@ == "version '"@ + version@ + "' for crate '"@ + crate_name@
            + "' is not indexed locally (refresh attempted)"@,
{
    let mut m = lit("version '");
    append_chars(&mut m, &chars_of(version));
    append_chars(&mut m, &lit("' for crate '"));
    append_chars(&mut m, &chars_of(crate_name));
    append_chars(&mut m, &lit("' is not indexed locally (refresh attempted)"));
    string_of(&m)
}

} // verus!
