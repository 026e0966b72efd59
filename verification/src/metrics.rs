//! Descriptions of the Prometheus metrics the application exports.
use vstd::prelude::*;
use crate::outcomes::{LocalCacheRefreshOutcome, RustdocJsonRefreshOutcome, SyncCrateOutcome};
use crate::security::SecuritySyncOutcome;

verus! {

/// The type of a metric.
#[derive(Clone, Copy, Debug, PartialEq, Eq, Structural)]
pub enum MetricKind {
    /// A monotonic counter.
    Counter,
    /// A value that goes up and down.
    Gauge,
    /// A distribution of observations.
    Histogram,
}

/// The HELP text of one metric.
#[derive(Clone, Copy, Debug)]
pub struct MetricDescription {
    /// The metric's type.
    pub kind: MetricKind,
    /// The metric's name.
    pub name: &'static str,
    /// The HELP description.
    pub description: &'static str,
}

/// A description as plain values.
pub open spec fn description_view(d: MetricDescription) -> (MetricKind, Seq<char>, Seq<char>) {
    (d.kind, d.name@, d.description@)
}

/// Every metric the application exports, with its type and description.
pub open spec fn metric_table() -> Seq<(MetricKind, Seq<char>, Seq<char>)> {
    seq![
        (MetricKind::Counter, "rust_mcp_tool_invocations_total"@, "Total MCP tool calls, labeled by tool name and success/failure"@),
        (MetricKind::Histogram, "rust_mcp_tool_latency_ms"@, "Tool call latency in milliseconds, labeled by tool name"@),
        (MetricKind::Gauge, "rust_mcp_refresh_jobs_pending"@, "Number of refresh jobs waiting to be processed"@),
        (MetricKind::Gauge, "rust_mcp_refresh_jobs_running"@, "Number of refresh jobs currently executing"@),
        (MetricKind::Gauge, "rust_mcp_refresh_jobs_failed"@, "Number of refresh jobs in failed state"@),
        (MetricKind::Gauge, "rust_mcp_refresh_jobs_background_ratio"@, "Ratio of background (discovery/enrichment) jobs to total pending jobs"@),
        (MetricKind::Gauge, "rust_mcp_refresh_jobs_scope_pending"@, "Pending refresh jobs broken down by scope (crate, rustdoc_json, local_cache, etc.)"@),
        (MetricKind::Counter, "rust_mcp_refresh_jobs_completed_total"@, "Total refresh jobs completed successfully, labeled by scope"@),
        (MetricKind::Counter, "rust_mcp_refresh_jobs_errored_total"@, "Total refresh jobs that failed (terminal or retriable), labeled by scope"@),
        (MetricKind::Counter, "rust_mcp_crate_versions_synced_total"@, "Total crate versions whose metadata was synced from crates.io"@),
        (MetricKind::Counter, "rust_mcp_dependencies_synced_total"@, "Total dependency edges synced from crates.io"@),
        (MetricKind::Counter, "rust_mcp_rustdoc_symbols_written_total"@, "Total symbols extracted and written from rustdoc JSON"@),
        (MetricKind::Counter, "rust_mcp_rustdoc_types_written_total"@, "Total type definitions extracted from rustdoc JSON"@),
        (MetricKind::Counter, "rust_mcp_rustdoc_impls_written_total"@, "Total impl blocks extracted from rustdoc JSON"@),
        (MetricKind::Counter, "rust_mcp_rustdoc_traits_written_total"@, "Total trait definitions extracted from rustdoc JSON"@),
        (MetricKind::Counter, "rust_mcp_source_files_upserted_total"@, "Total source files upserted from local cargo registry cache"@),
        (MetricKind::Counter, "rust_mcp_docs_pages_written_total"@, "Total documentation pages written from docs.rs"@),
        (MetricKind::Counter, "rust_mcp_security_advisories_written_total"@, "Total security advisories written from OSV/RustSec"@),
        (MetricKind::Counter, "rust_mcp_discovery_scans_total"@, "Total registry discovery scans performed"@),
        (MetricKind::Counter, "rust_mcp_discovery_jobs_enqueued_total"@, "Total refresh jobs enqueued by registry discovery"@),
        (MetricKind::Counter, "rust_mcp_discovery_scan_errors_total"@, "Total errors encountered during registry discovery scans"@),
        (MetricKind::Histogram, "rust_mcp_discovery_scan_duration_ms"@, "Duration of registry discovery scans in milliseconds"@),
        (MetricKind::Counter, "rust_mcp_cache_watch_jobs_enqueued_total"@, "Total refresh jobs enqueued by the cargo cache watcher"@),
        (MetricKind::Histogram, "rust_mcp_cache_watch_poll_duration_ms"@, "Duration of cargo cache watcher polls in milliseconds"@),
        (MetricKind::Counter, "rust_mcp_security_sync_scans_total"@, "Total periodic security sync scans performed"@),
        (MetricKind::Counter, "rust_mcp_security_sync_errors_total"@, "Total errors encountered during periodic security sync scans"@),
        (MetricKind::Histogram, "rust_mcp_security_sync_duration_ms"@, "Duration of periodic security sync scans in milliseconds"@),
        (MetricKind::Counter, "rust_mcp_enrichment_maintenance_scans_total"@, "Total enrichment maintenance scans performed"@),
        (MetricKind::Counter, "rust_mcp_enrichment_maintenance_jobs_enqueued_total"@, "Total enrichment jobs enqueued by maintenance scans"@),
        (MetricKind::Counter, "rust_mcp_enrichment_maintenance_errors_total"@, "Total errors encountered during enrichment maintenance scans"@),
        (MetricKind::Histogram, "rust_mcp_enrichment_maintenance_duration_ms"@, "Duration of enrichment maintenance scans in milliseconds"@),
    ]
}

/// The descriptions of every exported metric, in registration order.
pub fn metric_descriptions() -> (out: Vec<MetricDescription>)
    ensures
        out@.map_values(|d: MetricDescription| description_view(d)) == metric_table(),
{
    let mut out: Vec<MetricDescription> = Vec::new();
    out.push(MetricDescription { kind: MetricKind::Counter, name: "rust_mcp_tool_invocations_total", description: "Total MCP tool calls, labeled by tool name and success/failure" });
    out.push(MetricDescription { kind: MetricKind::Histogram, name: "rust_mcp_tool_latency_ms", description: "Tool call latency in milliseconds, labeled by tool name" });
    out.push(MetricDescription { kind: MetricKind::Gauge, name: "rust_mcp_refresh_jobs_pending", description: "Number of refresh jobs waiting to be processed" });
    out.push(MetricDescription { kind: MetricKind::Gauge, name: "rust_mcp_refresh_jobs_running", description: "Number of refresh jobs currently executing" });
    out.push(MetricDescription { kind: MetricKind::Gauge, name: "rust_mcp_refresh_jobs_failed", description: "Number of refresh jobs in failed state" });
    out.push(MetricDescription { kind: MetricKind::Gauge, name: "rust_mcp_refresh_jobs_background_ratio", description: "Ratio of background (discovery/enrichment) jobs to total pending jobs" });
    out.push(MetricDescription { kind: MetricKind::Gauge, name: "rust_mcp_refresh_jobs_scope_pending", description: "Pending refresh jobs broken down by scope (crate, rustdoc_json, local_cache, etc.)" });
    out.push(MetricDescription { kind: MetricKind::Counter, name: "rust_mcp_refresh_jobs_completed_total", description: "Total refresh jobs completed successfully, labeled by scope" });
    out.push(MetricDescription { kind: MetricKind::Counter, name: "rust_mcp_refresh_jobs_errored_total", description: "Total refresh jobs that failed (terminal or retriable), labeled by scope" });
    out.push(MetricDescription { kind: MetricKind::Counter, name: "rust_mcp_crate_versions_synced_total", description: "Total crate versions whose metadata was synced from crates.io" });
    out.push(MetricDescription { kind: MetricKind::Counter, name: "rust_mcp_dependencies_synced_total", description: "Total dependency edges synced from crates.io" });
    out.push(MetricDescription { kind: MetricKind::Counter, name: "rust_mcp_rustdoc_symbols_written_total", description: "Total symbols extracted and written from rustdoc JSON" });
    out.push(MetricDescription { kind: MetricKind::Counter, name: "rust_mcp_rustdoc_types_written_total", description: "Total type definitions extracted from rustdoc JSON" });
    out.push(MetricDescription { kind: MetricKind::Counter, name: "rust_mcp_rustdoc_impls_written_total", description: "Total impl blocks extracted from rustdoc JSON" });
    out.push(MetricDescription { kind: MetricKind::Counter, name: "rust_mcp_rustdoc_traits_written_total", description: "Total trait definitions extracted from rustdoc JSON" });
    out.push(MetricDescription { kind: MetricKind::Counter, name: "rust_mcp_source_files_upserted_total", description: "Total source files upserted from local cargo registry cache" });
    out.push(MetricDescription { kind: MetricKind::Counter, name: "rust_mcp_docs_pages_written_total", description: "Total documentation pages written from docs.rs" });
    out.push(MetricDescription { kind: MetricKind::Counter, name: "rust_mcp_security_advisories_written_total", description: "Total security advisories written from OSV/RustSec" });
    out.push(MetricDescription { kind: MetricKind::Counter, name: "rust_mcp_discovery_scans_total", description: "Total registry discovery scans performed" });
    out.push(MetricDescription { kind: MetricKind::Counter, name: "rust_mcp_discovery_jobs_enqueued_total", description: "Total refresh jobs enqueued by registry discovery" });
    out.push(MetricDescription { kind: MetricKind::Counter, name: "rust_mcp_discovery_scan_errors_total", description: "Total errors encountered during registry discovery scans" });
    out.push(MetricDescription { kind: MetricKind::Histogram, name: "rust_mcp_discovery_scan_duration_ms", description: "Duration of registry discovery scans in milliseconds" });
    out.push(MetricDescription { kind: MetricKind::Counter, name: "rust_mcp_cache_watch_jobs_enqueued_total", description: "Total refresh jobs enqueued by the cargo cache watcher" });
    out.push(MetricDescription { kind: MetricKind::Histogram, name: "rust_mcp_cache_watch_poll_duration_ms", description: "Duration of cargo cache watcher polls in milliseconds" });
    out.push(MetricDescription { kind: MetricKind::Counter, name: "rust_mcp_security_sync_scans_total", description: "Total periodic security sync scans performed" });
    out.push(MetricDescription { kind: MetricKind::Counter, name: "rust_mcp_security_sync_errors_total", description: "Total errors encountered during periodic security sync scans" });
    out.push(MetricDescription { kind: MetricKind::Histogram, name: "rust_mcp_security_sync_duration_ms", description: "Duration of periodic security sync scans in milliseconds" });
    out.push(MetricDescription { kind: MetricKind::Counter, name: "rust_mcp_enrichment_maintenance_scans_total", description: "Total enrichment maintenance scans performed" });
    out.push(MetricDescription { kind: MetricKind::Counter, name: "rust_mcp_enrichment_maintenance_jobs_enqueued_total", description: "Total enrichment jobs enqueued by maintenance scans" });
    out.push(MetricDescription { kind: MetricKind::Counter, name: "rust_mcp_enrichment_maintenance_errors_total", description: "Total errors encountered during enrichment maintenance scans" });
    out.push(MetricDescription { kind: MetricKind::Histogram, name: "rust_mcp_enrichment_maintenance_duration_ms", description: "Duration of enrichment maintenance scans in milliseconds" });
    proof {
        assert(out@.map_values(|d: MetricDescription| description_view(d)) =~= metric_table());
    }
    out
}

/// Describes a counter to the installed metrics recorder
/// (`Recorder::describe_counter` through `metrics::with_recorder`, no unit).
/// It reports to whatever recorder is installed; nothing is stated about that.
#[verifier::external_body]
fn describe_counter_metric(name: &'static str, description: &'static str) {
    metrics::with_recorder(|recorder| recorder.describe_counter(name.into(), None, description.into()))
}

/// Describes a gauge to the installed metrics recorder
/// (`Recorder::describe_gauge` through `metrics::with_recorder`, no unit).
/// It reports to whatever recorder is installed; nothing is stated about that.
#[verifier::external_body]
fn describe_gauge_metric(name: &'static str, description: &'static str) {
    metrics::with_recorder(|recorder| recorder.describe_gauge(name.into(), None, description.into()))
}

/// Describes a histogram to the installed metrics recorder
/// (`Recorder::describe_histogram` through `metrics::with_recorder`, no unit).
/// It reports to whatever recorder is installed; nothing is stated about that.
#[verifier::external_body]
fn describe_histogram_metric(name: &'static str, description: &'static str) {
    metrics::with_recorder(|recorder| recorder.describe_histogram(name.into(), None, description.into()))
}

/// Registers HELP descriptions for all Prometheus metrics exported by the
/// application, one per entry of [`metric_descriptions`]. Call once after
/// the recorder is installed.
pub fn register_metric_descriptions() {
    let all = metric_descriptions();
    let mut i: usize = 0;
    while i < all.len()
        invariant
            i <= all.len(),
        decreases all.len() - i,
    {
        let d = all[i];
        match d.kind {
            MetricKind::Counter => describe_counter_metric(d.name, d.description),
            MetricKind::Gauge => describe_gauge_metric(d.name, d.description),
            MetricKind::Histogram => describe_histogram_metric(d.name, d.description),
        }
        i += 1;
    }
}

/// Outcome of a docs.rs documentation refresh.
#[derive(Debug, Default)]
pub struct DocsRefreshOutcome {
    /// Number of crate versions whose documentation was processed.
    pub versions_processed: usize,
    /// Number of documentation pages written.
    pub pages_written: usize,
}

/// The outcome of one refresh job, by the kind of work it did.
#[derive(Debug)]
pub enum RefreshJobOutcome {
    CrateSync(SyncCrateOutcome),
    RustdocJson(RustdocJsonRefreshOutcome),
    LocalCache(LocalCacheRefreshOutcome),
    Docs(DocsRefreshOutcome),
    Security(SecuritySyncOutcome),
    /// A sync of all crates, whose counters are kept as it runs.
    AllSync,
}

/// The counters a refresh job's outcome increments, with the amounts.
pub open spec fn outcome_counters(o: RefreshJobOutcome) -> Seq<(Seq<char>, u64)> {
    match o {
        RefreshJobOutcome::CrateSync(c) => seq![
            ("rust_mcp_crate_versions_synced_total"@, c.versions_synced as u64),
            ("rust_mcp_dependencies_synced_total"@, c.dependencies_synced as u64),
        ],
        RefreshJobOutcome::RustdocJson(r) => seq![
            ("rust_mcp_rustdoc_symbols_written_total"@, r.symbols_written as u64),
            ("rust_mcp_rustdoc_types_written_total"@, r.types_written as u64),
            ("rust_mcp_rustdoc_impls_written_total"@, r.impls_written as u64),
            ("rust_mcp_rustdoc_traits_written_total"@, r.traits_written as u64),
        ],
        RefreshJobOutcome::LocalCache(l) => seq![
            ("rust_mcp_source_files_upserted_total"@, l.upserted_files as u64),
        ],
        RefreshJobOutcome::Docs(d) => seq![
            ("rust_mcp_docs_pages_written_total"@, d.pages_written as u64),
        ],
        RefreshJobOutcome::Security(s) => seq![
            ("rust_mcp_security_advisories_written_total"@, s.advisories_written as u64),
        ],
        RefreshJobOutcome::AllSync => seq![],
    }
}

/// The views of counter increments.
pub open spec fn increment_views(v: Seq<(&'static str, u64)>) -> Seq<(Seq<char>, u64)> {
    v.map_values(|p: (&'static str, u64)| (p.0@, p.1))
}

/// The counter increments for a refresh job's outcome, in emission order.
pub fn outcome_counter_increments(outcome: &RefreshJobOutcome) -> (out: Vec<(&'static str, u64)>)
    ensures
        increment_views(out@) == outcome_counters(*outcome),
{
    let mut out: Vec<(&'static str, u64)> = Vec::new();
    match outcome {
        RefreshJobOutcome::CrateSync(c) => {
            out.push(("rust_mcp_crate_versions_synced_total", c.versions_synced as u64));
            out.push(("rust_mcp_dependencies_synced_total", c.dependencies_synced as u64));
        },
        RefreshJobOutcome::RustdocJson(r) => {
            out.push(("rust_mcp_rustdoc_symbols_written_total", r.symbols_written as u64));
            out.push(("rust_mcp_rustdoc_types_written_total", r.types_written as u64));
            out.push(("rust_mcp_rustdoc_impls_written_total", r.impls_written as u64));
            out.push(("rust_mcp_rustdoc_traits_written_total", r.traits_written as u64));
        },
        RefreshJobOutcome::LocalCache(l) => {
            out.push(("rust_mcp_source_files_upserted_total", l.upserted_files as u64));
        },
        RefreshJobOutcome::Docs(d) => {
            out.push(("rust_mcp_docs_pages_written_total", d.pages_written as u64));
        },
        RefreshJobOutcome::Security(s) => {
            out.push(("rust_mcp_security_advisories_written_total", s.advisories_written as u64));
        },
        RefreshJobOutcome::AllSync => {},
    }
    proof {
        assert(increment_views(out@) =~= outcome_counters(*outcome));
    }
    out
}

/// Increments a counter of the installed metrics recorder by `value`, as
/// `metrics::counter!(name).increment(value)` does (`Recorder::register_counter`
/// through `metrics::with_recorder`). It reports to whatever recorder is
/// installed; nothing is stated about that.
#[verifier::external_body]
fn increment_counter(name: &'static str, value: u64) {
    let key = metrics::Key::from_static_name(name);
    let target = "rust_mcp::mcp::indexing::worker";
    let metadata = metrics::Metadata::new(target, metrics::Level::INFO, Some(target));
    metrics::with_recorder(|recorder| recorder.register_counter(&key, &metadata)).increment(value)
}

/// Increments the counters of a refresh job's outcome, one call per entry of
/// [`outcome_counter_increments`].
pub fn emit_outcome_counters(outcome: &RefreshJobOutcome) {
    let all = outcome_counter_increments(outcome);
    let mut i: usize = 0;
    while i < all.len()
        invariant
            i <= all.len(),
        decreases all.len() - i,
    {
        let (name, value) = all[i];
        increment_counter(name, value);
        i += 1;
    }
}

} // verus!
