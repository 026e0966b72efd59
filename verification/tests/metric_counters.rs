use rust_mcp::metrics::{
    emit_outcome_counters, metric_descriptions, outcome_counter_increments,
    register_metric_descriptions, DocsRefreshOutcome, MetricKind, RefreshJobOutcome,
};
use rust_mcp::outcomes::{LocalCacheRefreshOutcome, RustdocJsonRefreshOutcome, SyncCrateOutcome};

#[test]
fn every_metric_is_described_once() {
    let all = metric_descriptions();
    assert_eq!(all.len(), 31);
    assert_eq!(all[0].name, "rust_mcp_tool_invocations_total");
    assert!(matches!(all[1].kind, MetricKind::Histogram));
    let mut names: Vec<&str> = all.iter().map(|d| d.name).collect();
    names.sort();
    names.dedup();
    assert_eq!(names.len(), 31);
    register_metric_descriptions();
}

#[test]
fn outcomes_map_to_their_counters() {
    let crate_sync = RefreshJobOutcome::CrateSync(SyncCrateOutcome {
        versions_synced: 4,
        dependencies_synced: 9,
        selected_version: None,
    });
    assert_eq!(
        outcome_counter_increments(&crate_sync),
        vec![("rust_mcp_crate_versions_synced_total", 4), ("rust_mcp_dependencies_synced_total", 9)]
    );
    let rustdoc = RefreshJobOutcome::RustdocJson(RustdocJsonRefreshOutcome {
        symbols_written: 1,
        types_written: 2,
        impls_written: 3,
        traits_written: 4,
        ..Default::default()
    });
    assert_eq!(
        outcome_counter_increments(&rustdoc),
        vec![
            ("rust_mcp_rustdoc_symbols_written_total", 1),
            ("rust_mcp_rustdoc_types_written_total", 2),
            ("rust_mcp_rustdoc_impls_written_total", 3),
            ("rust_mcp_rustdoc_traits_written_total", 4),
        ]
    );
    let local = RefreshJobOutcome::LocalCache(LocalCacheRefreshOutcome { upserted_files: 8, ..Default::default() });
    assert_eq!(outcome_counter_increments(&local), vec![("rust_mcp_source_files_upserted_total", 8)]);
    let docs = RefreshJobOutcome::Docs(DocsRefreshOutcome { versions_processed: 1, pages_written: 6 });
    assert_eq!(outcome_counter_increments(&docs), vec![("rust_mcp_docs_pages_written_total", 6)]);
    assert!(outcome_counter_increments(&RefreshJobOutcome::AllSync).is_empty());
    emit_outcome_counters(&docs);
}
