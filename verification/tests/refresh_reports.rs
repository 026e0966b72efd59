use rust_mcp::outcomes::{LocalCacheRefreshOutcome, RustdocJsonRefreshOutcome, SyncCrateOutcome};
use rust_mcp::refresh_report::{
    crate_refresh_report, docs_refresh_report, eta_has_enough_samples, local_cache_page_offset,
    local_cache_refresh_report, needs_symbol_reindex, page_of, refresh_scope_key,
    unparseable_file_error, rustdoc_refresh_report, security_page_offset,
    security_refresh_report, DocsPagesOutcome, FreshnessEntry, IndexRefreshScope,
};
use rust_mcp::security::SecuritySyncOutcome;

fn pairs(entries: &[FreshnessEntry]) -> Vec<(String, String)> {
    entries.iter().map(|e| (e.source.clone(), e.status.clone())).collect()
}

fn pair(a: &str, b: &str) -> (String, String) {
    (a.to_string(), b.to_string())
}

#[test]
fn crate_refresh_reports_success_and_failure() {
    let ok = crate_refresh_report(
        "serde",
        Ok(SyncCrateOutcome {
            versions_synced: 12,
            dependencies_synced: 3,
            selected_version: Some("1.0.0".to_string()),
        }),
    );
    assert_eq!(ok.status, "completed");
    assert_eq!(ok.message, "refreshed serde");
    assert_eq!((ok.result.synced_crates, ok.result.synced_versions, ok.result.synced_dependencies), (1, 12, 3));
    assert_eq!(ok.result.selected_versions, vec!["serde@1.0.0".to_string()]);
    assert!(ok.result.errors.is_empty());
    assert_eq!(pairs(&ok.freshness), vec![pair("crates.io", "refreshed"), pair("local_postgres_index", "updated")]);
    assert_eq!(ok.provenance, "crates.io + local_postgres_index");

    let failed = crate_refresh_report("serde", Err("boom".to_string()));
    assert_eq!(failed.status, "failed");
    assert_eq!(failed.message, "refresh failed for serde");
    assert_eq!(failed.result.errors, vec!["boom".to_string()]);
    assert_eq!(failed.result.synced_crates, 0);
    assert_eq!(pairs(&failed.freshness), vec![pair("crates.io", "failed"), pair("local_postgres_index", "unchanged")]);
}

#[test]
fn scope_reports_describe_their_outcomes() {
    let local = local_cache_refresh_report(LocalCacheRefreshOutcome {
        scanned_versions: 2,
        scanned_files: 40,
        upserted_files: 7,
        deleted_files: 1,
        touched_versions: vec!["a@1".to_string()],
        errors: vec![],
    });
    assert_eq!(local.status, "completed");
    assert_eq!(local.message, "scanned 2 crate versions (40 files), upserted 7, pruned 1");
    assert_eq!(local.provenance, "cargo_registry + local_postgres_index");

    let docs = docs_refresh_report(DocsPagesOutcome {
        versions_processed: 3,
        pages_written: 120,
        touched_versions: vec![],
        errors: vec!["x".to_string()],
    });
    assert_eq!(docs.status, "completed_with_errors");
    assert_eq!(docs.message, "docs sync processed 3 crate versions and wrote 120 docs pages");
    assert_eq!(docs.result.synced_dependencies, 0);

    let rustdoc = rustdoc_refresh_report(RustdocJsonRefreshOutcome {
        scanned_files: 5,
        synced_versions: 4,
        symbols_written: 1000,
        types_written: 30,
        impls_written: 20,
        traits_written: 10,
        touched_versions: vec![],
        errors: vec![],
    });
    assert_eq!(
        rustdoc.message,
        "rustdoc JSON sync scanned 5 files, synced 4 crate versions, wrote 1000 symbols, 30 types, 20 impls, 10 traits"
    );
    assert_eq!(rustdoc.result.synced_types, Some(30));
    assert_eq!(rustdoc.result.synced_dependencies, 1000);

    let security = security_refresh_report(
        SecuritySyncOutcome {
            crates_processed: 9,
            advisories_written: 2,
            errors: vec![],
            touched_crates: vec!["tokio".to_string()],
        },
        false,
    );
    assert_eq!(security.message, "security sync processed 9 crates and wrote 2 advisory matches");
    assert_eq!(
        pairs(&security.freshness),
        vec![pair("osv.dev", "refreshed"), pair("rustsec-db", "skipped"), pair("local_postgres_index", "updated")]
    );
    assert_eq!(security.provenance, "osv.dev + local_postgres_index");
    assert_eq!(security.result.selected_versions, vec!["tokio".to_string()]);
}

#[test]
fn scopes_offsets_and_estimates() {
    assert_eq!(refresh_scope_key(IndexRefreshScope::LocalCache), "local_cache");
    assert_eq!(refresh_scope_key(IndexRefreshScope::RustdocJson), "rustdoc_json");
    assert_eq!(security_page_offset(1, 50), 0);
    assert_eq!(security_page_offset(0, 50), 0);
    assert_eq!(security_page_offset(3, 50), 100);
    assert_eq!(local_cache_page_offset(2, 25), 25);
    assert_eq!(local_cache_page_offset(u32::MAX, usize::MAX), usize::MAX);
    assert!(!eta_has_enough_samples(2));
    assert!(eta_has_enough_samples(3));
}

#[test]
fn pages_skip_then_take() {
    assert_eq!(page_of(vec![1, 2, 3, 4, 5], 1, 2), vec![2, 3]);
    assert_eq!(page_of(vec![1, 2, 3], 2, 5), vec![3]);
    assert_eq!(page_of(vec![1, 2, 3], 7, 2), Vec::<i32>::new());
    assert_eq!(page_of(vec![1, 2, 3], 0, 0), Vec::<i32>::new());
}

#[test]
fn changed_or_unindexed_rust_files_are_reindexed() {
    let rust = Some("rust".to_string());
    assert!(needs_symbol_reindex(&rust, Some(4), true, 9));
    assert!(needs_symbol_reindex(&rust, Some(4), false, 0));
    assert!(!needs_symbol_reindex(&rust, Some(4), false, 3));
    assert!(!needs_symbol_reindex(&rust, None, true, 0));
    assert!(!needs_symbol_reindex(&Some("toml".to_string()), Some(4), true, 0));
    assert_eq!(
        unparseable_file_error("src/a.rs", "foo", "1.0.0", "expected `;`"),
        "skipped unparseable file src/a.rs in foo@1.0.0: expected `;`"
    );
}
