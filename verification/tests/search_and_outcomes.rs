use rust_mcp::jobs::JobOutcome;
use rust_mcp::outcomes::{
    backfill_wait_result, crate_not_indexed_error, freshness_action, freshness_changed,
    indexing_wait_result, interaction_outcome, no_indexed_versions_error, pick_primary_version,
    version_not_indexed_error, CratesIoVersion, EnrichmentMaintenanceOutcome, FreshnessAction,
    FreshnessProbe,
};
use rust_mcp::ripgrep::{
    absorb_matches, next_search_limit, parse_json_output, rg_args, rg_status_ok, RipgrepError,
    RipgrepMatch, RipgrepMode,
};

fn m(path: &str, line: u32) -> RipgrepMatch {
    RipgrepMatch { path: path.to_string(), line_number: line, line_content: "x".to_string() }
}

#[test]
fn ripgrep_arguments_and_status() {
    assert_eq!(
        rg_args("hello", RipgrepMode::FixedString, Some("*.rs"), "/tmp/x"),
        vec!["--json", "--no-heading", "-F", "-i", "--glob", "*.rs", "--", "hello", "/tmp/x"]
    );
    assert_eq!(rg_args("a.b", RipgrepMode::Regex, None, "d"), vec!["--json", "--no-heading", "-i", "--", "a.b", "d"]);
    assert!(rg_status_ok(true, Some(0)));
    assert!(rg_status_ok(false, Some(1)));
    assert!(!rg_status_ok(false, Some(2)));
    assert!(!rg_status_ok(false, None));
}

#[test]
fn ripgrep_json_output_is_decoded_relative_to_the_root() {
    let out = [
        "{\"type\":\"begin\",\"data\":{\"path\":{\"text\":\"/root/src/lib.rs\"}}}\n",
        "{\"type\":\"match\",\"data\":{\"path\":{\"text\":\"/root/src/lib.rs\"},\"lines\":{\"text\":\"fn hello() {}\\r\\n\"},\"line_number\":3}}\n",
        "{\"type\":\"match\",\"data\":{\"path\":{\"text\":\"/elsewhere/a.rs\"},\"lines\":{\"text\":\"hello\"},\"line_number\":7}}\n",
        "{\"type\":\"match\",\"data\":{\"path\":{\"text\":\"/root/b.rs\"},\"lines\":{\"text\":\"third\"},\"line_number\":9}}\n",
    ]
    .concat();
    let matches = parse_json_output(&out, "/root", 2).expect("valid output");
    assert_eq!(matches.len(), 2);
    assert_eq!((matches[0].path.as_str(), matches[0].line_number, matches[0].line_content.as_str()), ("src/lib.rs", 3, "fn hello() {}"));
    assert_eq!(matches[1].path, "elsewhere/a.rs");
    let no_data = "{\"type\":\"match\"}\n";
    assert!(parse_json_output(no_data, "/root", 10).expect("valid").is_empty());
    assert!(matches!(parse_json_output("not json", "/root", 10), Err(RipgrepError::ParseError(_))));
    assert!(parse_json_output("not json", "/root", 0).expect("nothing read").is_empty());
}

#[test]
fn multi_directory_budget() {
    assert_eq!(next_search_limit(0, 10, 100), Some(10));
    assert_eq!(next_search_limit(95, 10, 100), Some(5));
    assert_eq!(next_search_limit(100, 10, 100), None);
    let mut results = vec![(0usize, m("a", 1))];
    absorb_matches(&mut results, 1, vec![m("b", 2), m("c", 3), m("d", 4)], 3);
    assert_eq!(results.len(), 3);
    assert_eq!(results[1].0, 1);
    assert_eq!(results[2].1.path, "c");
}

#[test]
fn waiting_for_jobs_reports_their_outcome() {
    assert_eq!(indexing_wait_result("serde", Ok(JobOutcome::Completed)), Ok(()));
    assert_eq!(
        indexing_wait_result("serde", Ok(JobOutcome::Failed("boom".to_string()))),
        Err("on-demand indexing failed for 'serde': boom".to_string())
    );
    assert_eq!(
        indexing_wait_result("serde", Ok(JobOutcome::Pending)),
        Err("unexpected pending state after waiting for on-demand indexing of 'serde'".to_string())
    );
    assert_eq!(indexing_wait_result("serde", Err("timeout".to_string())), Err("timeout".to_string()));
    assert_eq!(
        backfill_wait_result("serde", Ok(JobOutcome::Failed("x".to_string()))),
        Err("on-demand version backfill failed for 'serde': x".to_string())
    );
}

#[test]
fn primary_versions_and_freshness() {
    let versions = vec![
        CratesIoVersion { num: "2.0.0".to_string(), yanked: true },
        CratesIoVersion { num: "1.9.0".to_string(), yanked: false },
    ];
    assert_eq!(pick_primary_version(&Some("2.0.0".to_string()), &versions), Some("2.0.0".to_string()));
    assert_eq!(pick_primary_version(&Some("3.0.0".to_string()), &versions), Some("1.9.0".to_string()));
    assert_eq!(pick_primary_version(&None, &versions[..1]), Some("2.0.0".to_string()));
    assert_eq!(pick_primary_version(&None, &[]), None);
    assert!(freshness_changed(&Some("1.1.0".to_string()), "1.0.0"));
    assert!(!freshness_changed(&Some("1.0.0".to_string()), "1.0.0"));
    assert!(!freshness_changed(&Some(String::new()), "1.0.0"));
    assert!(!freshness_changed(&None, "1.0.0"));
    let mut outcome = EnrichmentMaintenanceOutcome::default();
    outcome.record_enqueue(&Ok(true));
    outcome.record_enqueue(&Ok(false));
    outcome.record_enqueue(&Err("x".to_string()));
    assert_eq!((outcome.enqueued, outcome.already_queued), (1, 1));
}

#[test]
fn freshness_probes_decide_the_interaction() {
    assert_eq!(freshness_action(&FreshnessProbe::NotDue, "1.0.0"), FreshnessAction::Skip);
    assert_eq!(freshness_action(&FreshnessProbe::Failed("503".to_string()), "1.0.0"), FreshnessAction::RecordFailure);
    assert_eq!(freshness_action(&FreshnessProbe::Answered(Some("1.0.0".to_string())), "1.0.0"), FreshnessAction::RecordUnchanged);
    assert_eq!(freshness_action(&FreshnessProbe::Answered(None), "1.0.0"), FreshnessAction::RecordUnchanged);
    assert_eq!(freshness_action(&FreshnessProbe::Answered(Some("1.1.0".to_string())), "1.0.0"), FreshnessAction::RefreshChanged);
    let skipped = interaction_outcome(FreshnessAction::Skip, Some("j".to_string()));
    assert_eq!((skipped.freshness_check_performed, skipped.freshness_check_result.as_str(), skipped.refresh_job_id), (false, "skipped", None));
    let changed = interaction_outcome(FreshnessAction::RefreshChanged, Some("job-7".to_string()));
    assert_eq!((changed.freshness_check_result.as_str(), changed.refresh_enqueued), ("changed", true));
    assert_eq!(changed.refresh_job_id.as_deref(), Some("job-7"));
    assert_eq!(interaction_outcome(FreshnessAction::RecordFailure, None).freshness_check_result, "failed");
}

#[test]
fn lookup_errors_name_the_crate() {
    assert_eq!(crate_not_indexed_error("serde"), "crate 'serde' is not indexed locally; run index.sync_crates first");
    assert_eq!(no_indexed_versions_error("serde"), "crate 'serde' has no indexed versions yet; run index.sync_crates first");
    assert_eq!(
        version_not_indexed_error("9.9.9", "serde"),
        "version '9.9.9' for crate 'serde' is not indexed locally (refresh attempted)"
    );
}

#[test]
fn missing_registry_source_directory_is_reported() {
    let outcome = rust_mcp::outcomes::missing_registry_source_outcome("/home/u/.cargo/registry/src");
    assert_eq!(
        outcome.errors,
        vec!["cargo registry source directory not found: /home/u/.cargo/registry/src".to_string()]
    );
    assert_eq!((outcome.scanned_versions, outcome.scanned_files, outcome.upserted_files), (0, 0, 0));
    assert!(outcome.touched_versions.is_empty());
}

#[test]
fn category_and_keyword_labels_fall_back_to_ids() {
    let s = |x: &str| Some(x.to_string());
    assert_eq!(rust_mcp::outcomes::category_label(s("cli"), s("Command line"), "c1".to_string()), "cli");
    assert_eq!(rust_mcp::outcomes::category_label(None, s("Command line"), "c1".to_string()), "Command line");
    assert_eq!(rust_mcp::outcomes::category_label(None, None, "c1".to_string()), "c1");
    assert_eq!(rust_mcp::outcomes::keyword_label(s("async"), "k1".to_string()), "async");
    assert_eq!(rust_mcp::outcomes::keyword_label(None, "k1".to_string()), "k1");
}
