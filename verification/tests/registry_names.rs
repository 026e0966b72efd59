use rust_mcp::registry::{
    collect_crate_versions, group_new_crate_files, local_versions_for_crate,
    parse_crate_filename, parse_registry_dir_name, CacheWatchPollOutcome, DiscoveryScanOutcome,
};

#[test]
fn parse_simple_crate_filename() {
    let (name, version) = parse_crate_filename("serde-1.0.193.crate").unwrap();
    assert_eq!(name, "serde");
    assert_eq!(version, "1.0.193");
}

#[test]
fn parse_hyphenated_crate_filename() {
    let (name, version) = parse_crate_filename("serde-derive-1.0.193.crate").unwrap();
    assert_eq!(name, "serde-derive");
    assert_eq!(version, "1.0.193");
}

#[test]
fn parse_build_metadata_crate_filename() {
    let (name, version) = parse_crate_filename("toml_parser-1.0.6+spec-1.1.0.crate").unwrap();
    assert_eq!(name, "toml_parser");
    assert_eq!(version, "1.0.6+spec-1.1.0");
}

#[test]
fn parse_returns_none_for_non_crate() {
    assert!(parse_crate_filename("README.md").is_none());
    assert!(parse_crate_filename("serde-1.0.193").is_none());
    assert!(parse_crate_filename(".crate").is_none());
}

#[test]
fn parses_simple_crate() {
    let (name, version) = parse_registry_dir_name("serde-1.0.193").unwrap();
    assert_eq!(name, "serde");
    assert_eq!(version, "1.0.193");
}

#[test]
fn parses_hyphenated_crate() {
    let (name, version) = parse_registry_dir_name("serde-derive-1.0.193").unwrap();
    assert_eq!(name, "serde-derive");
    assert_eq!(version, "1.0.193");
}

#[test]
fn parses_multi_hyphen_crate() {
    let (name, version) = parse_registry_dir_name("tokio-util-0.7.10").unwrap();
    assert_eq!(name, "tokio-util");
    assert_eq!(version, "0.7.10");
}

#[test]
fn parses_pre_release_version() {
    let (name, version) = parse_registry_dir_name("foo-bar-1.0.0-alpha.1").unwrap();
    assert_eq!(name, "foo-bar");
    assert_eq!(version, "1.0.0-alpha.1");
}

#[test]
fn parses_version_with_build_metadata_containing_hyphens() {
    let (name, version) = parse_registry_dir_name("toml_parser-1.0.6+spec-1.1.0").unwrap();
    assert_eq!(name, "toml_parser");
    assert_eq!(version, "1.0.6+spec-1.1.0");
}

#[test]
fn parses_hyphenated_crate_with_build_metadata() {
    let (name, version) = parse_registry_dir_name("toml-datetime-0.7.5+spec-1.1.0").unwrap();
    assert_eq!(name, "toml-datetime");
    assert_eq!(version, "0.7.5+spec-1.1.0");
}

#[test]
fn returns_none_for_no_version() {
    assert!(parse_registry_dir_name("just-a-name").is_none());
    assert!(parse_registry_dir_name("noversion").is_none());
}

#[test]
fn parsed_dir_name_reassembles_to_input() {
    for input in ["a-b-c-1.2.3", "x-0.0.1-rc.1+build-7", "é-1.0.0"] {
        let (name, version) = parse_registry_dir_name(input).unwrap();
        assert_eq!(format!("{name}-{version}"), input);
    }
    assert!(parse_registry_dir_name("").is_none());
    assert!(parse_registry_dir_name("-1.0.0").is_some());
}

#[test]
fn new_cache_files_are_counted_and_grouped() {
    let mut outcome = CacheWatchPollOutcome::default();
    let files = vec![
        Some("serde-1.0.0.crate".to_string()),
        Some("tokio-1.28.0.crate".to_string()),
        None,
        Some("README.md".to_string()),
        Some("serde-1.1.0.crate".to_string()),
    ];
    let groups = group_new_crate_files(&files, &mut outcome);
    assert_eq!(outcome.new_files, 5);
    assert_eq!(outcome.unparseable, 2);
    assert_eq!(outcome.enqueued, 0);
    assert_eq!(groups.len(), 2);
    let serde = groups.iter().find(|(n, _)| n == "serde").unwrap();
    assert_eq!(serde.1, vec!["1.0.0".to_string(), "1.1.0".to_string()]);
    let tokio = groups.iter().find(|(n, _)| n == "tokio").unwrap();
    assert_eq!(tokio.1, vec!["1.28.0".to_string()]);
}

#[test]
fn registry_dirs_are_counted_and_grouped() {
    let mut outcome = DiscoveryScanOutcome::default();
    let dirs = vec![
        "serde-1.0.193".to_string(),
        "tokio-util-0.7.10".to_string(),
        "not-a-valid-version".to_string(),
    ];
    let groups = collect_crate_versions(&dirs, &mut outcome);
    assert_eq!(outcome.discovered, 3);
    assert_eq!(outcome.unparseable, 1);
    assert_eq!(groups.len(), 2);
    assert!(groups.iter().any(|(n, v)| n == "serde" && v == &vec!["1.0.193".to_string()]));
    assert!(groups.iter().any(|(n, v)| n == "tokio-util" && v == &vec!["0.7.10".to_string()]));

    let local = local_versions_for_crate(
        &["serde-1.0.0".to_string(), "serde-1.1.0".to_string(), "tokio-1.28.0".to_string()],
        "serde",
    );
    assert_eq!(local, vec!["1.0.0".to_string(), "1.1.0".to_string()]);
    assert!(local_versions_for_crate(&["serde-1.0.0".to_string()], "tokio").is_empty());
}

#[test]
fn only_files_not_seen_before_are_new() {
    let current = vec!["b-1.0.0.crate".to_string(), "a-1.0.0.crate".to_string(), "b-1.0.0.crate".to_string()];
    let known = vec!["a-1.0.0.crate".to_string()];
    assert_eq!(rust_mcp::registry::newly_seen_files(&current, &known), vec!["b-1.0.0.crate".to_string()]);
    assert!(rust_mcp::registry::newly_seen_files(&known, &current).is_empty());
}

#[test]
fn pre_warm_lists_and_discovery_batches() {
    assert_eq!(
        rust_mcp::registry::parse_pre_warm_list(" Serde, ,TOKIO,,ÄB "),
        vec!["serde".to_string(), "tokio".to_string(), "äb".to_string()]
    );
    assert!(rust_mcp::registry::parse_pre_warm_list("").is_empty());
    let names = vec!["a".to_string(), "b".to_string(), "c".to_string(), "d".to_string()];
    let known = vec!["b".to_string()];
    assert_eq!(rust_mcp::registry::discovery_plan(&names, &known, 0), (vec![0, 2, 3], 1));
    assert_eq!(rust_mcp::registry::discovery_plan(&names, &known, 2), (vec![0, 2], 1));
    assert_eq!(rust_mcp::registry::discovery_plan(&names, &known, 9), (vec![0, 2, 3], 1));
}

#[test]
fn only_enqueued_jobs_are_counted() {
    let mut scan = rust_mcp::registry::DiscoveryScanOutcome::default();
    scan.record_enqueue(true);
    scan.record_enqueue(false);
    scan.record_enqueue(true);
    assert_eq!(scan.enqueued, 2);
    let mut poll = rust_mcp::registry::CacheWatchPollOutcome::default();
    poll.record_enqueue(false);
    poll.record_enqueue(true);
    assert_eq!(poll.enqueued, 1);
}
