use rust_mcp::json_tree::JsonValue;
use rust_mcp::rustdoc_files::add_external_crate_paths;
use rust_mcp::outcomes::RustdocJsonRefreshOutcome;
use rust_mcp::rustdoc_files::{check_payload_crate, finish_rustdoc_outcome, record_ingestion, IngestWriteCounts};
use rust_mcp::rustdoc_files::{
    compat_patch_for, compat_patch_plan, crate_from_stem, diagnostic_hint_for_sync_error,
    find_local_candidate, format_candidate_sync_failure, format_rustdoc_parse_error,
    is_rustdoc_json_file, local_rustdoc_candidate, rustdoc_logical_stem,
    rustdoc_parse_error_message, synthetic_rustdoc_path, LocalRustdocFile,
};
use rust_mcp::rustdoc_files::{compat_payload, local_rustdoc_text};
use rust_mcp::rustdoc_read::read_rustdoc_payload;
use std::collections::HashMap;
use std::path::PathBuf;

#[test]
fn json_files_are_recognised_by_name() {
    assert!(is_rustdoc_json_file(Some("serde.json")));
    assert!(is_rustdoc_json_file(Some("SERDE.JSON.ZST")));
    assert!(!is_rustdoc_json_file(Some("serde.json.gz")));
    assert!(!is_rustdoc_json_file(None));
    assert_eq!(rustdoc_logical_stem(Some("tokio-1.0.0.json.zst")), Some("tokio-1.0.0".to_string()));
    assert_eq!(rustdoc_logical_stem(Some("tokio.json")), Some("tokio".to_string()));
    assert_eq!(rustdoc_logical_stem(Some("tokio.JSON")), None);
    assert_eq!(rustdoc_logical_stem(None), None);
}

#[test]
fn stems_split_into_crate_and_version() {
    assert_eq!(crate_from_stem("serde-1.0.193"), ("serde".to_string(), Some("1.0.193".to_string())));
    assert_eq!(
        crate_from_stem("  my-crate-1.0.0-alpha.1 "),
        ("my-crate".to_string(), Some("1.0.0-alpha.1".to_string()))
    );
    assert_eq!(crate_from_stem("serde-v1.2.3"), ("serde".to_string(), Some("v1.2.3".to_string())));
    assert_eq!(
        crate_from_stem("tokio_1.48.0_x86_64-unknown-linux-gnu_latest"),
        ("tokio".to_string(), Some("1.48.0".to_string()))
    );
    assert_eq!(crate_from_stem("plain_name"), ("plain_name".to_string(), None));
    assert_eq!(crate_from_stem("   "), (String::new(), None));
    assert_eq!(crate_from_stem("-1.0.0"), ("-1.0.0".to_string(), None));
}

#[test]
fn local_candidates_follow_the_filter_and_prefer_exact_versions() {
    assert_eq!(
        local_rustdoc_candidate(Some("serde-1.0.0.json"), Some("serde")),
        Some(("serde".to_string(), Some("1.0.0".to_string())))
    );
    assert_eq!(local_rustdoc_candidate(Some("serde-1.0.0.json"), Some("tokio")), None);
    assert_eq!(local_rustdoc_candidate(Some("README.md"), None), None);
    assert_eq!(local_rustdoc_candidate(Some(".json"), None), None);
    let files = vec![
        LocalRustdocFile { path: "a/serde.json".into(), crate_name: "serde".into(), crate_version: None },
        LocalRustdocFile {
            path: "b/serde-1.0.0.json".into(),
            crate_name: "serde".into(),
            crate_version: Some("1.0.0".into()),
        },
        LocalRustdocFile { path: "c/serde.json".into(), crate_name: "serde".into(), crate_version: None },
    ];
    assert_eq!(find_local_candidate(&files, "serde", "1.0.0"), Some(1));
    assert_eq!(find_local_candidate(&files, "serde", "2.0.0"), Some(0));
    assert_eq!(find_local_candidate(&files, "tokio", "1.0.0"), None);
}

#[test]
fn synthetic_paths_use_forward_slashes() {
    assert_eq!(synthetic_rustdoc_path(Some("a\\b\\c.json"), Some("c.json")), "rustdoc-json/a/b/c.json");
    assert_eq!(synthetic_rustdoc_path(None, Some("c.json")), "rustdoc-json/c.json");
    assert_eq!(synthetic_rustdoc_path(None, None), "rustdoc-json/unknown.json");
}

#[test]
fn sync_failures_carry_numbered_attempts_and_hints() {
    assert_eq!(
        diagnostic_hint_for_sync_error("x: RUSTDOC_JSON_DIR is not configured"),
        Some("set RUSTDOC_JSON_DIR to enable local rustdoc fallback")
    );
    assert_eq!(diagnostic_hint_for_sync_error("something else"), None);
    let message = format_candidate_sync_failure(
        "serde",
        "1.0.0",
        &["http 404".to_string(), "no local rustdoc JSON file found for serde@1.0.0".to_string()],
    );
    assert_eq!(
        message,
        "rustdoc JSON sync failed for serde@1.0.0 | attempt #1: http 404 | attempt #2: no local \
         rustdoc JSON file found for serde@1.0.0 (hint: add a matching <crate>-<version>.json \
         file in RUSTDOC_JSON_DIR)"
    );
    assert_eq!(format_candidate_sync_failure("a", "1", &[]), "rustdoc JSON sync failed for a@1");
}

#[test]
fn parse_errors_name_the_payload_format_version() {
    assert_eq!(
        rustdoc_parse_error_message("serde", "1.0.0", "p.json", "bad", Some(56), 61),
        "failed to parse rustdoc JSON payload for serde@1.0.0 from p.json: bad (payload \
         format_version=56, expected=61; verify rustdoc-types compatibility)"
    );
    assert_eq!(
        format_rustdoc_parse_error("serde", "1.0.0", "p.json", "{\"format_version\": 57}", "bad"),
        "failed to parse rustdoc JSON payload for serde@1.0.0 from p.json: bad (payload \
         format_version=57, expected=61; verify rustdoc-types compatibility)"
    );
    assert_eq!(
        format_rustdoc_parse_error("serde", "1.0.0", "p.json", "not json at all", "bad"),
        "failed to parse rustdoc JSON payload for serde@1.0.0 from p.json: bad (payload is \
         missing format_version; ensure this is rustdoc JSON output)"
    );
}

#[test]
fn older_formats_are_patched_before_they_are_read() {
    assert_eq!(compat_patch_plan(61, 61), None);
    assert_eq!(compat_patch_plan(70, 61), None);
    assert_eq!(compat_patch_plan(56, 61), Some(true));
    assert_eq!(compat_patch_plan(58, 61), Some(false));
    assert_eq!(compat_patch_for(56), Some(true));
    assert_eq!(compat_patch_for(61), None);
}

#[test]
fn payloads_must_be_about_the_synced_crate() {
    assert_eq!(check_payload_crate(Some(" serde_json "), "serde-json", "1.0.0", "p"), Ok(()));
    assert_eq!(check_payload_crate(None, "serde", "1.0.0", "p"), Ok(()));
    assert_eq!(check_payload_crate(Some("  "), "serde", "1.0.0", "p"), Ok(()));
    assert_eq!(
        check_payload_crate(Some("tokio"), "serde", "1.0.0", "docs.rs/x"),
        Err("rustdoc JSON crate mismatch for serde@1.0.0 from docs.rs/x: payload resolved to crate 'tokio'".to_string())
    );
    let mut outcome = RustdocJsonRefreshOutcome::default();
    record_ingestion(&mut outcome, IngestWriteCounts { symbols: 5, types: 2, impls: 1, traits: 0 }, "serde", "1.0.0");
    assert_eq!((outcome.symbols_written, outcome.types_written, outcome.impls_written, outcome.synced_versions), (5, 2, 1, 1));
    assert_eq!(outcome.touched_versions, vec!["serde@1.0.0".to_string()]);
}

#[test]
fn touched_versions_are_sorted_and_kept_once() {
    let mut outcome = RustdocJsonRefreshOutcome::default();
    for (name, version) in [("tokio", "1.0.0"), ("serde", "1.0.1"), ("tokio", "1.0.0"), ("anyhow", "1.0.0")] {
        record_ingestion(&mut outcome, IngestWriteCounts { symbols: 1, types: 0, impls: 0, traits: 0 }, name, version);
    }
    outcome.errors.push("e".to_string());
    finish_rustdoc_outcome(&mut outcome);
    assert_eq!(
        outcome.touched_versions,
        vec!["anyhow@1.0.0".to_string(), "serde@1.0.1".to_string(), "tokio@1.0.0".to_string()]
    );
    assert_eq!((outcome.synced_versions, outcome.symbols_written), (4, 4));
    assert_eq!(outcome.errors, vec!["e".to_string()]);
}

fn try_compat_deserialize(content: &str) -> Option<rustdoc_types::Crate> {
    let patched = compat_payload(content)?;
    serde_json::from_str(&patched).ok()
}

fn build_fixture_crate() -> rustdoc_types::Crate {
    rustdoc_types::Crate {
        root: rustdoc_types::Id(0),
        crate_version: Some("1.0.0".into()),
        includes_private: false,
        index: HashMap::new(),
        paths: HashMap::new(),
        external_crates: HashMap::new(),
        target: rustdoc_types::Target {
            triple: "x86_64-unknown-linux-gnu".into(),
            target_features: vec![],
        },
        format_version: rustdoc_types::FORMAT_VERSION,
    }
}

fn build_v56_json() -> String {
    let mut krate = build_fixture_crate();
    krate.external_crates.insert(
        1,
        rustdoc_types::ExternalCrate {
            name: "std".into(),
            html_root_url: Some("https://doc.rust-lang.org/stable/".into()),
            path: PathBuf::from("/fake/libstd.rlib"),
        },
    );
    krate.external_crates.insert(
        2,
        rustdoc_types::ExternalCrate {
            name: "serde".into(),
            html_root_url: None,
            path: PathBuf::from("/fake/libserde.rlib"),
        },
    );
    let mut doc: serde_json::Value = serde_json::to_value(&krate).expect("fixture should serialize");
    doc["format_version"] = serde_json::Value::from(56);
    if let Some(ext) = doc.get_mut("external_crates").and_then(serde_json::Value::as_object_mut) {
        for entry in ext.values_mut() {
            if let Some(obj) = entry.as_object_mut() {
                obj.remove("path");
            }
        }
    }
    serde_json::to_string(&doc).expect("fixture should re-serialize")
}

#[test]
fn try_compat_deserialize_recovers_v56_payload() {
    let v56_json = build_v56_json();
    assert!(
        serde_json::from_str::<rustdoc_types::Crate>(&v56_json).is_err(),
        "v56 payload should not deserialize with strict v57 types"
    );
    let krate = try_compat_deserialize(&v56_json)
        .expect("try_compat_deserialize should recover v56 payload");
    assert_eq!(krate.format_version, 56);
    assert_eq!(krate.external_crates.len(), 2);
    assert_eq!(krate.external_crates[&1].name, "std");
    assert_eq!(krate.external_crates[&2].name, "serde");
    assert_eq!(krate.external_crates[&1].path, PathBuf::new());
}

#[test]
fn try_compat_deserialize_returns_none_for_current_version() {
    let krate = build_fixture_crate();
    let json = serde_json::to_string(&krate).expect("fixture should serialize");
    assert!(try_compat_deserialize(&json).is_none(), "should return None for current format_version");
}

#[test]
fn try_compat_deserialize_returns_none_for_garbage() {
    assert!(try_compat_deserialize("not json at all").is_none());
    assert!(try_compat_deserialize("{}").is_none());
    assert!(try_compat_deserialize(r#"{"format_version": 57}"#).is_none());
}

#[test]
fn compat_patch_adds_paths_only_before_format_57() {
    let v56 = r#"{"format_version":56,"external_crates":{"1":{"name":"std"}}}"#;
    let patched: serde_json::Value = serde_json::from_str(&compat_payload(v56).unwrap()).unwrap();
    assert_eq!(patched["external_crates"]["1"]["path"], "");
    let v58 = r#"{"format_version":58,"external_crates":{"1":{"name":"std"}}}"#;
    let kept: serde_json::Value = serde_json::from_str(&compat_payload(v58).unwrap()).unwrap();
    assert!(kept["external_crates"]["1"].get("path").is_none());
    assert_eq!(compat_payload(r#"{"format_version":61}"#), None);
    assert_eq!(compat_payload("[1]"), None);
}

#[test]
fn local_files_are_decompressed_and_checked() {
    let json = b"{\"format_version\":61}".to_vec();
    let compressed = zstd::encode_all(json.as_slice(), 0).unwrap();
    assert_eq!(
        local_rustdoc_text("d/a.json.zst", Some("a.json.zst"), compressed.clone()),
        Ok("{\"format_version\":61}".to_string())
    );
    assert_eq!(local_rustdoc_text("d/a.json", Some("a.json"), json), Ok("{\"format_version\":61}".to_string()));
    let err = local_rustdoc_text("d/a.json.zst", Some("a.json.zst"), b"plain".to_vec()).unwrap_err();
    assert!(err.starts_with("failed to decompress zstd rustdoc file d/a.json.zst: "), "{err}");
    let err = local_rustdoc_text("d/a.json", Some("a.json"), vec![0xff, 0xfe]).unwrap_err();
    assert!(err.starts_with("invalid UTF-8 in rustdoc JSON file d/a.json (local fallback): "), "{err}");
    assert_eq!(local_rustdoc_text("d/a", None, compressed.clone()).is_err(), true);
}

fn module_item(id: u32, name: &str) -> rustdoc_types::Item {
    rustdoc_types::Item {
        id: rustdoc_types::Id(id),
        crate_id: 0,
        name: Some(name.to_string()),
        span: None,
        visibility: rustdoc_types::Visibility::Public,
        docs: Some("docs".to_string()),
        links: HashMap::new(),
        attrs: vec![rustdoc_types::Attribute::NonExhaustive],
        deprecation: None,
        stability: None,
        const_stability: None,
        inner: rustdoc_types::ItemEnum::Module(rustdoc_types::Module {
            is_crate: false,
            items: vec![],
            is_stripped: false,
        }),
    }
}

#[test]
fn payloads_are_read_into_documents() {
    let mut krate = build_fixture_crate();
    for (id, name) in [(7u32, "b"), (3, "a"), (5, "c")] {
        krate.index.insert(rustdoc_types::Id(id), module_item(id, name));
    }
    krate.paths.insert(
        rustdoc_types::Id(3),
        rustdoc_types::ItemSummary {
            crate_id: 0,
            path: vec!["demo".to_string(), "a".to_string()],
            kind: rustdoc_types::ItemKind::Module,
        },
    );
    let json = serde_json::to_string(&krate).unwrap();
    let doc = read_rustdoc_payload("demo", "1.0.0", "p", &json).expect("current format reads");
    assert_eq!(doc.ids, vec![3, 5, 7]);
    assert_eq!(doc.index.len(), 3);
    assert_eq!(doc.index[&3].name.as_deref(), Some("a"));
    assert_eq!(doc.index[&3].attrs, vec![rust_mcp::doc_model::AttrKind::NonExhaustive]);
    assert!(matches!(doc.index[&3].attr_details[..], [rust_mcp::doc_model::AttrDetail::NonExhaustive]));
    assert_eq!(doc.paths[&3], "demo::a");

    let old = read_rustdoc_payload("demo", "1.0.0", "p", &build_v56_json()).expect("format 56 reads after the patch");
    assert!(old.ids.is_empty());

    let err = read_rustdoc_payload("demo", "1.0.0", "p", "not json").err().unwrap();
    assert!(err.starts_with("failed to parse rustdoc JSON payload for demo@1.0.0 from p: "), "{err}");
    assert!(err.ends_with("(payload is missing format_version; ensure this is rustdoc JSON output)"), "{err}");
    let err = read_rustdoc_payload("demo", "1.0.0", "p", r#"{"format_version": 57}"#).err().unwrap();
    assert!(err.ends_with("(payload format_version=57, expected=61; verify rustdoc-types compatibility)"), "{err}");
}

#[test]
fn external_crates_get_a_default_path() {
    let doc = JsonValue::Object(vec![
        (
            "external_crates".to_string(),
            JsonValue::Object(vec![
                ("1".to_string(), JsonValue::Object(vec![("name".to_string(), JsonValue::Str("std".to_string()))])),
                ("2".to_string(), JsonValue::Object(vec![("path".to_string(), JsonValue::Str("/x".to_string()))])),
                ("3".to_string(), JsonValue::Null),
            ]),
        ),
        ("format_version".to_string(), JsonValue::Number("56".to_string())),
    ]);
    let patched = add_external_crate_paths(doc);
    let JsonValue::Object(top) = patched else { panic!("object expected") };
    assert_eq!(top.len(), 2);
    let JsonValue::Object(crates) = &top[0].1 else { panic!("object expected") };
    let JsonValue::Object(first) = &crates[0].1 else { panic!("object expected") };
    assert_eq!(first.len(), 2);
    assert_eq!(first[1].0, "path");
    assert!(matches!(&first[1].1, JsonValue::Str(s) if s.is_empty()));
    let JsonValue::Object(second) = &crates[1].1 else { panic!("object expected") };
    assert_eq!(second.len(), 1);
    assert!(matches!(crates[2].1, JsonValue::Null));
    assert!(matches!(&top[1].1, JsonValue::Number(n) if n == "56"));
}

#[test]
fn each_candidate_is_synced_or_reported() {
    let mut outcome = RustdocJsonRefreshOutcome::default();
    rust_mcp::rustdoc_files::account_candidate(
        &mut outcome,
        "serde",
        "1.0.0",
        Some(IngestWriteCounts { symbols: 3, types: 1, impls: 0, traits: 0 }),
        &[],
    );
    rust_mcp::rustdoc_files::account_candidate(
        &mut outcome,
        "tokio",
        "1.2.0",
        None,
        &["docs.rs down".to_string()],
    );
    assert_eq!((outcome.scanned_files, outcome.synced_versions, outcome.errors.len()), (2, 1, 1));
    assert_eq!(outcome.symbols_written, 3);
    assert_eq!(outcome.touched_versions, vec!["serde@1.0.0".to_string()]);
    assert!(outcome.errors[0].starts_with("rustdoc JSON sync failed for tokio@1.2.0"), "{}", outcome.errors[0]);
    assert_eq!(outcome.scanned_files, outcome.synced_versions + outcome.errors.len());
}
