use rust_mcp::security::{
    advisory_applies_to_crate, advisory_identity, affected_range_text, affected_version_indices,
    first_rustsec_alias, fixed_versions, is_version_affected, osv_title, parse_semver_for_matching,
    parse_version_reqs, rustsec_advisory_id, rustsec_affected_range, rustsec_title,
    rustsec_title_from_body, rustsec_url, security_page_has_more, split_toml_frontmatter,
    staleness_threshold, OsvAffected, OsvEvent, OsvRange, OsvVulnerability, SecuritySyncOutcome,
    SecuritySyncRunOutcome,
};

use rust_mcp::rustsec_record::{
    rustsec_advisory_record, RustSecAdvisory, RustSecFrontmatter, RustSecVersions,
};

fn strings(values: &[&str]) -> Vec<String> {
    values.iter().map(|v| v.to_string()).collect()
}

fn toml_strings(table: &toml::Value, key: &str) -> Vec<String> {
    table
        .get(key)
        .and_then(|v| v.as_array())
        .map(|items| items.iter().filter_map(|i| i.as_str().map(|s| s.to_string())).collect())
        .unwrap_or_default()
}

#[test]
fn rustsec_frontmatter_fixture_parses_expected_fields() {
    let fixture = r#"+++
[advisory]
id = "RUSTSEC-2024-9999"
package = "demo-crate"
title = "Demo advisory"
cvss = "CVSS:3.1/AV:N/AC:L/PR:N/UI:N/S:U/C:H/I:H/A:H 9.8"
withdrawn = "2025-01-15"
aliases = ["CVE-2024-9999", "https://rustsec.org/advisories/RUSTSEC-2024-9999"]
categories = ["memory-corruption", "soundness"]

[versions]
patched = [">=1.2.0"]
unaffected = ["<0.8.0"]
+++

# Demo advisory body

Some details.
"#;

    let (frontmatter, body) =
        split_toml_frontmatter(fixture).expect("frontmatter should be extracted");
    let parsed: toml::Value =
        toml::from_str(frontmatter).expect("frontmatter should parse as TOML");
    let advisory = parsed.get("advisory").expect("advisory table");
    let versions = parsed.get("versions").expect("versions table");

    assert_eq!(advisory.get("id").and_then(|v| v.as_str()), Some("RUSTSEC-2024-9999"));
    assert_eq!(advisory.get("package").and_then(|v| v.as_str()), Some("demo-crate"));
    assert_eq!(advisory.get("withdrawn").and_then(|v| v.as_str()), Some("2025-01-15"));
    assert_eq!(toml_strings(advisory, "categories").len(), 2);
    let patched = toml_strings(versions, "patched");
    let unaffected = toml_strings(versions, "unaffected");
    assert_eq!(patched, vec![">=1.2.0"]);
    assert_eq!(unaffected, vec!["<0.8.0"]);
    assert_eq!(rustsec_title_from_body(body).as_deref(), Some("Demo advisory body"));

    let patched_reqs = parse_version_reqs(&patched);
    let unaffected_reqs = parse_version_reqs(&unaffected);

    assert_eq!(is_version_affected("1.0.0", &patched_reqs, &unaffected_reqs), Some(true));
    assert_eq!(is_version_affected("1.2.0", &patched_reqs, &unaffected_reqs), Some(false));
    assert_eq!(is_version_affected("0.7.9", &patched_reqs, &unaffected_reqs), Some(false));
}

#[test]
fn frontmatter_needs_a_marker_line_and_its_closing_twin() {
    let (front, body) = split_toml_frontmatter("---\na = 1\n---\nrest").expect("dash markers");
    assert_eq!(front, "a = 1");
    assert_eq!(body, "rest");
    assert!(split_toml_frontmatter("# title\nno frontmatter").is_none());
    assert!(split_toml_frontmatter("+++\nnever closed\n").is_none());
    assert!(split_toml_frontmatter("+++").is_none());
}

#[test]
fn body_title_is_the_first_heading() {
    assert_eq!(rustsec_title_from_body("\ntext\n## Second level\n# First").as_deref(), Some("Second level"));
    assert_eq!(rustsec_title_from_body("no heading here"), None);
    assert_eq!(rustsec_title_from_body("#    \n# Real"), Some("Real".to_string()));
}

#[test]
fn versions_with_a_leading_v_are_matched_without_it() {
    let patched_reqs = parse_version_reqs(&strings(&[">=1.2.0", "not a requirement"]));
    assert_eq!(patched_reqs.len(), 1);
    let unaffected_reqs = parse_version_reqs(&[]);
    assert_eq!(is_version_affected("v1.0.0", &patched_reqs, &unaffected_reqs), Some(true));
    assert_eq!(is_version_affected("vv1.3.0", &patched_reqs, &unaffected_reqs), Some(false));
    assert_eq!(is_version_affected("garbage", &patched_reqs, &unaffected_reqs), None);
    assert!(parse_semver_for_matching("v2.0.0").is_some());
    assert!(parse_semver_for_matching("").is_none());
}

#[test]
fn affected_indices_pick_the_affected_versions_in_order() {
    let patched_reqs = parse_version_reqs(&strings(&[">=1.2.0"]));
    let unaffected_reqs = parse_version_reqs(&strings(&["<0.8.0"]));
    let versions = strings(&["0.7.0", "1.0.0", "nope", "1.1.9", "1.2.0"]);
    assert_eq!(affected_version_indices(&versions, &patched_reqs, &unaffected_reqs), vec![1, 3]);
}

fn vuln(id: &str, aliases: &[&str], summary: Option<&str>, details: Option<&str>) -> OsvVulnerability {
    OsvVulnerability {
        id: id.to_string(),
        aliases: strings(aliases),
        summary: summary.map(|s| s.to_string()),
        details: details.map(|s| s.to_string()),
        affected: Vec::new(),
    }
}

#[test]
fn advisory_identity_prefers_the_rustsec_alias() {
    let v = vuln("GHSA-1", &["CVE-1", "RUSTSEC-2020-0001", "RUSTSEC-2020-0002"], None, None);
    assert_eq!(
        advisory_identity(&v),
        ("RUSTSEC-2020-0001".to_string(), "rustsec_osv".to_string())
    );
    let w = vuln("GHSA-2", &["CVE-2"], None, None);
    assert_eq!(advisory_identity(&w), ("GHSA-2".to_string(), "osv".to_string()));
    assert_eq!(first_rustsec_alias(&strings(&["x", "RUSTSEC-1"])), Some("RUSTSEC-1".to_string()));
    assert_eq!(first_rustsec_alias(&strings(&["rustsec-1"])), None);
}

#[test]
fn osv_title_falls_back_in_order() {
    assert_eq!(osv_title(&vuln("ID", &["A"], Some("sum"), Some("det"))), "sum");
    assert_eq!(osv_title(&vuln("ID", &["A"], None, Some("det"))), "det");
    assert_eq!(osv_title(&vuln("ID", &["A", "B"], None, None)), "A");
    assert_eq!(osv_title(&vuln("ID", &[], None, None)), "ID");
}

fn event(introduced: Option<&str>, fixed: Option<&str>) -> OsvEvent {
    OsvEvent {
        introduced: introduced.map(|s| s.to_string()),
        fixed: fixed.map(|s| s.to_string()),
        last_affected: None,
        limit: None,
    }
}

#[test]
fn affected_ranges_and_fixed_versions_are_described() {
    let affected = vec![
        OsvAffected {
            ranges: vec![
                OsvRange {
                    range_type: "SEMVER".to_string(),
                    events: vec![event(Some("0"), None), event(None, Some("1.2.3"))],
                },
                OsvRange { range_type: "GIT".to_string(), events: vec![] },
            ],
            versions: vec![],
        },
        OsvAffected {
            ranges: vec![OsvRange {
                range_type: "ECOSYSTEM".to_string(),
                events: vec![event(None, Some("0.9.0")), event(None, Some("1.2.3"))],
            }],
            versions: vec![],
        },
    ];
    assert_eq!(
        affected_range_text(&affected),
        "SEMVER(introduced=0,fixed=1.2.3); GIT; ECOSYSTEM(fixed=0.9.0,fixed=1.2.3)"
    );
    assert_eq!(affected_range_text(&[]), "osv_affected_unknown");
    assert_eq!(fixed_versions(&affected), strings(&["0.9.0", "1.2.3"]));
}

#[test]
fn rustsec_fields_are_summarised() {
    assert_eq!(
        rustsec_affected_range(
            &strings(&[">=1.2.0", "^1.1.5"]),
            &strings(&["<0.8.0"]),
            &Some("2025-01-15".to_string()),
            &strings(&["a", "b"]),
        ),
        "patched=>=1.2.0 | ^1.1.5; unaffected=<0.8.0; withdrawn=2025-01-15; categories=a|b"
    );
    assert_eq!(rustsec_affected_range(&[], &[], &None, &[]), "");
    assert_eq!(
        rustsec_url(None, &strings(&["CVE-1", "https://x", "https://y"])),
        Some("https://x".to_string())
    );
    assert_eq!(rustsec_url(Some("u".to_string()), &strings(&["https://x"])), Some("u".to_string()));
    assert_eq!(rustsec_url(None, &strings(&["http://x"])), None);
    assert_eq!(
        rustsec_title(None, "body\n# Heading", Some("desc".to_string()), &"ID".to_string()),
        "Heading"
    );
    assert_eq!(rustsec_title(None, "body", Some("desc".to_string()), &"ID".to_string()), "desc");
    assert_eq!(rustsec_title(None, "body", None, &"ID".to_string()), "ID");
    assert_eq!(rustsec_advisory_id(None, Some("RUSTSEC-2021-1".to_string())), "RUSTSEC-2021-1");
    assert_eq!(rustsec_advisory_id(None, None), "RUSTSEC-UNKNOWN");
    assert!(advisory_applies_to_crate(&Some("demo".to_string()), "demo"));
    assert!(!advisory_applies_to_crate(&Some("demo".to_string()), "other"));
}

#[test]
fn merged_outcomes_add_counts_and_union_touched_crates() {
    let mut a = SecuritySyncOutcome {
        crates_processed: 2,
        advisories_written: 1,
        errors: strings(&["e1"]),
        touched_crates: strings(&["b", "a"]),
    };
    let b = SecuritySyncOutcome {
        crates_processed: 3,
        advisories_written: 4,
        errors: strings(&["e2"]),
        touched_crates: strings(&["c", "a"]),
    };
    a.merge(b);
    assert_eq!(a.crates_processed, 5);
    assert_eq!(a.advisories_written, 5);
    assert_eq!(a.errors, strings(&["e1", "e2"]));
    assert_eq!(a.touched_crates, strings(&["a", "b", "c"]));

    let mut run = SecuritySyncRunOutcome::default();
    run.accumulate(&a);
    assert_eq!((run.crates_processed, run.advisories_written, run.errors, run.pages), (5, 5, 2, 1));
}

#[test]
fn staleness_and_paging_rules() {
    assert_eq!(staleness_threshold(0), None);
    assert_eq!(staleness_threshold(3600), Some(3600));
    assert!(security_page_has_more(50, 50));
    assert!(!security_page_has_more(49, 50));
}

#[test]
fn advisory_records_are_built_for_their_crate() {
    let fm = RustSecFrontmatter {
        advisory: RustSecAdvisory {
            id: None,
            package: Some("demo".to_string()),
            title: None,
            description: Some("desc".to_string()),
            url: None,
            cvss: None,
            withdrawn: None,
            aliases: strings(&["CVE-1", "https://example.org/a"]),
            categories: vec![],
        },
        versions: RustSecVersions { patched: strings(&[">=1.2.0", "junk"]), unaffected: strings(&["<0.8.0"]) },
    };
    let versions = strings(&["0.7.0", "1.0.0", "1.1.9", "1.2.0", "v1.0.5", "nope"]);
    let rec = rustsec_advisory_record(&fm, "\n# Heading here\n", Some("RUSTSEC-2020-1".to_string()), "demo", &versions, Some("high".to_string()))
        .expect("applies to demo");
    assert_eq!(rec.advisory_id, "RUSTSEC-2020-1");
    assert_eq!(rec.title, "Heading here");
    assert_eq!(rec.severity.as_deref(), Some("high"));
    assert_eq!(rec.url.as_deref(), Some("https://example.org/a"));
    assert_eq!(rec.affected_range, "patched=>=1.2.0 | junk; unaffected=<0.8.0");
    assert_eq!(rec.affected_versions, strings(&["1.0.0", "1.1.9", "v1.0.5"]));
    assert!(rustsec_advisory_record(&fm, "", None, "other", &versions, None).is_none());
}

#[test]
fn merging_in_either_order_agrees() {
    let x = || SecuritySyncOutcome {
        crates_processed: 2,
        advisories_written: 1,
        errors: strings(&["e1"]),
        touched_crates: strings(&["tokio", "serde"]),
    };
    let y = || SecuritySyncOutcome {
        crates_processed: 3,
        advisories_written: 4,
        errors: strings(&["e2"]),
        touched_crates: strings(&["anyhow", "serde"]),
    };
    let mut xy = x();
    xy.merge(y());
    let mut yx = y();
    yx.merge(x());
    assert_eq!((xy.crates_processed, xy.advisories_written), (yx.crates_processed, yx.advisories_written));
    assert_eq!(xy.touched_crates, yx.touched_crates);
    assert_eq!(xy.touched_crates, strings(&["anyhow", "serde", "tokio"]));
    let mut ex = xy.errors.clone();
    let mut ey = yx.errors.clone();
    ex.sort();
    ey.sort();
    assert_eq!(ex, ey);
}

#[test]
fn frontmatter_round_trips_for_both_markers() {
    for marker in ["+++", "---"] {
        let fm = "[advisory]\nid = \"RUSTSEC-2024-0001\"";
        let body = "# Title\n\ntext";
        let md = format!("{marker}\n{fm}\n{marker}\n{body}");
        assert_eq!(split_toml_frontmatter(&md), Some((fm, body)));
    }
    assert_eq!(split_toml_frontmatter("***\nx\n***\ny"), None);
}
