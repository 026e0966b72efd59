use rust_mcp::error_types::ConfidenceLevel;
use rust_mcp::hotspots::{
    detect_hotspots_in_file, hotspot_order, hotspot_patterns, hotspot_request_error,
    hotspots_confidence, rank_hotspots, severity_rank, CrateHotspotHit, HotspotKind,
    HotspotSeverity,
};

#[test]
fn detects_unsafe_and_concurrency_hotspots() {
    let patterns = hotspot_patterns(true, true);
    let content = r#"
pub fn demo() {
    let _guard = std::sync::Mutex::new(1);
    unsafe { core::ptr::read_volatile(&1) }
}
"#;

    let hits = detect_hotspots_in_file("src/lib.rs", content, &patterns);
    assert!(hits.iter().any(|hit| hit.kind == HotspotKind::Unsafe));
    assert!(hits.iter().any(|hit| hit.kind == HotspotKind::Concurrency));
}

#[test]
fn dedupes_same_pattern_per_line() {
    let patterns = hotspot_patterns(false, true);
    let content = "let _ = std::sync::Mutex::new(std::sync::Mutex::new(1));";

    let hits = detect_hotspots_in_file("src/lib.rs", content, &patterns);
    let mutex_hits = hits.iter().filter(|hit| hit.pattern == "Mutex").count();
    assert_eq!(mutex_hits, 1);
}

#[test]
fn marks_unsafe_as_high_severity() {
    let patterns = hotspot_patterns(true, false);
    let content = "let ptr = x as *const i32;";
    let hits = detect_hotspots_in_file("src/lib.rs", content, &patterns);

    assert!(hits
        .iter()
        .any(|hit| { hit.pattern == "*const" && hit.severity == HotspotSeverity::High }));
}

#[test]
fn pattern_table_has_both_families_in_order() {
    assert_eq!(hotspot_patterns(true, true).len(), 11);
    assert_eq!(hotspot_patterns(true, false).len(), 5);
    assert_eq!(hotspot_patterns(false, true).len(), 6);
    assert!(hotspot_patterns(false, false).is_empty());
    assert_eq!(hotspot_patterns(false, true)[4].text, "channel(");
    assert_eq!(hotspot_patterns(false, true)[4].severity, HotspotSeverity::Low);
}

#[test]
fn hits_carry_line_numbers_and_trimmed_snippets() {
    let patterns = hotspot_patterns(true, true);
    let long = format!("    unsafe {{ {} }}", "x".repeat(300));
    let content = format!("fn a() {{}}\n\n  let m = MUTEX;\r\n{long}\n");
    let hits = detect_hotspots_in_file("p.rs", &content, &patterns);
    assert_eq!(hits.len(), 2);
    assert_eq!(hits[0].line, 3);
    assert_eq!(hits[0].pattern, "Mutex");
    assert_eq!(hits[0].snippet, "let m = MUTEX;");
    assert_eq!(hits[1].line, 4);
    assert_eq!(hits[1].path, "p.rs");
    assert_eq!(hits[1].snippet.chars().count(), 220);
    assert!(hits[1].snippet.starts_with("unsafe {"));
}

#[test]
fn severity_rank_orders_high_first() {
    assert_eq!(severity_rank(HotspotSeverity::High), 0);
    assert_eq!(severity_rank(HotspotSeverity::Medium), 1);
    assert_eq!(severity_rank(HotspotSeverity::Low), 2);
}

fn hit(path: &str, line: u32, pattern: &str, severity: HotspotSeverity) -> CrateHotspotHit {
    CrateHotspotHit {
        path: path.to_string(),
        line,
        kind: HotspotKind::Unsafe,
        pattern: pattern.to_string(),
        severity,
        snippet: String::new(),
    }
}

#[test]
fn reported_hits_are_ranked_and_capped() {
    let hits = vec![
        hit("src/b.rs", 3, "Mutex", HotspotSeverity::Medium),
        hit("src/a.rs", 9, "unsafe", HotspotSeverity::High),
        hit("src/a.rs", 2, "*mut", HotspotSeverity::High),
        hit("src/a.rs", 2, "*const", HotspotSeverity::High),
        hit("src/a.rs", 1, "Arc", HotspotSeverity::Low),
    ];
    let ranked = rank_hotspots(&hits, 3);
    let keys: Vec<(String, u32, String)> =
        ranked.iter().map(|h| (h.path.clone(), h.line, h.pattern.clone())).collect();
    assert_eq!(
        keys,
        vec![
            ("src/a.rs".to_string(), 2, "*const".to_string()),
            ("src/a.rs".to_string(), 2, "*mut".to_string()),
            ("src/a.rs".to_string(), 9, "unsafe".to_string()),
        ]
    );
    assert_eq!(rank_hotspots(&hits, 10).len(), 5);
    assert_eq!(rank_hotspots(&hits, 10)[4].pattern, "Arc");
    assert_eq!(hotspot_order(&hits), vec![3, 2, 1, 0, 4]);
}

#[test]
fn hotspot_requests_and_confidence() {
    assert_eq!(
        hotspot_request_error(false, false),
        Some("at least one of include_unsafe/include_concurrency must be true".to_string())
    );
    assert_eq!(hotspot_request_error(true, false), None);
    assert_eq!(hotspots_confidence(0, 0).0, ConfidenceLevel::Low);
    assert_eq!(hotspots_confidence(3, 0).0, ConfidenceLevel::Medium);
    let (level, reason) = hotspots_confidence(3, 2);
    assert_eq!(level, ConfidenceLevel::High);
    assert_eq!(reason, "hotspots derived from indexed source files with deterministic pattern matching");
}
