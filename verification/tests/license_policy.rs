use rust_mcp::error_types::ConfidenceLevel;
use rust_mcp::license::{
    alternatives_confidence, screen_alternative, evaluate_policy, extract_license_identifiers, normalize_policy_list, overlap_count,
    LicensePolicyResult,
};

#[test]
fn parses_spdx_identifiers() {
    let values = extract_license_identifiers("(MIT OR Apache-2.0) WITH LLVM-exception");
    assert_eq!(
        values,
        vec!["Apache-2.0".to_string(), "LLVM-exception".to_string(), "MIT".to_string(),]
    );
}

#[test]
fn overlap_count_is_case_insensitive() {
    let count = overlap_count(
        &["Async".to_string(), "Networking".to_string()],
        &["networking".to_string(), "web".to_string()],
    );
    assert_eq!(count, 1);
}

#[test]
fn policy_denies_when_allow_list_misses() {
    let (result, reasons) =
        evaluate_policy(&["MIT".to_string()], &["Apache-2.0".to_string()], &[]);
    assert!(matches!(result, LicensePolicyResult::Denied));
    assert!(reasons[0].contains("allow_licenses"));
}

#[test]
fn identifiers_are_deduplicated_and_operators_dropped() {
    let values = extract_license_identifiers("MIT and mit OR MIT/Apache-2.0 with X");
    assert_eq!(values, vec!["Apache-2.0".to_string(), "MIT".to_string(), "X".to_string(), "mit".to_string()]);
    assert!(extract_license_identifiers("  ( ) ").is_empty());
}

#[test]
fn policy_list_is_trimmed_uppercased_sorted_and_deduplicated() {
    let list = normalize_policy_list(Some(vec![
        " mit ".to_string(),
        "Apache-2.0".to_string(),
        "".to_string(),
        "MIT".to_string(),
        "   ".to_string(),
    ]));
    assert_eq!(list, vec!["APACHE-2.0".to_string(), "MIT".to_string()]);
    assert!(normalize_policy_list(None).is_empty());
    let again = normalize_policy_list(Some(list.clone()));
    assert_eq!(again, list);
}

#[test]
fn policy_verdicts_and_reasons() {
    let (r, reasons) = evaluate_policy(&[], &["MIT".to_string()], &[]);
    assert_eq!(r, LicensePolicyResult::Unknown);
    assert_eq!(reasons, vec!["license metadata missing or unparsable".to_string()]);

    let (r, reasons) = evaluate_policy(
        &["mit".to_string(), "Apache-2.0".to_string()],
        &["MIT".to_string()],
        &["apache-2.0".to_string(), "GPL-3.0".to_string(), "APACHE-2.0".to_string()],
    );
    assert_eq!(r, LicensePolicyResult::Denied);
    assert_eq!(reasons, vec!["matched denied licenses: apache-2.0, APACHE-2.0".to_string()]);

    let (r, reasons) =
        evaluate_policy(&["MIT".to_string()], &["mit".to_string(), "BSD".to_string()], &[]);
    assert_eq!(r, LicensePolicyResult::Allowed);
    assert_eq!(reasons, vec!["matched allowed licenses: mit".to_string()]);

    let (r, reasons) = evaluate_policy(&["MIT".to_string()], &[], &[]);
    assert_eq!(r, LicensePolicyResult::Allowed);
    assert_eq!(
        reasons,
        vec!["policy lists not provided; license metadata is informational".to_string()]
    );
}

#[test]
fn overlap_count_is_symmetric_and_counts_distinct_values() {
    let a = vec!["A".to_string(), "a".to_string(), "b".to_string()];
    let b = vec!["B".to_string(), "A".to_string(), "c".to_string()];
    assert_eq!(overlap_count(&a, &b), 2);
    assert_eq!(overlap_count(&b, &a), 2);
    assert_eq!(overlap_count(&a, &[]), 0);
}

#[test]
fn normalising_twice_changes_nothing_and_overlap_is_symmetric() {
    let once = normalize_policy_list(Some(vec![" mit ".to_string(), "Apache-2.0".to_string(), "".to_string(), "MIT".to_string()]));
    assert_eq!(once, vec!["APACHE-2.0".to_string(), "MIT".to_string()]);
    let twice = normalize_policy_list(Some(once.clone()));
    assert_eq!(twice, once);
    let a = ["Web".to_string(), "async".to_string(), "WEB".to_string()];
    let b = ["web".to_string(), "Async".to_string(), "cli".to_string()];
    assert_eq!(overlap_count(&a, &b), overlap_count(&b, &a));
    assert_eq!(overlap_count(&a, &b), 2);
}

#[test]
fn a_denied_license_wins_over_the_allow_list() {
    let (result, _) = evaluate_policy(
        &["MIT".to_string(), "GPL-3.0".to_string()],
        &["MIT".to_string()],
        &["gpl-3.0".to_string()],
    );
    assert!(matches!(result, LicensePolicyResult::Denied));
}

#[test]
fn alternatives_are_screened_by_license_policy() {
    let (verdict, reasons, excluded) =
        screen_alternative(&Some("MIT OR GPL-3.0".to_string()), &[], &["GPL-3.0".to_string()]);
    assert!(matches!(verdict, LicensePolicyResult::Denied));
    assert_eq!(reasons, vec!["matched denied licenses: GPL-3.0".to_string()]);
    assert!(excluded);
    let (verdict, _, excluded) = screen_alternative(&None, &[], &[]);
    assert!(matches!(verdict, LicensePolicyResult::Unknown));
    assert!(!excluded);
    let (verdict, _, excluded) = screen_alternative(&Some("MIT".to_string()), &[], &[]);
    assert!(matches!(verdict, LicensePolicyResult::Allowed));
    assert!(!excluded);
    assert_eq!(alternatives_confidence(0, true).0, ConfidenceLevel::Low);
    assert_eq!(alternatives_confidence(2, false).0, ConfidenceLevel::Medium);
    assert_eq!(alternatives_confidence(2, true).0, ConfidenceLevel::High);
}
