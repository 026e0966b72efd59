use rust_mcp::jobs::{
    follow_up_enrichment_scopes, payload_local_versions, plan_refresh_job, RefreshJobWork,
    jittered_delay_from_nanos, jittered_retry_delay_seconds, optional_job_crate_name,
    now_epoch_millis, refresh_failure_is_terminal, refresh_job_label, ttl_hint_seconds,
};

#[test]
fn index_optional_job_crate_name_prefers_payload() {
    let result = optional_job_crate_name("serde", Some("tokio".to_string()));
    assert_eq!(result.as_deref(), Some("tokio"));
}

#[test]
fn index_optional_job_crate_name_treats_all_as_none() {
    assert!(optional_job_crate_name("all", None).is_none());
    assert!(optional_job_crate_name("*", Some("all".to_string())).is_none());
}

#[test]
fn worker_optional_job_crate_name_prefers_payload() {
    let result = optional_job_crate_name("serde", Some("tokio".to_string()));
    assert_eq!(result.as_deref(), Some("tokio"));
}

#[test]
fn worker_optional_job_crate_name_treats_all_as_none() {
    assert!(optional_job_crate_name("all", None).is_none());
    assert!(optional_job_crate_name("*", Some("all".to_string())).is_none());
}

#[test]
fn job_crate_name_is_trimmed_and_falls_back_to_job_row() {
    assert_eq!(optional_job_crate_name(" serde ", Some("  ".to_string())).as_deref(), Some("serde"));
    assert_eq!(optional_job_crate_name("serde", Some("ALL".to_string())).as_deref(), Some("serde"));
    assert!(optional_job_crate_name("  All ", None).is_none());
    assert!(optional_job_crate_name("", Some("*".to_string())).is_none());
}

#[test]
fn retry_delay_backs_off_with_bounded_jitter() {
    // seed 15 gives zero jitter
    assert_eq!(jittered_delay_from_nanos(0, 1, 15), 5);
    assert_eq!(jittered_delay_from_nanos(0, 2, 15), 10);
    assert_eq!(jittered_delay_from_nanos(0, 4, 15), 40);
    assert_eq!(jittered_delay_from_nanos(0, 100, 15), 160);
    assert_eq!(jittered_delay_from_nanos(0, i32::MIN, 15), 5);
    // seed 30: +15%, seed 0: -15% (rounded toward zero)
    assert_eq!(jittered_delay_from_nanos(0, 6, 30), 184);
    assert_eq!(jittered_delay_from_nanos(0, 6, 0), 136);
    assert_eq!(jittered_delay_from_nanos(0, 1, 0), 5);
    // the job id shifts the seed by 97 per id
    assert_eq!(jittered_delay_from_nanos(1, 6, 0), jittered_delay_from_nanos(0, 6, 97 % 31));
    for attempts in [-3, 0, 1, 2, 3, 10] {
        let d = jittered_retry_delay_seconds(42, attempts);
        assert!((1..=600).contains(&d));
    }
}

#[test]
fn terminal_after_three_attempts() {
    assert!(!refresh_failure_is_terminal(2));
    assert!(refresh_failure_is_terminal(3));
    assert!(refresh_failure_is_terminal(4));
}

#[test]
fn ttl_hint_follows_release_activity() {
    assert_eq!(ttl_hint_seconds(Some(10), 0), (21_600, "high_activity"));
    assert_eq!(ttl_hint_seconds(None, 0), (21_600, "high_activity"));
    assert_eq!(ttl_hint_seconds(Some(400), 30), (21_600, "high_activity"));
    assert_eq!(ttl_hint_seconds(Some(100), 0), (172_800, "moderate_activity"));
    assert_eq!(ttl_hint_seconds(Some(400), 6), (172_800, "moderate_activity"));
    assert_eq!(ttl_hint_seconds(Some(2000), 0), (5_184_000, "long_stable"));
    assert_eq!(ttl_hint_seconds(Some(400), 0), (1_209_600, "default"));
}

#[test]
fn job_scopes_choose_their_work() {
    assert!(matches!(plan_refresh_job("crate", "serde", None), RefreshJobWork::CrateSync));
    assert!(matches!(plan_refresh_job("crate_deep_refresh", "serde", None), RefreshJobWork::CrateSync));
    assert!(matches!(plan_refresh_job("all", "all", None), RefreshJobWork::AllSync));
    assert!(matches!(plan_refresh_job("security", "all", None), RefreshJobWork::Security));
    match plan_refresh_job("docs", "serde", Some("tokio".to_string())) {
        RefreshJobWork::Docs { crate_name } => assert_eq!(crate_name.as_deref(), Some("tokio")),
        other => panic!("unexpected work {other:?}"),
    }
    match plan_refresh_job("local_cache", "all", None) {
        RefreshJobWork::LocalCache { crate_name } => assert_eq!(crate_name, None),
        other => panic!("unexpected work {other:?}"),
    }
    match plan_refresh_job("rustdoc_json", " serde ", None) {
        RefreshJobWork::RustdocJson { crate_name } => assert_eq!(crate_name.as_deref(), Some("serde")),
        other => panic!("unexpected work {other:?}"),
    }
    match plan_refresh_job("bogus", "serde", None) {
        RefreshJobWork::Unsupported { error } => {
            assert_eq!(error, "unsupported refresh scope 'bogus' for crate 'serde'")
        }
        other => panic!("unexpected work {other:?}"),
    }
    assert_eq!(follow_up_enrichment_scopes("crate"), vec!["local_cache", "rustdoc_json"]);
    assert!(follow_up_enrichment_scopes("docs").is_empty());
    assert_eq!(payload_local_versions(Some(vec!["1.0.0".to_string()])), Some(vec!["1.0.0".to_string()]));
    assert_eq!(payload_local_versions(Some(vec![])), None);
    assert_eq!(payload_local_versions(None), None);
}

#[test]
fn refresh_runs_are_labelled_by_their_start() {
    assert_eq!(refresh_job_label(1_700_000_000_123), "job-1700000000123");
    assert_eq!(refresh_job_label(0), "job-0");
    assert!(now_epoch_millis() > 1_600_000_000_000);
}
