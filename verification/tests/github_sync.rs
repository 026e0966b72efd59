use rust_mcp::github_meta::{
    github_license_spdx, github_max_age_secs, published_releases, record_github_result,
    GitHubRelease,
};
use rust_mcp::outcomes::GitHubSyncOutcome;

fn release(tag: &str, draft: bool) -> GitHubRelease {
    GitHubRelease {
        tag_name: tag.to_string(),
        name: None,
        body: None,
        published_at: None,
        prerelease: false,
        draft,
    }
}

#[test]
fn metadata_age_defaults_to_a_day_when_syncing_is_off() {
    assert_eq!(github_max_age_secs(0), 86_400);
    assert_eq!(github_max_age_secs(3_600), 3_600);
}

#[test]
fn noassertion_license_is_not_stored() {
    assert_eq!(github_license_spdx(Some("NOASSERTION".to_string())), None);
    assert_eq!(github_license_spdx(Some("MIT".to_string())), Some("MIT".to_string()));
    assert_eq!(github_license_spdx(None), None);
}

#[test]
fn draft_releases_are_dropped_in_order() {
    let kept = published_releases(vec![release("v1", false), release("v2", true), release("v3", false)]);
    let tags: Vec<&str> = kept.iter().map(|r| r.tag_name.as_str()).collect();
    assert_eq!(tags, vec!["v1", "v3"]);
}

#[test]
fn sync_results_are_counted() {
    let mut outcome = GitHubSyncOutcome::default();
    record_github_result(&mut outcome, Ok(()));
    record_github_result(&mut outcome, Err("rate limited".to_string()));
    assert_eq!(outcome.crates_processed, 1);
    assert_eq!(outcome.errors, vec!["rate limited".to_string()]);
}
