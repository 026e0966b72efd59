//! What the GitHub metadata sync keeps of a repository's answers, and how
//! often it runs.
use vstd::prelude::*;
use crate::jobs::opt_view;
use crate::outcomes::GitHubSyncOutcome;
use crate::text::{chars_eq, chars_of_string, lit};

verus! {

/// How old GitHub metadata may get before it is fetched again: the sync
/// interval (as `as` converts it), or a day when periodic syncing is off.
pub fn github_max_age_secs(interval_secs: u64) -> (r: i64)
    ensures
        r == if interval_secs == 0 {
            86400i64
        } else {
            interval_secs as i64
        },
{
    if interval_secs == 0 {
        86400
    } else {
        interval_secs as i64
    }
}

/// The SPDX license id stored for a repository: GitHub's id, except the
/// `NOASSERTION` placeholder it reports for unrecognised licenses.
pub fn github_license_spdx(spdx_id: Option<String>) -> (r: Option<String>)
    ensures
        opt_view(r) == match opt_view(spdx_id) {
            Some(s) => if s == "NOASSERTION"@ {
                None
            } else {
                Some(s)
            },
            None => None,
        },
{
    match spdx_id {
        Some(s) => {
            if chars_eq(&chars_of_string(&s), &lit("NOASSERTION")) {
                None
            } else {
                Some(s)
            }
        },
        None => None,
    }
}

/// A release of a GitHub repository.
#[derive(Debug, Clone)]
pub struct GitHubRelease {
    pub tag_name: String,
    pub name: Option<String>,
    pub body: Option<String>,
    pub published_at: Option<String>,
    pub prerelease: bool,
    pub draft: bool,
}

/// The releases that are stored: the published ones (not drafts), in order.
pub fn published_releases(releases: Vec<GitHubRelease>) -> (out: Vec<GitHubRelease>)
    ensures
        out@ == releases@.filter(|r: GitHubRelease| !r.draft),
{
    let total = releases.len();
    let ghost all = releases@;
    let ghost keep = |r: GitHubRelease| !r.draft;
    let mut out: Vec<GitHubRelease> = Vec::new();
    let mut rest = releases;
    let mut i: usize = 0;
    while rest.len() > 0
        invariant
            i <= all.len(),
            i + rest@.len() == all.len(),
            all.len() == total,
            rest@ == all.skip(i as int),
            keep == (|r: GitHubRelease| !r.draft),
            out@ == all.take(i as int).filter(keep),
        decreases rest.len(),
    {
        let r = rest.remove(0);
        proof {
            assert(r == all[i as int]);
            assert(all.take(i + 1) =~= all.take(i as int).push(r));
            all.take(i as int).lemma_filter_push(r, keep);
            assert(rest@ =~= all.skip(i + 1));
        }
        if !r.draft {
            out.push(r);
        }
        i += 1;
    }
    proof {
        assert(all.take(i as int) =~= all);
    }
    out
}

/// Counts one repository of a sync pass: processed when its metadata was
/// stored, else its error is kept.
pub fn record_github_result(outcome: &mut GitHubSyncOutcome, result: Result<(), String>)
    requires
        old(outcome).crates_processed < usize::MAX,
    ensures
        match result {
            Ok(()) => final(outcome).crates_processed == old(outcome).crates_processed + 1
                && final(outcome).errors@ == old(outcome).errors@,
            Err(e) => final(outcome).crates_processed == old(outcome).crates_processed
                && final(outcome).errors@ == old(outcome).errors@.push(e),
        },
{
    match result {
        Ok(()) => {
            outcome.crates_processed = outcome.crates_processed + 1;
        },
        Err(e) => {
            outcome.errors.push(e);
        },
    }
}

} // verus!
