//! Refresh-job scheduling decisions: which crate a job targets, how long a
//! failed job waits before its retry, how long a freshness check stays valid,
//! and what a waiting tool call reports for a job's outcome.
use vstd::prelude::*;
use crate::text::{
    decimal, decimal_chars, signed_decimal, signed_decimal_chars, append_chars, chars_eq, chars_of, chars_of_string, lit, lower, lower_chars, string_of, trim,
    trim_chars,
};

verus! {

/// Terminal outcome of a tracked indexing job.
#[derive(Clone, Debug, PartialEq, Eq)]
pub enum JobOutcome {
    /// Job has not completed yet.
    Pending,
    /// Job finished successfully.
    Completed,
    /// Job failed (terminal or non-terminal).
    Failed(String),
}

/// A job crate name after normalization: trimmed, and `None` when it is
/// empty, `*` or `all` (any ASCII case), which mean "every crate".
pub open spec fn job_crate_name(s: Seq<char>) -> Option<Seq<char>> {
    let t = trim(s);
    if t.len() == 0 || t == seq!['*'] || lower(t) == seq!['a', 'l', 'l'] {
        None
    } else {
        Some(t)
    }
}

fn normalize_job_crate_name(s: &Vec<char>) -> (r: Option<String>)
    ensures
        match r {
            Some(v) => job_crate_name(s@) == Some(v@),
            None => job_crate_name(s@) is None,
        },
{
    let t = trim_chars(s);
    let star = vec!['*'];
    let all = vec!['a', 'l', 'l'];
    proof {
        assert(star@ =~= seq!['*']);
        assert(all@ =~= seq!['a', 'l', 'l']);
    }
    if t.len() == 0 || chars_eq(&t, &star) || chars_eq(&lower_chars(&t), &all) {
        None
    } else {
        Some(string_of(&t))
    }
}

/// The optional view of an optional string.
pub open spec fn opt_view(o: Option<String>) -> Option<Seq<char>> {
    match o {
        Some(s) => Some(s@),
        None => None,
    }
}

/// The crate a refresh job targets: the payload's crate name when it names
/// one crate, else the job row's crate name; `None` means every crate.
pub open spec fn job_target(job: Seq<char>, payload: Option<Seq<char>>) -> Option<Seq<char>> {
    match payload {
        Some(p) if job_crate_name(p) is Some => job_crate_name(p),
        _ => job_crate_name(job),
    }
}

/// The crate a refresh job targets, preferring the payload's crate name.
pub fn optional_job_crate_name(job_crate_name: &str, payload_crate_name: Option<String>) -> (r:
    Option<String>)
    ensures
        opt_view(r) == job_target(job_crate_name@, opt_view(payload_crate_name)),
{
    if let Some(value) = payload_crate_name {
        let normalized = normalize_job_crate_name(&chars_of_string(&value));
        if normalized.is_some() {
            return normalized;
        }
    }
    normalize_job_crate_name(&chars_of(job_crate_name))
}

/// `2^e` for small `e`.
pub open spec fn pow2(e: int) -> int
    decreases e,
{
    if e <= 0 {
        1
    } else {
        2 * pow2(e - 1)
    }
}

/// `x` clamped to `[lo, hi]`.
pub open spec fn clamp(x: int, lo: int, hi: int) -> int {
    if x < lo {
        lo
    } else if x > hi {
        hi
    } else {
        x
    }
}

/// Integer division rounding toward zero, as Rust's `/` on integers.
pub open spec fn div_trunc(a: int, b: int) -> int {
    if a >= 0 {
        a / b
    } else {
        -((-a) / b)
    }
}

/// The exponential backoff before jitter: 5 s doubled per extra attempt,
/// at most five doublings, capped at 300 s.
pub open spec fn retry_backoff(attempts: i32) -> int {
    let prev = if attempts == i32::MIN {
        i32::MIN as int
    } else {
        attempts - 1
    };
    let e = clamp(prev, 0, 5);
    if 5 * pow2(e) < 300 {
        5 * pow2(e)
    } else {
        300
    }
}

/// The retry delay for a seed of `nanos`: the backoff shifted by a jitter of
/// -15..=15 percent chosen by `(nanos + 97 * job_id) mod 31` (with `i64`
/// wrapping), clamped to `[1, 600]`.
pub open spec fn retry_delay(job_id: i64, attempts: i32, nanos: u32) -> int {
    let backoff = retry_backoff(attempts);
    let seed = vstd::wrapping::i64_specs::wrapping_add(
        nanos as i64,
        vstd::wrapping::i64_specs::wrapping_mul(job_id, 97),
    );
    let jitter = (seed % 31) - 15;
    clamp(backoff + div_trunc(backoff * jitter, 100), 1, 600)
}

#[verifier::external_type_specification]
#[verifier::external_body]
pub struct ExSystemTime(std::time::SystemTime);

/// `SystemTime::now`: the current time of the system clock; nothing is
/// stated about it.
#[verifier::external_body]
fn system_now() -> std::time::SystemTime {
    std::time::SystemTime::now()
}

/// `SystemTime::duration_since(UNIX_EPOCH)`, `None` for a time before the
/// epoch; nothing is stated about the duration.
#[verifier::external_body]
fn since_unix_epoch(t: &std::time::SystemTime) -> Option<core::time::Duration> {
    match t.duration_since(std::time::UNIX_EPOCH) {
        Ok(d) => Some(d),
        Err(_) => None,
    }
}

/// `Duration::subsec_nanos`, which its documentation says is always below
/// one billion.
#[verifier::external_body]
fn duration_subsec_nanos(d: &core::time::Duration) -> (n: u32)
    ensures
        n < 1_000_000_000,
{
    d.subsec_nanos()
}

/// `Duration::as_millis`: the whole milliseconds of a duration; nothing
/// is stated about the value.
#[verifier::external_body]
fn duration_as_millis(d: &core::time::Duration) -> u128 {
    d.as_millis()
}

/// Milliseconds since the Unix epoch by the system clock (0 before the
/// epoch). The value comes from the clock; nothing is stated about it.
pub fn now_epoch_millis() -> u128 {
    match since_unix_epoch(&system_now()) {
        Some(d) => duration_as_millis(&d),
        None => 0,
    }
}

/// The label of an `index.refresh` run started at the given time:
/// `job-` and the milliseconds since the epoch.
pub fn refresh_job_label(started_at_epoch_ms: u128) -> (r: String)
    ensures
        r@ == "job-"@ + decimal(started_at_epoch_ms as nat),
{
    let mut m = lit("job-");
    append_chars(&mut m, &crate::text::decimal_chars_u128(started_at_epoch_ms));
    string_of(&m)
}

/// The sub-second part of the current time, in nanoseconds (0 before the
/// epoch).
fn now_subsec_nanos() -> (n: u32)
    ensures
        n < 1_000_000_000,
{
    match since_unix_epoch(&system_now()) {
        Some(d) => duration_subsec_nanos(&d),
        None => 0,
    }
}

/// The retry delay of a failed job for a given clock reading.
pub fn jittered_delay_from_nanos(job_id: i64, attempts: i32, nanos: u32) -> (d: i64)
    ensures
        d == retry_delay(job_id, attempts, nanos),
{
    let prev: i32 = if attempts == i32::MIN {
        i32::MIN
    } else {
        attempts - 1
    };
    let e: i64 = if prev < 0 {
        0
    } else if prev > 5 {
        5
    } else {
        prev as i64
    };
    let mut p: i64 = 1;
    let mut k: i64 = 0;
    while k < e
        invariant
            0 <= k <= e <= 5,
            p == pow2(k as int),
            1 <= p <= 32,
            k < 5 ==> p <= 16,
            k < 4 ==> p <= 8,
            k < 3 ==> p <= 4,
            k < 2 ==> p <= 2,
            k < 1 ==> p <= 1,
        decreases e - k,
    {
        p = p * 2;
        k += 1;
    }
    let backoff: i64 = if 5 * p < 300 {
        5 * p
    } else {
        300
    };
    let seed = (nanos as i64).wrapping_add(job_id.wrapping_mul(97));
    let r = seed.checked_rem_euclid(31).unwrap();
    let jitter: i64 = r - 15;
    assert(-4500 <= backoff * jitter <= 4500) by (nonlinear_arith)
        requires
            5 <= backoff <= 300,
            -15 <= jitter <= 15,
    ;
    let prod: i64 = backoff * jitter;
    let q: i64 = if prod >= 0 {
        prod / 100
    } else {
        -((-prod) / 100)
    };
    let jittered: i64 = backoff + q;
    if jittered < 1 {
        1
    } else if jittered > 600 {
        600
    } else {
        jittered
    }
}

/// How long a failed job waits before its next attempt: exponential backoff
/// with jitter seeded by the clock and the job id, in `[1, 600]` seconds.
pub fn jittered_retry_delay_seconds(job_id: i64, attempts: i32) -> (d: i64)
    ensures
        exists|nanos: u32| nanos < 1_000_000_000 && d == retry_delay(job_id, attempts, nanos),
        1 <= d <= 600,
{
    let nanos = now_subsec_nanos();
    let d = jittered_delay_from_nanos(job_id, attempts, nanos);
    proof {
        law_retry_delay_bounds(job_id, attempts, nanos);
    }
    d
}

/// Every retry delay lies in `[1, 600]` and within 15% of the backoff.
pub proof fn law_retry_delay_bounds(job_id: i64, attempts: i32, nanos: u32)
    ensures
        1 <= retry_delay(job_id, attempts, nanos) <= 600,
        5 <= retry_backoff(attempts) <= 300,
        retry_delay(job_id, attempts, nanos) >= retry_backoff(attempts) - retry_backoff(attempts)
            * 15 / 100 - 1,
        retry_delay(job_id, attempts, nanos) <= retry_backoff(attempts) + retry_backoff(attempts)
            * 15 / 100,
{
    let prev = if attempts == i32::MIN {
        i32::MIN as int
    } else {
        attempts - 1
    };
    let e = clamp(prev, 0, 5);
    assert(pow2(0) == 1);
    assert(pow2(1) == 2);
    assert(pow2(2) == 4);
    assert(pow2(3) == 8);
    assert(pow2(4) == 16);
    assert(pow2(5) == 32);
    let b = retry_backoff(attempts);
    let seed = vstd::wrapping::i64_specs::wrapping_add(
        nanos as i64,
        vstd::wrapping::i64_specs::wrapping_mul(job_id, 97),
    );
    let j = (seed % 31) - 15;
    assert(-15 <= j <= 15);
    assert(-b * 15 <= b * j <= b * 15) by (nonlinear_arith)
        requires
            5 <= b <= 300,
            -15 <= j <= 15,
    ;
}

/// Whether a failed job has used its last attempt.
pub fn refresh_failure_is_terminal(attempts: i32) -> (t: bool)
    ensures
        t == (attempts >= 3),
{
    attempts >= 3
}

/// The freshness TTL hint for a crate's release activity, in seconds, and its reason.
pub open spec fn ttl_hint(days_since_latest_release: Option<i64>, releases_last_year: i64) -> (
    int,
    Seq<char>,
) {
    let days0 = match days_since_latest_release {
        Some(d) => d as int,
        None => 0,
    };
    let days365 = match days_since_latest_release {
        Some(d) => d as int,
        None => 365,
    };
    if releases_last_year >= 24 || days0 < 30 {
        (6 * 60 * 60int, "high_activity"@)
    } else if releases_last_year >= 6 || days365 < 180 {
        (2 * 24 * 60 * 60int, "moderate_activity"@)
    } else if days0 > 365 * 5 {
        (60 * 24 * 60 * 60int, "long_stable"@)
    } else {
        (14 * 24 * 60 * 60int, "default"@)
    }
}

/// Picks how long a crate's freshness check stays valid: 6 hours for very
/// active crates, 2 days for moderately active ones, 60 days for crates
/// without a release in five years, else 14 days (always within 1 hour to 90 days).
pub fn ttl_hint_seconds(days_since_latest_release: Option<i64>, releases_last_year: i64) -> (r: (
    i32,
    &'static str,
))
    ensures
        r.0 == ttl_hint(days_since_latest_release, releases_last_year).0,
        r.1@ == ttl_hint(days_since_latest_release, releases_last_year).1,
        60 * 60 <= r.0 <= 90 * 24 * 60 * 60,
{
    let days0: i64 = match days_since_latest_release {
        Some(d) => d,
        None => 0,
    };
    let days365: i64 = match days_since_latest_release {
        Some(d) => d,
        None => 365,
    };
    let ttl: (i32, &'static str) = if releases_last_year >= 24 || days0 < 30 {
        (6 * 60 * 60, "high_activity")
    } else if releases_last_year >= 6 || days365 < 180 {
        (2 * 24 * 60 * 60, "moderate_activity")
    } else if days0 > 365 * 5 {
        (60 * 24 * 60 * 60, "long_stable")
    } else {
        (14 * 24 * 60 * 60, "default")
    };
    let secs: i32 = if ttl.0 < 60 * 60 {
        60 * 60
    } else if ttl.0 > 90 * 24 * 60 * 60 {
        90 * 24 * 60 * 60
    } else {
        ttl.0
    };
    (secs, ttl.1)
}

/// The work a refresh job runs, by its scope.
#[derive(Debug)]
pub enum RefreshJobWork {
    /// Sync one crate's metadata from crates.io.
    CrateSync,
    /// Sync every crate of a search page.
    AllSync,
    /// Sync security advisories from OSV and the RustSec database.
    Security,
    /// Sync docs.rs pages for the target crate (or every crate).
    Docs { crate_name: Option<String> },
    /// Index the local registry sources of the target crate (or every crate).
    LocalCache { crate_name: Option<String> },
    /// Ingest rustdoc JSON for the target crate (or every crate).
    RustdocJson { crate_name: Option<String> },
    /// A scope the worker does not run, with the error it records.
    Unsupported { error: String },
}

/// The work for a job scope, as plain values: a tag, the target crate,
/// and the error of an unsupported scope.
pub open spec fn job_work_spec(scope: Seq<char>, job_crate: Seq<char>, payload_crate: Option<Seq<char>>) -> (
    int,
    Option<Seq<char>>,
    Seq<char>,
) {
    if scope == "crate"@ || scope == "crate_deep_refresh"@ {
        (0, None, seq![])
    } else if scope == "all"@ {
        (1, None, seq![])
    } else if scope == "security"@ {
        (2, None, seq![])
    } else if scope == "docs"@ {
        (3, job_target(job_crate, payload_crate), seq![])
    } else if scope == "local_cache"@ {
        (4, job_target(job_crate, payload_crate), seq![])
    } else if scope == "rustdoc_json"@ {
        (5, job_target(job_crate, payload_crate), seq![])
    } else {
        (6, None, "unsupported refresh scope '"@ + scope + "' for crate '"@ + job_crate + "'"@)
    }
}

/// The view of planned work.
pub open spec fn work_view(w: RefreshJobWork) -> (int, Option<Seq<char>>, Seq<char>) {
    match w {
        RefreshJobWork::CrateSync => (0, None, seq![]),
        RefreshJobWork::AllSync => (1, None, seq![]),
        RefreshJobWork::Security => (2, None, seq![]),
        RefreshJobWork::Docs { crate_name } => (3, opt_view(crate_name), seq![]),
        RefreshJobWork::LocalCache { crate_name } => (4, opt_view(crate_name), seq![]),
        RefreshJobWork::RustdocJson { crate_name } => (5, opt_view(crate_name), seq![]),
        RefreshJobWork::Unsupported { error } => (6, None, error@),
    }
}

fn is_scope(scope: &Vec<char>, name: &str) -> (b: bool)
    ensures
        b == (scope@ == name@),
{
    chars_eq(scope, &lit(name))
}

/// Chooses the work for a claimed refresh job from its scope; the scopes
/// that act on one crate take it from the payload, else from the job row.
pub fn plan_refresh_job(scope: &str, job_crate_name: &str, payload_crate_name: Option<String>) -> (w: RefreshJobWork)
    ensures
        work_view(w) == job_work_spec(scope@, job_crate_name@, opt_view(payload_crate_name)),
{
    let s = chars_of(scope);
    if is_scope(&s, "crate") || is_scope(&s, "crate_deep_refresh") {
        RefreshJobWork::CrateSync
    } else if is_scope(&s, "all") {
        RefreshJobWork::AllSync
    } else if is_scope(&s, "security") {
        RefreshJobWork::Security
    } else if is_scope(&s, "docs") {
        RefreshJobWork::Docs { crate_name: optional_job_crate_name(job_crate_name, payload_crate_name) }
    } else if is_scope(&s, "local_cache") {
        RefreshJobWork::LocalCache {
            crate_name: optional_job_crate_name(job_crate_name, payload_crate_name),
        }
    } else if is_scope(&s, "rustdoc_json") {
        RefreshJobWork::RustdocJson {
            crate_name: optional_job_crate_name(job_crate_name, payload_crate_name),
        }
    } else {
        let mut e = lit("unsupported refresh scope '");
        append_chars(&mut e, &s);
        append_chars(&mut e, &lit("' for crate '"));
        append_chars(&mut e, &chars_of(job_crate_name));
        append_chars(&mut e, &lit("'"));
        let error = string_of(&e);
        proof {
            assert(error@ =~= "unsupported refresh scope '"@ + scope@ + "' for crate '"@
                + job_crate_name@ + "'"@);
        }
        RefreshJobWork::Unsupported { error }
    }
}

/// The enrichment scopes enqueued after a successful crate-metadata job:
/// local sources then rustdoc JSON; none after other scopes.
pub fn follow_up_enrichment_scopes(scope: &str) -> (r: Vec<&'static str>)
    ensures
        (scope@ == "crate"@ || scope@ == "crate_deep_refresh"@) ==> r@.len() == 2
            && r@[0]@ == "local_cache"@ && r@[1]@ == "rustdoc_json"@,
        !(scope@ == "crate"@ || scope@ == "crate_deep_refresh"@) ==> r@.len() == 0,
{
    let s = chars_of(scope);
    let mut r: Vec<&'static str> = Vec::new();
    if is_scope(&s, "crate") || is_scope(&s, "crate_deep_refresh") {
        r.push("local_cache");
        r.push("rustdoc_json");
    }
    r
}

/// The locally present versions a job's payload lists, when it lists any;
/// `None` means they are to be read from the registry on disk.
pub fn payload_local_versions(local_versions: Option<Vec<String>>) -> (r: Option<Vec<String>>)
    ensures
        match local_versions {
            Some(v) => if v@.len() > 0 {
                r == Some(v)
            } else {
                r is None
            },
            None => r is None,
        },
{
    match local_versions {
        Some(v) => if v.len() > 0 {
            Some(v)
        } else {
            None
        },
        None => None,
    }
}

/// Priority of interactive on-demand requests from tool handlers (lower
/// numbers run first).
pub const PRIORITY_ON_DEMAND: i32 = 1;
/// Priority of a follow-up deep refresh after a missing-version backfill.
pub const PRIORITY_BACKFILL: i32 = 5;
/// Priority of a background freshness-triggered deep refresh.
pub const PRIORITY_FRESHNESS: i32 = 10;
/// Priority of newly detected `.crate` files in the cargo cache.
pub const PRIORITY_CACHE_WATCH: i32 = 20;
/// Priority of the pre-warm list indexed at startup.
pub const PRIORITY_PRE_WARM: i32 = 25;
/// Priority of crates found by the periodic registry scan.
pub const PRIORITY_DISCOVERY: i32 = 50;
/// Priority of proactive source and rustdoc enrichment after a crate job.
pub const PRIORITY_PROACTIVE_ENRICH: i32 = 75;
/// Priority of default and explicitly scheduled refresh jobs.
pub const PRIORITY_DEFAULT: i32 = 100;

/// How long a tool handler waits for an on-demand job, in seconds.
pub const ON_DEMAND_TIMEOUT_SECS: u64 = 45;

/// The error of a failed on-demand enqueue.
pub open spec fn enqueue_error_text(scope: Seq<char>, crate_name: Seq<char>, cause: Seq<char>) -> Seq<char> {
    "failed to enqueue on-demand "@ + scope + " job for '"@ + crate_name + "': "@ + cause
}

/// Describes a failed on-demand enqueue.
pub fn on_demand_enqueue_error(scope: &str, crate_name: &str, cause: &str) -> (r: String)
    ensures
        r@ == enqueue_error_text(scope@, crate_name@, cause@),
{
    let mut m = lit("failed to enqueue on-demand ");
    append_chars(&mut m, &chars_of(scope));
    append_chars(&mut m, &lit(" job for '"));
    append_chars(&mut m, &chars_of(crate_name));
    append_chars(&mut m, &lit("': "));
    append_chars(&mut m, &chars_of(cause));
    string_of(&m)
}

/// The error of an on-demand wait that ran out of time.
pub open spec fn wait_timeout_text(job_id: i64, secs: u64) -> Seq<char> {
    "on-demand indexing timed out after "@ + decimal(secs as nat) + "s (job "@ + signed_decimal(
        job_id as int,
    ) + "); please retry shortly"@
}

/// Describes an on-demand wait that ran out of time.
pub fn on_demand_timeout_error(job_id: i64, secs: u64) -> (r: String)
    ensures
        r@ == wait_timeout_text(job_id, secs),
{
    let mut m = lit("on-demand indexing timed out after ");
    append_chars(&mut m, &decimal_chars(secs));
    append_chars(&mut m, &lit("s (job "));
    append_chars(&mut m, &signed_decimal_chars(job_id));
    append_chars(&mut m, &lit("); please retry shortly"));
    string_of(&m)
}

/// What a waiter does with the state its job's channel shows: keep waiting
/// while it is pending, else return it.
pub fn observed_outcome(state: JobOutcome) -> (r: Option<JobOutcome>)
    ensures
        state is Pending ==> r is None,
        !(state is Pending) ==> r == Some(state),
{
    match state {
        JobOutcome::Pending => None,
        other => Some(other),
    }
}

} // verus!
