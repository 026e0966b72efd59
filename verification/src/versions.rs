//! Semantic versions, parsed and matched by the `semver` crate.
//!
//! A parsed version or requirement keeps the text it was parsed from, and
//! every fact stated about it is stated over that text.
use vstd::prelude::*;

verus! {

#[verifier::external_type_specification]
#[verifier::external_body]
pub struct ExSemverVersion(semver::Version);

#[verifier::external_type_specification]
#[verifier::external_body]
pub struct ExSemverVersionReq(semver::VersionReq);

/// Whether `semver::Version::parse` accepts the text.
pub uninterp spec fn semver_accepts(text: Seq<char>) -> bool;

/// Whether `semver::VersionReq::parse` accepts the text.
pub uninterp spec fn semver_req_accepts(text: Seq<char>) -> bool;

/// Whether the requirement parsed from `req` matches the version parsed from `version`
/// (`semver::VersionReq::matches`).
pub uninterp spec fn semver_req_matches(req: Seq<char>, version: Seq<char>) -> bool;

/// How `semver` orders the versions parsed from two texts (`Version::cmp`):
/// -1, 0 or 1.
pub uninterp spec fn semver_order(a: Seq<char>, b: Seq<char>) -> i8;

/// A version accepted by `semver`, with the text it was parsed from.
pub struct SemVersion {
    text: String,
    inner: semver::Version,
}

impl View for SemVersion {
    type V = Seq<char>;

    closed spec fn view(&self) -> Seq<char> {
        self.text@
    }
}

/// A version requirement accepted by `semver`, with the text it was parsed from.
pub struct SemVersionReq {
    text: String,
    inner: semver::VersionReq,
}

impl View for SemVersionReq {
    type V = Seq<char>;

    closed spec fn view(&self) -> Seq<char> {
        self.text@
    }
}

/// Parses a version with `semver::Version::parse`. The result is `Some`
/// exactly when `semver` accepts the text, which is never empty.
#[verifier::external_body]
pub(crate) fn parse_version(text: &str) -> (r: Option<SemVersion>)
    ensures
        r is Some <==> semver_accepts(text@),
        r matches Some(v) ==> v@ == text@,
        r is Some ==> text@.len() > 0,
{
    match semver::Version::parse(text) {
        Ok(inner) => Some(SemVersion { text: text.to_string(), inner }),
        Err(_) => None,
    }
}

/// Parses a requirement with `semver::VersionReq::parse`. The result is
/// `Some` exactly when `semver` accepts the text.
#[verifier::external_body]
pub(crate) fn parse_version_req(text: &str) -> (r: Option<SemVersionReq>)
    ensures
        r is Some <==> semver_req_accepts(text@),
        r matches Some(v) ==> v@ == text@,
{
    match semver::VersionReq::parse(text) {
        Ok(inner) => Some(SemVersionReq { text: text.to_string(), inner }),
        Err(_) => None,
    }
}

/// `semver::VersionReq::matches` on the parsed requirement and version.
#[verifier::external_body]
pub(crate) fn req_matches(req: &SemVersionReq, version: &SemVersion) -> (b: bool)
    ensures
        b == semver_req_matches(req@, version@),
{
    req.inner.matches(&version.inner)
}

/// `Version::cmp` on two parsed versions, as -1, 0 or 1.
#[verifier::external_body]
pub(crate) fn compare_versions(a: &SemVersion, b: &SemVersion) -> (r: i8)
    ensures
        r == semver_order(a@, b@),
        -1 <= r <= 1,
{
    match a.inner.cmp(&b.inner) {
        core::cmp::Ordering::Less => -1,
        core::cmp::Ordering::Equal => 0,
        core::cmp::Ordering::Greater => 1,
    }
}

/// Parses each candidate's version text; a text that `semver` does not
/// accept gives `None`.
pub fn parse_versions(texts: &[String]) -> (out: Vec<Option<SemVersion>>)
    ensures
        out@.len() == texts@.len(),
        forall|i: int|
            0 <= i < texts@.len() ==> (#[trigger] out@[i] is Some <==> semver_accepts(texts@[i]@)),
        forall|i: int|
            0 <= i < texts@.len() ==> (#[trigger] out@[i] matches Some(v) ==> v@ == texts@[i]@),
{
    let mut out: Vec<Option<SemVersion>> = Vec::new();
    let mut i: usize = 0;
    while i < texts.len()
        invariant
            i <= texts@.len(),
            out@.len() == i,
            forall|k: int| 0 <= k < i ==> (#[trigger] out@[k] is Some <==> semver_accepts(texts@[k]@)),
            forall|k: int| 0 <= k < i ==> (#[trigger] out@[k] matches Some(v) ==> v@ == texts@[k]@),
        decreases texts@.len() - i,
    {
        out.push(parse_version(texts[i].as_str()));
        i += 1;
    }
    out
}

} // verus!
