//! Rustdoc JSON files: which file names hold rustdoc output, the crate and
//! version a file name stands for, and the messages of a failed sync.
use vstd::prelude::*;
use crate::text::{
    append_chars, chars_of, chars_of_string, contains, contains_chars, decimal, decimal_chars,
    ends_with, ends_with_chars, lit, lower, lower_chars, string_of, sub_chars, trim, trim_chars,
};
use crate::versions::{parse_version, semver_accepts};
use crate::security::{strip_v, strip_v_chars};
use crate::error_types::{find_char, first_index};
use crate::text::chars_eq;
use crate::outcomes::RustdocJsonRefreshOutcome;
use crate::json_tree::{json_document, json_text, json_to_text, json_view, parse_json, JsonData, JsonValue};

verus! {

/// Whether a file name ends in `.json` or `.json.zst`, ignoring ASCII case.
pub open spec fn is_rustdoc_json_name(name: Seq<char>) -> bool {
    ends_with(lower(name), ".json"@) || ends_with(lower(name), ".json.zst"@)
}

/// Whether the file name (of a path that has one) is a rustdoc JSON file.
pub fn is_rustdoc_json_file(file_name: Option<&str>) -> (b: bool)
    ensures
        b == match file_name {
            Some(n) => is_rustdoc_json_name(n@),
            None => false,
        },
{
    match file_name {
        Some(n) => {
            let l = lower_chars(&chars_of(n));
            ends_with_chars(&l, &lit(".json")) || ends_with_chars(&l, &lit(".json.zst"))
        },
        None => false,
    }
}

/// The file name without its `.json.zst` or `.json` suffix; none when it
/// has neither.
pub open spec fn logical_stem(name: Seq<char>) -> Option<Seq<char>> {
    if ends_with(name, ".json.zst"@) {
        Some(name.take(name.len() - ".json.zst"@.len()))
    } else if ends_with(name, ".json"@) {
        Some(name.take(name.len() - ".json"@.len()))
    } else {
        None
    }
}

/// The bare name of a rustdoc JSON file (of a path that has a file name).
pub fn rustdoc_logical_stem(file_name: Option<&str>) -> (r: Option<String>)
    ensures
        match file_name {
            Some(n) => match r {
                Some(s) => logical_stem(n@) == Some(s@),
                None => logical_stem(n@) is None,
            },
            None => r is None,
        },
{
    let n = match file_name {
        Some(n) => chars_of(n),
        None => return None,
    };
    let zst = lit(".json.zst");
    let json = lit(".json");
    if ends_with_chars(&n, &zst) {
        Some(string_of(&sub_chars(&n, 0, n.len() - zst.len())))
    } else if ends_with_chars(&n, &json) {
        Some(string_of(&sub_chars(&n, 0, n.len() - json.len())))
    } else {
        None
    }
}

/// Splitting the stem at the hyphen `s[p]` gives a non-empty crate name and
/// a version that `semver` accepts once its leading `v`s are dropped.
pub open spec fn hyphen_split_ok(s: Seq<char>, p: int) -> bool {
    &&& 0 < p < s.len()
    &&& s[p] == '-'
    &&& semver_accepts(strip_v(s.skip(p + 1)))
}

/// The end of the `_`-separated segment that starts at `from`.
pub open spec fn segment_end(s: Seq<char>, from: int) -> int {
    match first_index(s.skip(from), '_') {
        Some(k) => from + k,
        None => s.len() as int,
    }
}

/// Splitting the stem at the underscore `s[p]` gives a non-empty crate name
/// and, as the next segment alone, a version `semver` accepts once its
/// leading `v`s are dropped.
pub open spec fn underscore_split_ok(s: Seq<char>, p: int) -> bool {
    &&& 0 < p < s.len()
    &&& s[p] == '_'
    &&& semver_accepts(strip_v(s.subrange(p + 1, segment_end(s, p + 1))))
}

/// The first hyphen split that works.
pub open spec fn first_hyphen_split(s: Seq<char>) -> int {
    choose|p: int| hyphen_split_ok(s, p) && forall|q: int| 0 <= q < p ==> !hyphen_split_ok(s, q)
}

/// The first underscore split that works.
pub open spec fn first_underscore_split(s: Seq<char>) -> int {
    choose|p: int|
        underscore_split_ok(s, p) && forall|q: int| 0 <= q < p ==> !underscore_split_ok(s, q)
}

/// The crate name and version a rustdoc file stem stands for. The stem is
/// trimmed; `name-1.2.3` (hyphens in the name and pre-releases allowed, the
/// leftmost working split first) is tried before `name_1.2.3_target`; a stem
/// with neither is the crate name alone.
pub open spec fn stem_parts(stem: Seq<char>) -> (Seq<char>, Option<Seq<char>>) {
    let n = trim(stem);
    if n.len() == 0 {
        (seq![], None)
    } else if exists|p: int| hyphen_split_ok(n, p) {
        let p = first_hyphen_split(n);
        (n.take(p), Some(n.skip(p + 1)))
    } else if exists|p: int| underscore_split_ok(n, p) {
        let p = first_underscore_split(n);
        (n.take(p), Some(n.subrange(p + 1, segment_end(n, p + 1))))
    } else {
        (n, None)
    }
}

fn semver_accepts_chars(v: &Vec<char>) -> (b: bool)
    ensures
        b == semver_accepts(v@),
{
    parse_version(string_of(v).as_str()).is_some()
}

fn hyphen_split_at(n: &Vec<char>) -> (r: Option<usize>)
    ensures
        match r {
            Some(p) => p == first_hyphen_split(n@) && hyphen_split_ok(n@, p as int),
            None => forall|p: int| !hyphen_split_ok(n@, p),
        },
{
    let mut p: usize = 1;
    while p < n.len()
        invariant
            1 <= p,
            forall|q: int| 0 <= q < p ==> !hyphen_split_ok(n@, q),
        decreases n.len() - p,
    {
        if n[p] == '-' {
            let cand = strip_v_chars(&sub_chars(n, p + 1, n.len()));
            proof {
                assert(sub_chars_view_skip(n@, p as int));
            }
            if semver_accepts_chars(&cand) {
                proof {
                    assert(hyphen_split_ok(n@, p as int));
                    let w = first_hyphen_split(n@);
                    assert(w == p) by {
                        if w < p {
                        } else if w > p {
                        }
                    }
                }
                return Some(p);
            }
        }
        p += 1;
    }
    None
}

/// `s.subrange(p + 1, s.len())` is `s.skip(p + 1)`.
pub open spec fn sub_chars_view_skip(s: Seq<char>, p: int) -> bool {
    s.subrange(p + 1, s.len() as int) == s.skip(p + 1)
}

fn segment_end_at(n: &Vec<char>, from: usize) -> (e: usize)
    requires
        from <= n.len(),
    ensures
        e == segment_end(n@, from as int),
        from <= e <= n.len(),
{
    let rest = sub_chars(n, from, n.len());
    proof {
        assert(rest@ =~= n@.skip(from as int));
    }
    match find_char(&rest, '_') {
        Some(k) => from + k,
        None => n.len(),
    }
}

fn underscore_ok_at(n: &Vec<char>, p: usize) -> (r: Option<usize>)
    requires
        0 < p < n.len(),
    ensures
        r is Some <==> underscore_split_ok(n@, p as int),
        r matches Some(e) ==> e == segment_end(n@, p + 1) && p < e <= n@.len(),
{
    if n[p] != '_' {
        return None;
    }
    let end = segment_end_at(n, p + 1);
    let cand = strip_v_chars(&sub_chars(n, p + 1, end));
    if semver_accepts_chars(&cand) {
        Some(end)
    } else {
        None
    }
}

fn underscore_split_at(n: &Vec<char>) -> (r: Option<(usize, usize)>)
    ensures
        match r {
            Some((p, e)) => p == first_underscore_split(n@) && underscore_split_ok(n@, p as int)
                && e == segment_end(n@, p + 1) && p < e <= n@.len(),
            None => forall|p: int| !underscore_split_ok(n@, p),
        },
{
    let mut p: usize = 1;
    while p < n.len()
        invariant
            1 <= p,
            forall|q: int| 0 <= q < p ==> !underscore_split_ok(n@, q),
        decreases n.len() - p,
    {
        match underscore_ok_at(n, p) {
            Some(end) => {
                proof {
                    let w = first_underscore_split(n@);
                    assert(w == p) by {
                        if w < p {
                        } else if w > p {
                        }
                    }
                }
                return Some((p, end));
            },
            None => {},
        }
        p += 1;
    }
    None
}

/// The views of a name and optional version.
pub open spec fn parts_view(r: (String, Option<String>)) -> (Seq<char>, Option<Seq<char>>) {
    (
        r.0@,
        match r.1 {
            Some(v) => Some(v@),
            None => None,
        },
    )
}

/// The crate name and version a rustdoc JSON file stem stands for.
pub fn crate_from_stem(stem: &str) -> (r: (String, Option<String>))
    ensures
        parts_view(r) == stem_parts(stem@),
{
    let n = trim_chars(&chars_of(stem));
    if n.len() == 0 {
        return (String::new(), None);
    }
    match hyphen_split_at(&n) {
        Some(p) => {
            let name = sub_chars(&n, 0, p);
            let version = sub_chars(&n, p + 1, n.len());
            proof {
                assert(name@ =~= n@.take(p as int));
                assert(version@ =~= n@.skip(p + 1));
            }
            return (string_of(&name), Some(string_of(&version)));
        },
        None => {},
    }
    match underscore_split_at(&n) {
        Some((p, e)) => {
            let name = sub_chars(&n, 0, p);
            let version = sub_chars(&n, p + 1, e);
            proof {
                assert(name@ =~= n@.take(p as int));
            }
            (string_of(&name), Some(string_of(&version)))
        },
        None => (string_of(&n), None),
    }
}

/// A path with each `\` turned into `/`.
pub open spec fn forward_slashes(s: Seq<char>) -> Seq<char> {
    s.map_values(|c: char| if c == '\\' { '/' } else { c })
}

/// The synthetic storage path of a local rustdoc file: `rustdoc-json/` then
/// its path relative to the scanned root (with forward slashes), else its
/// file name, else `unknown.json`.
pub open spec fn synthetic_path(relative: Option<Seq<char>>, file_name: Option<Seq<char>>) -> Seq<char> {
    "rustdoc-json/"@ + match relative {
        Some(r) => forward_slashes(r),
        None => match file_name {
            Some(f) => f,
            None => "unknown.json"@,
        },
    }
}

/// The views of an optional string slice.
pub open spec fn str_opt_view(o: Option<&str>) -> Option<Seq<char>> {
    match o {
        Some(s) => Some(s@),
        None => None,
    }
}

/// Builds the synthetic storage path of a local rustdoc file from its path
/// relative to the root (when it lies under it) and its file name.
pub fn synthetic_rustdoc_path(relative: Option<&str>, file_name: Option<&str>) -> (r: String)
    ensures
        r@ == synthetic_path(str_opt_view(relative), str_opt_view(file_name)),
{
    let mut out = lit("rustdoc-json/");
    match relative {
        Some(rel) => {
            let c = chars_of(rel);
            let mut i: usize = 0;
            let ghost start = out@;
            while i < c.len()
                invariant
                    i <= c.len(),
                    out@ == start + forward_slashes(c@.take(i as int)),
                decreases c.len() - i,
            {
                let ch = if c[i] == '\\' {
                    '/'
                } else {
                    c[i]
                };
                out.push(ch);
                proof {
                    assert(forward_slashes(c@.take(i + 1)) =~= forward_slashes(c@.take(i as int)).push(ch));
                }
                i += 1;
            }
            proof {
                assert(c@.take(c@.len() as int) =~= c@);
            }
        },
        None => match file_name {
            Some(f) => append_chars(&mut out, &chars_of(f)),
            None => append_chars(&mut out, &lit("unknown.json")),
        },
    }
    string_of(&out)
}

/// The remedy suggested for a sync error, by the first known phrase it holds.
pub open spec fn sync_error_hint(e: Seq<char>) -> Option<Seq<char>> {
    if contains(e, "RUSTDOC_JSON_DIR is not configured"@) {
        Some("set RUSTDOC_JSON_DIR to enable local rustdoc fallback"@)
    } else if contains(e, "rustdoc JSON directory not found"@) {
        Some("verify RUSTDOC_JSON_DIR points to an existing directory"@)
    } else if contains(e, "payload format_version="@) {
        Some("re-generate rustdoc JSON with a compatible nightly / rustdoc-types format"@)
    } else if contains(e, "crate mismatch"@) {
        Some("ensure rustdoc file name and payload crate match the indexed crate version"@)
    } else if contains(e, "could not be decoded"@) {
        Some("confirm docs.rs payload is gzip/zstd-compressed rustdoc JSON"@)
    } else if contains(e, "invalid UTF-8"@) {
        Some("ensure local fallback files are UTF-8 JSON documents"@)
    } else if contains(e, "no local rustdoc JSON file found"@) {
        Some("add a matching <crate>-<version>.json file in RUSTDOC_JSON_DIR"@)
    } else {
        None
    }
}

fn has(e: &Vec<char>, phrase: &str) -> (b: bool)
    ensures
        b == contains(e@, phrase@),
{
    contains_chars(e, &lit(phrase))
}

/// The remedy to suggest for a rustdoc sync error, if one is known.
pub fn diagnostic_hint_for_sync_error(error: &str) -> (r: Option<&'static str>)
    ensures
        match r {
            Some(h) => sync_error_hint(error@) == Some(h@),
            None => sync_error_hint(error@) is None,
        },
{
    let e = chars_of(error);
    if has(&e, "RUSTDOC_JSON_DIR is not configured") {
        Some("set RUSTDOC_JSON_DIR to enable local rustdoc fallback")
    } else if has(&e, "rustdoc JSON directory not found") {
        Some("verify RUSTDOC_JSON_DIR points to an existing directory")
    } else if has(&e, "payload format_version=") {
        Some("re-generate rustdoc JSON with a compatible nightly / rustdoc-types format")
    } else if has(&e, "crate mismatch") {
        Some("ensure rustdoc file name and payload crate match the indexed crate version")
    } else if has(&e, "could not be decoded") {
        Some("confirm docs.rs payload is gzip/zstd-compressed rustdoc JSON")
    } else if has(&e, "invalid UTF-8") {
        Some("ensure local fallback files are UTF-8 JSON documents")
    } else if has(&e, "no local rustdoc JSON file found") {
        Some("add a matching <crate>-<version>.json file in RUSTDOC_JSON_DIR")
    } else {
        None
    }
}

/// One attempt of a failed sync: ` | attempt #n: error`, with its hint.
pub open spec fn attempt_text(n: nat, e: Seq<char>) -> Seq<char> {
    " | attempt #"@ + decimal(n) + ": "@ + e + match sync_error_hint(e) {
        Some(h) => " (hint: "@ + h + ")"@,
        None => seq![],
    }
}

/// The attempts of a failed sync, numbered from 1.
pub open spec fn attempts_text(errors: Seq<String>) -> Seq<char>
    decreases errors.len(),
{
    if errors.len() == 0 {
        seq![]
    } else {
        attempts_text(errors.drop_last()) + attempt_text(errors.len(), errors.last()@)
    }
}

/// The message of a failed sync of one crate version.
pub open spec fn sync_failure_text(crate_name: Seq<char>, version: Seq<char>, errors: Seq<String>) -> Seq<char> {
    "rustdoc JSON sync failed for "@ + crate_name + "@"@ + version + attempts_text(errors)
}

/// Summarises the failed attempts to sync one crate version, each with its
/// number and the hint for its error.
pub fn format_candidate_sync_failure(crate_name: &str, version: &str, source_errors: &[String]) -> (r: String)
    ensures
        r@ == sync_failure_text(crate_name@, version@, source_errors@),
{
    let mut out = lit("rustdoc JSON sync failed for ");
    append_chars(&mut out, &chars_of(crate_name));
    append_chars(&mut out, &lit("@"));
    append_chars(&mut out, &chars_of(version));
    let ghost head = out@;
    let mut index: usize = 0;
    while index < source_errors.len()
        invariant
            index <= source_errors.len(),
            out@ == head + attempts_text(source_errors@.take(index as int)),
        decreases source_errors.len() - index,
    {
        let attempt = (index + 1) as u64;
        let error = &source_errors[index];
        append_chars(&mut out, &lit(" | attempt #"));
        append_chars(&mut out, &decimal_chars(attempt));
        append_chars(&mut out, &lit(": "));
        append_chars(&mut out, &chars_of_string(error));
        match diagnostic_hint_for_sync_error(error.as_str()) {
            Some(hint) => {
                append_chars(&mut out, &lit(" (hint: "));
                append_chars(&mut out, &chars_of(hint));
                append_chars(&mut out, &lit(")"));
            },
            None => {},
        }
        proof {
            let next = source_errors@.take(index + 1);
            assert(next.drop_last() =~= source_errors@.take(index as int));
            assert(next.last() == source_errors@[index as int]);
            assert(out@ =~= head + attempts_text(next));
        }
        index += 1;
    }
    proof {
        assert(source_errors@.take(source_errors@.len() as int) =~= source_errors@);
    }
    string_of(&out)
}

/// The `format_version` of a JSON document: what `serde_json` reads as the
/// unsigned integer under that key, when the text parses as JSON.
pub uninterp spec fn json_format_version(content: Seq<char>) -> Option<u64>;

/// Reads the `format_version` field of raw rustdoc JSON with `serde_json`
/// (`from_str::<Value>`, `get`, `as_u64`); the result is a function of the
/// text alone and is not stated further.
#[verifier::external_body]
fn extract_format_version(content: &str) -> (r: Option<u64>)
    ensures
        r == json_format_version(content@),
{
    match serde_json::from_str::<serde_json::Value>(content) {
        Ok(value) => match value.get("format_version") {
            Some(field) => field.as_u64(),
            None => None,
        },
        Err(_) => None,
    }
}

/// `rustdoc_types::FORMAT_VERSION`: the format the `rustdoc-types` crate in
/// use (0.61) reads, which its source sets to 61.
#[verifier::external_body]
fn expected_format_version() -> (v: u32)
    ensures
        v == 61,
{
    rustdoc_types::FORMAT_VERSION
}

/// The message for a rustdoc payload that failed to parse, naming the
/// payload's format version when it has one.
pub open spec fn parse_error_text(
    crate_name: Seq<char>,
    version: Seq<char>,
    source_path: Seq<char>,
    parse_error: Seq<char>,
    format_version: Option<u64>,
    expected: u32,
) -> Seq<char> {
    "failed to parse rustdoc JSON payload for "@ + crate_name + "@"@ + version + " from "@
        + source_path + ": "@ + parse_error + match format_version {
        Some(v) => " (payload format_version="@ + decimal(v as nat) + ", expected="@ + decimal(
            expected as nat,
        ) + "; verify rustdoc-types compatibility)"@,
        None => " (payload is missing format_version; ensure this is rustdoc JSON output)"@,
    }
}

/// The message for a rustdoc payload that failed to parse, given the
/// payload's format version (if it has one) and the expected one.
pub fn rustdoc_parse_error_message(
    crate_name: &str,
    version: &str,
    source_path: &str,
    parse_error: &str,
    format_version: Option<u64>,
    expected: u32,
) -> (r: String)
    ensures
        r@ == parse_error_text(
            crate_name@,
            version@,
            source_path@,
            parse_error@,
            format_version,
            expected,
        ),
{
    let mut out = lit("failed to parse rustdoc JSON payload for ");
    append_chars(&mut out, &chars_of(crate_name));
    append_chars(&mut out, &lit("@"));
    append_chars(&mut out, &chars_of(version));
    append_chars(&mut out, &lit(" from "));
    append_chars(&mut out, &chars_of(source_path));
    append_chars(&mut out, &lit(": "));
    append_chars(&mut out, &chars_of(parse_error));
    match format_version {
        Some(v) => {
            append_chars(&mut out, &lit(" (payload format_version="));
            append_chars(&mut out, &decimal_chars(v));
            append_chars(&mut out, &lit(", expected="));
            append_chars(&mut out, &decimal_chars(expected as u64));
            append_chars(&mut out, &lit("; verify rustdoc-types compatibility)"));
        },
        None => {
            append_chars(
                &mut out,
                &lit(" (payload is missing format_version; ensure this is rustdoc JSON output)"),
            );
        },
    }
    proof {
        assert(out@ =~= parse_error_text(
            crate_name@,
            version@,
            source_path@,
            parse_error@,
            format_version,
            expected,
        ));
    }
    string_of(&out)
}

/// The message for a rustdoc payload of one crate version that failed to
/// parse; the payload's format version is read from its text.
pub fn format_rustdoc_parse_error(
    crate_name: &str,
    version: &str,
    source_path: &str,
    content: &str,
    parse_error: &str,
) -> (r: String)
    ensures
        r@ == parse_error_text(
            crate_name@,
            version@,
            source_path@,
            parse_error@,
            json_format_version(content@),
            61,
        ),
{
    let format_version = extract_format_version(content);
    let expected = expected_format_version();
    rustdoc_parse_error_message(crate_name, version, source_path, parse_error, format_version, expected)
}

/// How a payload of an older format is patched before it is read: no patch
/// for the current or a later format; for an older one, whether each
/// external crate entry needs the `path` field that format 57 added.
pub fn compat_patch_plan(format_version: u64, expected: u32) -> (r: Option<bool>)
    ensures
        r == if format_version >= expected {
            None
        } else {
            Some(format_version < 57)
        },
{
    if format_version >= expected as u64 {
        None
    } else {
        Some(format_version < 57)
    }
}

/// The patch plan for a payload against the format in use.
pub fn compat_patch_for(format_version: u64) -> (r: Option<bool>)
    ensures
        r == if format_version >= 61 {
            None
        } else {
            Some(format_version < 57)
        },
{
    compat_patch_plan(format_version, expected_format_version())
}

/// A rustdoc JSON file of the local fallback directory, with the crate and
/// version its name stands for.
#[derive(Clone, Debug)]
pub struct LocalRustdocFile {
    pub path: String,
    pub crate_name: String,
    pub crate_version: Option<String>,
}

/// What a local file's name contributes as a candidate: none without a
/// rustdoc stem, with an empty crate name, or for another crate than the
/// one asked for.
pub open spec fn local_candidate_parts(file_name: Option<Seq<char>>, filter: Option<Seq<char>>) -> Option<(Seq<char>, Option<Seq<char>>)> {
    match file_name {
        None => None,
        Some(n) => match logical_stem(n) {
            None => None,
            Some(stem) => {
                let parts = stem_parts(stem);
                if parts.0.len() == 0 {
                    None
                } else if filter is Some && filter->0 != parts.0 {
                    None
                } else {
                    Some(parts)
                }
            },
        },
    }
}

/// The crate and version a local rustdoc file offers, if it is a candidate.
pub fn local_rustdoc_candidate(file_name: Option<&str>, filter: Option<&str>) -> (r: Option<(String, Option<String>)>)
    ensures
        match r {
            Some(p) => local_candidate_parts(str_opt_view(file_name), str_opt_view(filter)) == Some(parts_view(p)),
            None => local_candidate_parts(str_opt_view(file_name), str_opt_view(filter)) is None,
        },
{
    let stem = match rustdoc_logical_stem(file_name) {
        Some(s) => s,
        None => return None,
    };
    let (name, version) = crate_from_stem(stem.as_str());
    if chars_of_string(&name).len() == 0 {
        return None;
    }
    match filter {
        Some(f) => {
            if !crate::text::chars_eq(&chars_of(f), &chars_of_string(&name)) {
                return None;
            }
        },
        None => {},
    }
    Some((name, version))
}

/// A local file for the crate version: one named for exactly that version.
pub open spec fn exact_local_match(files: Seq<LocalRustdocFile>, i: int, crate_name: Seq<char>, version: Seq<char>) -> bool {
    files[i].crate_name@ == crate_name && files[i].crate_version is Some
        && files[i].crate_version->0@ == version
}

/// A local file for the crate with no version in its name.
pub open spec fn unversioned_local_match(files: Seq<LocalRustdocFile>, i: int, crate_name: Seq<char>) -> bool {
    files[i].crate_name@ == crate_name && files[i].crate_version is None
}

/// The local file used as a fallback for a crate version: the first one
/// named for that exact version, else the first unversioned one for the
/// crate.
pub open spec fn chosen_local_file(files: Seq<LocalRustdocFile>, crate_name: Seq<char>, version: Seq<char>) -> Option<int> {
    if exists|i: int| 0 <= i < files.len() && exact_local_match(files, i, crate_name, version) {
        Some(
            choose|i: int|
                0 <= i < files.len() && exact_local_match(files, i, crate_name, version) && forall|j: int|
                    0 <= j < i ==> !exact_local_match(files, j, crate_name, version),
        )
    } else if exists|i: int| 0 <= i < files.len() && unversioned_local_match(files, i, crate_name) {
        Some(
            choose|i: int|
                0 <= i < files.len() && unversioned_local_match(files, i, crate_name) && forall|j: int|
                    0 <= j < i ==> !unversioned_local_match(files, j, crate_name),
        )
    } else {
        None
    }
}

fn is_exact_match(f: &LocalRustdocFile, name: &Vec<char>, version: &Vec<char>) -> (b: bool)
    ensures
        b == (f.crate_name@ == name@ && f.crate_version is Some && f.crate_version->0@ == version@),
{
    crate::text::chars_eq(&chars_of_string(&f.crate_name), name) && match &f.crate_version {
        Some(v) => crate::text::chars_eq(&chars_of_string(v), version),
        None => false,
    }
}

/// Finds the local fallback file for a crate version, by index.
pub fn find_local_candidate(files: &Vec<LocalRustdocFile>, crate_name: &str, version: &str) -> (r: Option<usize>)
    ensures
        match r {
            Some(i) => chosen_local_file(files@, crate_name@, version@) == Some(i as int),
            None => chosen_local_file(files@, crate_name@, version@) is None,
        },
{
    let name = chars_of(crate_name);
    let ver = chars_of(version);
    let mut i: usize = 0;
    while i < files.len()
        invariant
            i <= files.len(),
            name@ == crate_name@,
            ver@ == version@,
            forall|j: int| 0 <= j < i ==> !exact_local_match(files@, j, crate_name@, version@),
        decreases files.len() - i,
    {
        if is_exact_match(&files[i], &name, &ver) {
            proof {
                let w = choose|w: int|
                    0 <= w < files@.len() && exact_local_match(files@, w, crate_name@, version@)
                        && forall|j: int| 0 <= j < w ==> !exact_local_match(files@, j, crate_name@, version@);
                assert(exact_local_match(files@, i as int, crate_name@, version@));
                assert(w == i) by {
                    if w < i {
                    } else if w > i {
                    }
                }
            }
            return Some(i);
        }
        i += 1;
    }
    let mut k: usize = 0;
    while k < files.len()
        invariant
            k <= files.len(),
            name@ == crate_name@,
            forall|j: int| 0 <= j < files@.len() ==> !exact_local_match(files@, j, crate_name@, version@),
            forall|j: int| 0 <= j < k ==> !unversioned_local_match(files@, j, crate_name@),
        decreases files.len() - k,
    {
        if crate::text::chars_eq(&chars_of_string(&files[k].crate_name), &name) && files[k].crate_version.is_none() {
            proof {
                assert(unversioned_local_match(files@, k as int, crate_name@));
                let w = choose|w: int|
                    0 <= w < files@.len() && unversioned_local_match(files@, w, crate_name@)
                        && forall|j: int| 0 <= j < w ==> !unversioned_local_match(files@, j, crate_name@);
                assert(w == k) by {
                    if w < k {
                    } else if w > k {
                    }
                }
            }
            return Some(k);
        }
        k += 1;
    }
    None
}

/// A name with each `_` turned into `-`.
pub open spec fn dashed(s: Seq<char>) -> Seq<char> {
    s.map_values(|c: char| if c == '_' { '-' } else { c })
}

/// The crate a rustdoc payload is about: its root item's name, trimmed,
/// with `_` turned into `-`; the expected crate when the root has no
/// (non-blank) name.
pub open spec fn payload_crate_name(root_name: Option<Seq<char>>, expected: Seq<char>) -> Seq<char> {
    match root_name {
        Some(n) => if trim(n).len() > 0 {
            dashed(trim(n))
        } else {
            expected
        },
        None => expected,
    }
}

/// Checks that a rustdoc payload is about the crate version being synced.
pub fn check_payload_crate(
    root_name: Option<&str>,
    crate_name: &str,
    version: &str,
    source_path: &str,
) -> (r: Result<(), String>)
    ensures
        payload_crate_name(str_opt_view(root_name), crate_name@) == crate_name@ ==> r is Ok,
        payload_crate_name(str_opt_view(root_name), crate_name@) != crate_name@ ==> (r matches Err(e)
            && e@ == "rustdoc JSON crate mismatch for "@ + crate_name@ + "@"@ + version@ + " from "@
            + source_path@ + ": payload resolved to crate '"@ + payload_crate_name(
            str_opt_view(root_name),
            crate_name@,
        ) + "'"@),
{
    let expected = chars_of(crate_name);
    let resolved: Vec<char> = match root_name {
        Some(n) => {
            let t = trim_chars(&chars_of(n));
            if t.len() > 0 {
                let mut d: Vec<char> = Vec::new();
                let mut i: usize = 0;
                while i < t.len()
                    invariant
                        i <= t.len(),
                        d@ == dashed(t@.take(i as int)),
                    decreases t.len() - i,
                {
                    let c = if t[i] == '_' {
                        '-'
                    } else {
                        t[i]
                    };
                    d.push(c);
                    proof {
                        assert(dashed(t@.take(i + 1)) =~= dashed(t@.take(i as int)).push(c));
                    }
                    i += 1;
                }
                proof {
                    assert(t@.take(t@.len() as int) =~= t@);
                }
                d
            } else {
                chars_of(crate_name)
            }
        },
        None => chars_of(crate_name),
    };
    if crate::text::chars_eq(&resolved, &expected) {
        Ok(())
    } else {
        let mut m = lit("rustdoc JSON crate mismatch for ");
        append_chars(&mut m, &expected);
        append_chars(&mut m, &lit("@"));
        append_chars(&mut m, &chars_of(version));
        append_chars(&mut m, &lit(" from "));
        append_chars(&mut m, &chars_of(source_path));
        append_chars(&mut m, &lit(": payload resolved to crate '"));
        append_chars(&mut m, &resolved);
        append_chars(&mut m, &lit("'"));
        Err(string_of(&m))
    }
}

/// How many rows of each kind one rustdoc ingestion wrote.
#[derive(Clone, Copy, Debug)]
pub struct IngestWriteCounts {
    pub symbols: usize,
    pub types: usize,
    pub impls: usize,
    pub traits: usize,
}

/// Counts one ingested crate version into a rustdoc sync outcome.
pub fn record_ingestion(
    outcome: &mut RustdocJsonRefreshOutcome,
    counts: IngestWriteCounts,
    crate_name: &str,
    version: &str,
)
    requires
        old(outcome).symbols_written + counts.symbols <= usize::MAX,
        old(outcome).types_written + counts.types <= usize::MAX,
        old(outcome).impls_written + counts.impls <= usize::MAX,
        old(outcome).traits_written + counts.traits <= usize::MAX,
        old(outcome).synced_versions < usize::MAX,
    ensures
        final(outcome).symbols_written == old(outcome).symbols_written + counts.symbols,
        final(outcome).types_written == old(outcome).types_written + counts.types,
        final(outcome).impls_written == old(outcome).impls_written + counts.impls,
        final(outcome).traits_written == old(outcome).traits_written + counts.traits,
        final(outcome).synced_versions == old(outcome).synced_versions + 1,
        final(outcome).scanned_files == old(outcome).scanned_files,
        final(outcome).errors@ == old(outcome).errors@,
        crate::text::str_views(final(outcome).touched_versions@) == crate::text::str_views(
            old(outcome).touched_versions@,
        ).push(crate_name@ + "@"@ + version@),
{
    outcome.symbols_written = outcome.symbols_written + counts.symbols;
    outcome.types_written = outcome.types_written + counts.types;
    outcome.impls_written = outcome.impls_written + counts.impls;
    outcome.traits_written = outcome.traits_written + counts.traits;
    outcome.synced_versions = outcome.synced_versions + 1;
    let mut label = chars_of(crate_name);
    append_chars(&mut label, &lit("@"));
    append_chars(&mut label, &chars_of(version));
    let ghost before = outcome.touched_versions@;
    outcome.touched_versions.push(string_of(&label));
    proof {
        assert(crate::text::str_views(outcome.touched_versions@) =~= crate::text::str_views(before).push(
            label@,
        ));
    }
}

/// Each candidate scanned so far was either synced or reported once.
pub open spec fn candidates_accounted(o: RustdocJsonRefreshOutcome) -> bool {
    o.scanned_files == o.synced_versions + o.errors@.len()
}

/// Counts one crate version of a rustdoc sync run: it is scanned, and then
/// either its ingestion (the rows written) is counted, or, when no source
/// could be ingested, one error summarising its failed attempts is added.
/// A run whose candidates were all counted this way stays accounted.
pub fn account_candidate(
    outcome: &mut RustdocJsonRefreshOutcome,
    crate_name: &str,
    version: &str,
    ingested: Option<IngestWriteCounts>,
    source_errors: &[String],
)
    requires
        old(outcome).scanned_files < usize::MAX,
        ingested matches Some(counts) ==> {
            &&& old(outcome).symbols_written + counts.symbols <= usize::MAX
            &&& old(outcome).types_written + counts.types <= usize::MAX
            &&& old(outcome).impls_written + counts.impls <= usize::MAX
            &&& old(outcome).traits_written + counts.traits <= usize::MAX
            &&& old(outcome).synced_versions < usize::MAX
        },
    ensures
        final(outcome).scanned_files == old(outcome).scanned_files + 1,
        match ingested {
            Some(counts) => {
                &&& final(outcome).symbols_written == old(outcome).symbols_written + counts.symbols
                &&& final(outcome).types_written == old(outcome).types_written + counts.types
                &&& final(outcome).impls_written == old(outcome).impls_written + counts.impls
                &&& final(outcome).traits_written == old(outcome).traits_written + counts.traits
                &&& final(outcome).synced_versions == old(outcome).synced_versions + 1
                &&& final(outcome).errors@ == old(outcome).errors@
                &&& crate::text::str_views(final(outcome).touched_versions@) == crate::text::str_views(
                    old(outcome).touched_versions@,
                ).push(crate_name@ + "@"@ + version@)
            },
            None => {
                &&& final(outcome).symbols_written == old(outcome).symbols_written
                &&& final(outcome).types_written == old(outcome).types_written
                &&& final(outcome).impls_written == old(outcome).impls_written
                &&& final(outcome).traits_written == old(outcome).traits_written
                &&& final(outcome).synced_versions == old(outcome).synced_versions
                &&& final(outcome).touched_versions@ == old(outcome).touched_versions@
                &&& crate::text::str_views(final(outcome).errors@) == crate::text::str_views(
                    old(outcome).errors@,
                ).push(sync_failure_text(crate_name@, version@, source_errors@))
            },
        },
        candidates_accounted(*old(outcome)) ==> candidates_accounted(*final(outcome)),
{
    outcome.scanned_files = outcome.scanned_files + 1;
    match ingested {
        Some(counts) => record_ingestion(outcome, counts, crate_name, version),
        None => {
            let message = format_candidate_sync_failure(crate_name, version, source_errors);
            let ghost before = outcome.errors@;
            outcome.errors.push(message);
            proof {
                assert(crate::text::str_views(outcome.errors@) =~= crate::text::str_views(before).push(
                    message@,
                ));
            }
        },
    }
}

/// Closes a rustdoc sync run: the touched `crate@version` labels are sorted
/// and each kept once; the counts and errors stay as they are.
pub fn finish_rustdoc_outcome(outcome: &mut RustdocJsonRefreshOutcome)
    ensures
        crate::sorted::strictly_sorted(crate::text::str_views(final(outcome).touched_versions@)),
        crate::text::str_views(final(outcome).touched_versions@).to_set()
            == crate::text::str_views(old(outcome).touched_versions@).to_set(),
        final(outcome).scanned_files == old(outcome).scanned_files,
        final(outcome).synced_versions == old(outcome).synced_versions,
        final(outcome).symbols_written == old(outcome).symbols_written,
        final(outcome).types_written == old(outcome).types_written,
        final(outcome).impls_written == old(outcome).impls_written,
        final(outcome).traits_written == old(outcome).traits_written,
        final(outcome).errors@ == old(outcome).errors@,
{
    let labels = crate::text::strings_to_chars(outcome.touched_versions.as_slice());
    let set = crate::sorted::sort_dedup(&labels);
    outcome.touched_versions = crate::text::chars_to_strings(&set);
}


/// What `zstd::decode_all` gives for a byte string: the decompressed bytes,
/// or the message of its error.
pub uninterp spec fn zstd_decoding(bytes: Seq<u8>) -> Result<Seq<u8>, Seq<char>>;

/// `zstd::decode_all` on a byte slice; its result (and error message) is a
/// function of the bytes, named [`zstd_decoding`] and not stated further.
#[verifier::external_body]
fn zstd_decode(bytes: &[u8]) -> (r: Result<Vec<u8>, String>)
    ensures
        match r {
            Ok(b) => zstd_decoding(bytes@) == Ok::<Seq<u8>, Seq<char>>(b@),
            Err(e) => zstd_decoding(bytes@) == Err::<Seq<u8>, Seq<char>>(e@),
        },
{
    zstd::decode_all(bytes).map_err(|e| e.to_string())
}

/// What `String::from_utf8` gives for a byte string: the text, or the
/// message of its error.
pub uninterp spec fn utf8_decoding(bytes: Seq<u8>) -> Result<Seq<char>, Seq<char>>;

/// `String::from_utf8`; its result (and error message) is a function of the
/// bytes, named [`utf8_decoding`] and not stated further.
#[verifier::external_body]
fn utf8_text(bytes: Vec<u8>) -> (r: Result<String, String>)
    ensures
        match r {
            Ok(t) => utf8_decoding(bytes@) == Ok::<Seq<char>, Seq<char>>(t@),
            Err(e) => utf8_decoding(bytes@) == Err::<Seq<char>, Seq<char>>(e@),
        },
{
    String::from_utf8(bytes).map_err(|e| e.to_string())
}

/// The bytes of a local rustdoc file as JSON: decompressed when the file
/// name ends in `.zst`.
pub open spec fn local_rustdoc_bytes(path: Seq<char>, file_name: Option<Seq<char>>, raw: Seq<u8>) -> Result<Seq<u8>, Seq<char>> {
    if file_name matches Some(n) && ends_with(n, ".zst"@) {
        match zstd_decoding(raw) {
            Ok(b) => Ok(b),
            Err(e) => Err("failed to decompress zstd rustdoc file "@ + path + ": "@ + e),
        }
    } else {
        Ok(raw)
    }
}

/// The text of a local rustdoc file, or the message of what failed.
pub open spec fn local_rustdoc_text_spec(path: Seq<char>, file_name: Option<Seq<char>>, raw: Seq<u8>) -> Result<Seq<char>, Seq<char>> {
    match local_rustdoc_bytes(path, file_name, raw) {
        Err(m) => Err(m),
        Ok(b) => match utf8_decoding(b) {
            Ok(t) => Ok(t),
            Err(e) => Err("invalid UTF-8 in rustdoc JSON file "@ + path + " (local fallback): "@ + e),
        },
    }
}

/// The text of a local rustdoc file from its raw bytes: `.zst` files are
/// decompressed first, and the bytes must be UTF-8. `path` is the path as
/// shown in messages.
pub fn local_rustdoc_text(path: &str, file_name: Option<&str>, raw: Vec<u8>) -> (r: Result<String, String>)
    ensures
        match r {
            Ok(t) => local_rustdoc_text_spec(path@, str_opt_view(file_name), raw@) == Ok::<Seq<char>, Seq<char>>(t@),
            Err(e) => local_rustdoc_text_spec(path@, str_opt_view(file_name), raw@) == Err::<Seq<char>, Seq<char>>(e@),
        },
{
    let compressed = match file_name {
        Some(n) => ends_with_chars(&chars_of(n), &lit(".zst")),
        None => false,
    };
    let bytes = if compressed {
        match zstd_decode(raw.as_slice()) {
            Ok(b) => b,
            Err(e) => {
                let mut m = lit("failed to decompress zstd rustdoc file ");
                append_chars(&mut m, &chars_of(path));
                append_chars(&mut m, &lit(": "));
                append_chars(&mut m, &chars_of_string(&e));
                return Err(string_of(&m));
            },
        }
    } else {
        raw
    };
    match utf8_text(bytes) {
        Ok(t) => Ok(t),
        Err(e) => {
            let mut m = lit("invalid UTF-8 in rustdoc JSON file ");
            append_chars(&mut m, &chars_of(path));
            append_chars(&mut m, &lit(" (local fallback): "));
            append_chars(&mut m, &chars_of_string(&e));
            Err(string_of(&m))
        },
    }
}

/// Whether an object's members include the key `k`.
pub open spec fn has_member(es: Seq<(Seq<char>, JsonData)>, k: Seq<char>) -> bool {
    exists|i: int| 0 <= i < es.len() && es[i].0 == k
}

/// An `external_crates` entry as format 57 requires it: an object without
/// a `path` member gets `"path": ""`; anything else stays as it is.
pub open spec fn with_default_path(d: JsonData) -> JsonData {
    match d {
        JsonData::Object(es) => if has_member(es, "path"@) {
            d
        } else {
            JsonData::Object(es.push(("path"@, JsonData::Str(Seq::empty()))))
        },
        _ => d,
    }
}

/// Each member of an object given a default `path`.
pub open spec fn default_crate_paths(d: JsonData) -> JsonData {
    match d {
        JsonData::Object(es) => JsonData::Object(
            es.map_values(|e: (Seq<char>, JsonData)| (e.0, with_default_path(e.1))),
        ),
        _ => d,
    }
}

/// A document whose `external_crates` entries get a default `path` (the
/// patch from format 56 to 57); a document that is not an object stays.
pub open spec fn patch_external_crates(d: JsonData) -> JsonData {
    match d {
        JsonData::Object(es) => JsonData::Object(
            es.map_values(
                |e: (Seq<char>, JsonData)|
                    if e.0 == "external_crates"@ {
                        (e.0, default_crate_paths(e.1))
                    } else {
                        e
                    },
            ),
        ),
        _ => d,
    }
}

/// A member's value after the patch of [`patch_members`].
pub open spec fn patched_member(all: bool, d: (Seq<char>, JsonData)) -> JsonData {
    if all {
        with_default_path(d.1)
    } else if d.0 == "external_crates"@ {
        default_crate_paths(d.1)
    } else {
        d.1
    }
}

/// Whether one of an object's members has the key `key`.
fn member_present(members: &Vec<(String, JsonValue)>, key: &Vec<char>) -> (b: bool)
    ensures
        b == has_member(json_view(JsonValue::Object(*members))->Object_0, key@),
{
    let ghost es = json_view(JsonValue::Object(*members))->Object_0;
    let mut i: usize = 0;
    while i < members.len()
        invariant
            i <= members.len(),
            es == json_view(JsonValue::Object(*members))->Object_0,
            forall|k: int| 0 <= k < i ==> es[k].0 != key@,
        decreases members.len() - i,
    {
        if chars_eq(&chars_of_string(&members[i].0), key) {
            proof {
                assert(es[i as int].0 == key@);
            }
            return true;
        }
        i += 1;
    }
    false
}

/// An `external_crates` entry with a default `path`.
fn entry_with_default_path(v: JsonValue) -> (r: JsonValue)
    ensures
        json_view(r) == with_default_path(json_view(v)),
{
    match v {
        JsonValue::Object(members) => {
            let key = lit("path");
            if member_present(&members, &key) {
                JsonValue::Object(members)
            } else {
                let ghost es = json_view(JsonValue::Object(members))->Object_0;
                let mut members = members;
                let pk = string_of(&key);
                let empty: Vec<char> = Vec::new();
                let ps = string_of(&empty);
                proof {
                    assert(ps@ =~= Seq::<char>::empty());
                }
                let pv = JsonValue::Str(ps);
                let ghost pair = (pk, pv);
                let ghost before = members@;
                members.push((pk, pv));
                proof {
                    let nv = json_view(JsonValue::Object(members))->Object_0;
                    assert(members@ == before.push(pair));
                    assert(nv.len() == es.len() + 1);
                    assert forall|j: int| 0 <= j < es.len() implies nv[j] == es[j] by {
                        assert(members@[j] == before[j]);
                    }
                    assert(members@[es.len() as int] == pair);
                    assert(pair.0@ == "path"@);
                    assert(json_view(pair.1) == JsonData::Str(Seq::empty()));
                    assert(nv[es.len() as int] == (pair.0@, json_view(pair.1)));
                    assert(nv =~= es.push(("path"@, JsonData::Str(Seq::empty()))));
                }
                JsonValue::Object(members)
            }
        },
        other => other,
    }
}

/// The members of an object, each value patched by `entry_with_default_path`
/// when `all`, or only the `external_crates` member's by
/// `with_crate_paths` when not.
fn patch_members(members: Vec<(String, JsonValue)>, all: bool) -> (r: Vec<(String, JsonValue)>)
    ensures
        all ==> json_view(JsonValue::Object(r)) == default_crate_paths(
            json_view(JsonValue::Object(members)),
        ),
        !all ==> json_view(JsonValue::Object(r)) == patch_external_crates(
            json_view(JsonValue::Object(members)),
        ),
    decreases (if all { 0int } else { 1int }),
{
    let ghost orig = members@;
    let ghost ov = json_view(JsonValue::Object(members))->Object_0;
    let mut rest = members;
    let mut out: Vec<(String, JsonValue)> = Vec::new();
    let target = lit("external_crates");
    while rest.len() > 0
        invariant
            out@.len() <= orig.len(),
            rest@ == orig.skip(out@.len() as int),
            ov.len() == orig.len(),
            forall|k: int| 0 <= k < orig.len() ==> #[trigger] ov[k] == (orig[k].0@, json_view(orig[k].1)),
            target@ == "external_crates"@,
            forall|k: int|
                0 <= k < out@.len() ==> (#[trigger] out@[k]).0@ == orig[k].0@ && json_view(out@[k].1)
                    == patched_member(all, ov[k]),
        decreases rest.len(),
    {
        let (k, v) = rest.remove(0);
        let ghost n = out@.len() as int;
        proof {
            assert((k, v) == orig[n]);
            assert(orig.skip(n + 1) =~= orig.skip(n).remove(0));
        }
        let ghost gv = v;
        let ghost ok = k;
        let is_target = chars_eq(&chars_of_string(&k), &target);
        let nv = if all {
            entry_with_default_path(v)
        } else if is_target {
            match v {
                JsonValue::Object(ms) => JsonValue::Object(patch_members(ms, true)),
                other => other,
            }
        } else {
            v
        };
        proof {
            assert(ov[n] == (orig[n].0@, json_view(orig[n].1)));
            assert(is_target == (ov[n].0 == "external_crates"@));
            assert(json_view(nv) == patched_member(all, ov[n]));
        }
        let ghost before = out@;
        let ghost gnv = nv;
        out.push((k, nv));
        proof {
            assert(out@ == before.push((ok, gnv)));
            assert forall|j: int| 0 <= j < out@.len() implies (#[trigger] out@[j]).0@ == orig[j].0@
                && json_view(out@[j].1) == patched_member(all, ov[j]) by {
                if j < n {
                    assert(out@[j] == before[j]);
                    assert(before[j].0@ == orig[j].0@);
                }
            }
        }
    }
    proof {
        let rv = json_view(JsonValue::Object(out))->Object_0;
        if all {
            assert(rv =~= ov.map_values(|e: (Seq<char>, JsonData)| (e.0, with_default_path(e.1))));
        } else {
            assert(rv =~= ov.map_values(
                |e: (Seq<char>, JsonData)|
                    if e.0 == "external_crates"@ {
                        (e.0, default_crate_paths(e.1))
                    } else {
                        e
                    },
            ));
        }
    }
    out
}

/// A rustdoc JSON document with its `external_crates` entries given a
/// default `path`.
pub fn add_external_crate_paths(doc: JsonValue) -> (r: JsonValue)
    ensures
        json_view(r) == patch_external_crates(json_view(doc)),
{
    match doc {
        JsonValue::Object(members) => JsonValue::Object(patch_members(members, false)),
        other => other,
    }
}

/// A rustdoc JSON text read as a tree, patched for format 57 when asked,
/// and written again.
pub fn compat_patched(content: &str, add_external_crate_paths: bool) -> (r: Option<String>)
    ensures
        crate::jobs::opt_view(r) == match json_document(content@) {
            None => None,
            Some(d) => json_text(
                if add_external_crate_paths {
                    patch_external_crates(d)
                } else {
                    d
                },
            ),
        },
{
    match parse_json(content) {
        None => None,
        Some(doc) => {
            let doc = if add_external_crate_paths {
                self::add_external_crate_paths(doc)
            } else {
                doc
            };
            json_to_text(&doc)
        },
    }
}

/// The JSON text to read a payload of an older format from: none for the
/// current or a later format, or without a `format_version`; else the text
/// read as a tree, given default external crate paths below format 57, and
/// written again.
pub open spec fn compat_text(content: Seq<char>) -> Option<Seq<char>> {
    match json_format_version(content) {
        None => None,
        Some(fv) => if fv >= 61 {
            None
        } else {
            match json_document(content) {
                None => None,
                Some(d) => json_text(
                    if fv < 57 {
                        patch_external_crates(d)
                    } else {
                        d
                    },
                ),
            }
        },
    }
}

/// The JSON text to read a payload of an older format from (see
/// [`compat_text`]).
pub fn compat_payload(content: &str) -> (r: Option<String>)
    ensures
        crate::jobs::opt_view(r) == compat_text(content@),
{
    let fv = match extract_format_version(content) {
        Some(v) => v,
        None => {
            return None;
        },
    };
    match compat_patch_for(fv) {
        Some(add) => compat_patched(content, add),
        None => None,
    }
}

} // verus!
