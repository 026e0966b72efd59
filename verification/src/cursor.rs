//! Pagination cursors of the symbol search: a JSON token carried as
//! unpadded URL-safe base64.
use vstd::prelude::*;
use crate::text::{chars_eq, chars_of_string, lit, string_of};
use crate::error_types::ConfidenceLevel;
use base64::Engine;

verus! {

/// The position and query of a page of symbol search results.
#[derive(Debug, Clone)]
pub struct SymbolCursorToken {
    pub v: u8,
    pub offset: u32,
    pub limit: u32,
    pub query: String,
    pub crate_name: Option<String>,
    pub version: Option<String>,
    pub kind: Option<String>,
    pub include_all_versions: bool,
    pub collapse_by_canonical: bool,
}

/// The bytes that unpadded URL-safe base64 text decodes to, if it is valid.
pub uninterp spec fn b64_url_decoded(text: Seq<char>) -> Option<Seq<u8>>;

/// The unpadded URL-safe base64 text of a byte string.
pub uninterp spec fn b64_url_encoded(bytes: Seq<u8>) -> Seq<char>;

/// `base64::engine::general_purpose::URL_SAFE_NO_PAD.decode`; whether and
/// what it decodes is a function of the text, not stated further.
#[verifier::external_body]
fn b64_url_decode(text: &str) -> (r: Option<Vec<u8>>)
    ensures
        match r {
            Some(b) => b64_url_decoded(text@) == Some(b@),
            None => b64_url_decoded(text@) is None,
        },
{
    match base64::engine::general_purpose::URL_SAFE_NO_PAD.decode(text) {
        Ok(bytes) => Some(bytes),
        Err(_) => None,
    }
}

/// `base64::engine::general_purpose::URL_SAFE_NO_PAD.encode`. Its output
/// decodes with the same engine to the input bytes, as the crate's
/// round-trip tests check.
#[verifier::external_body]
fn b64_url_encode(bytes: &[u8]) -> (r: String)
    ensures
        r@ == b64_url_encoded(bytes@),
        b64_url_decoded(r@) == Some(bytes@),
{
    base64::engine::general_purpose::URL_SAFE_NO_PAD.encode(bytes)
}

/// The message of every malformed cursor.
pub open spec fn cursor_invalid() -> Seq<char> {
    "cursor is invalid"@
}

/// The views of a byte result.
pub open spec fn bytes_result_view(r: Result<Vec<u8>, String>) -> Result<Seq<u8>, Seq<char>> {
    match r {
        Ok(b) => Ok(b@),
        Err(e) => Err(e@),
    }
}

/// The JSON bytes of a cursor: the base64 decoding of the token, or the
/// invalid-cursor error.
pub fn decode_cursor_bytes(token: &str) -> (r: Result<Vec<u8>, String>)
    ensures
        bytes_result_view(r) == match b64_url_decoded(token@) {
            Some(b) => Ok(b),
            None => Err(cursor_invalid()),
        },
{
    match b64_url_decode(token) {
        Some(bytes) => Ok(bytes),
        None => Err(string_of(&lit("cursor is invalid"))),
    }
}

/// The token text of a cursor's JSON bytes.
pub fn encode_cursor_bytes(bytes: &[u8]) -> (r: String)
    ensures
        r@ == b64_url_encoded(bytes@),
        b64_url_decoded(r@) == Some(bytes@),
{
    b64_url_encode(bytes)
}

/// Accepts a decoded cursor of version 1 with a non-zero page size.
pub fn validate_cursor(token: SymbolCursorToken) -> (r: Result<SymbolCursorToken, String>)
    ensures
        token.v != 1 ==> (r matches Err(e) && e@ == "cursor version is not supported"@),
        token.v == 1 && token.limit == 0 ==> (r matches Err(e) && e@ == cursor_invalid()),
        token.v == 1 && token.limit != 0 ==> r == Ok::<SymbolCursorToken, String>(token),
{
    if token.v != 1 {
        return Err(string_of(&lit("cursor version is not supported")));
    }
    if token.limit == 0 {
        return Err(string_of(&lit("cursor is invalid")));
    }
    Ok(token)
}

/// The filters of a symbol search, which a cursor must carry unchanged.
#[derive(Debug, Clone)]
pub struct SymbolSearchFilters {
    pub query: String,
    pub crate_name: Option<String>,
    pub version: Option<String>,
    pub kind: Option<String>,
    pub include_all_versions: bool,
    pub collapse_by_canonical: bool,
}

/// Optional strings equal as plain values.
pub open spec fn same_opt(a: Option<String>, b: Option<String>) -> bool {
    crate::jobs::opt_view(a) == crate::jobs::opt_view(b)
}

/// A cursor was issued for the same filters.
pub open spec fn cursor_fits(t: SymbolCursorToken, f: SymbolSearchFilters) -> bool {
    &&& t.query@ == f.query@
    &&& same_opt(t.crate_name, f.crate_name)
    &&& same_opt(t.version, f.version)
    &&& same_opt(t.kind, f.kind)
    &&& t.include_all_versions == f.include_all_versions
    &&& t.collapse_by_canonical == f.collapse_by_canonical
}

fn same_opt_exec(a: &Option<String>, b: &Option<String>) -> (r: bool)
    ensures
        r == same_opt(*a, *b),
{
    match (a, b) {
        (Some(x), Some(y)) => chars_eq(&chars_of_string(x), &chars_of_string(y)),
        (None, None) => true,
        _ => false,
    }
}

/// Whether a cursor was issued for the given filters.
pub fn cursor_matches_filters(t: &SymbolCursorToken, f: &SymbolSearchFilters) -> (r: bool)
    ensures
        r == cursor_fits(*t, *f),
{
    chars_eq(&chars_of_string(&t.query), &chars_of_string(&f.query)) && same_opt_exec(&t.crate_name, &f.crate_name)
        && same_opt_exec(&t.version, &f.version) && same_opt_exec(&t.kind, &f.kind)
        && t.include_all_versions == f.include_all_versions
        && t.collapse_by_canonical == f.collapse_by_canonical
}

/// The window of a symbol search page: offset, page size and page number.
/// With a cursor (already validated) they come from it, provided it was
/// issued for the same filters and, when a limit was given, the same page
/// size; without one, from the page number and the limit.
pub fn symbol_page_window(
    cursor: Option<SymbolCursorToken>,
    filters: &SymbolSearchFilters,
    limit_given: bool,
    requested_limit: u32,
    page: u32,
) -> (r: Result<(u32, u32, u32), String>)
    requires
        cursor matches Some(t) ==> t.limit > 0,
        cursor is None ==> page >= 1 && (page - 1) * requested_limit <= u32::MAX,
    ensures
        match cursor {
            Some(t) => if !cursor_fits(t, *filters) {
                r matches Err(e) && e@ == "cursor does not match current symbol.search filters"@
            } else if limit_given && requested_limit != t.limit {
                r matches Err(e) && e@ == "limit must match the cursor page size"@
            } else {
                r == Ok::<(u32, u32, u32), String>((
                    t.offset,
                    t.limit,
                    if t.offset / t.limit + 1 > u32::MAX {
                        u32::MAX
                    } else {
                        (t.offset / t.limit + 1) as u32
                    },
                ))
            },
            None => r == Ok::<(u32, u32, u32), String>((
                ((page - 1) * requested_limit) as u32,
                requested_limit,
                page,
            )),
        },
{
    match cursor {
        Some(t) => {
            if !cursor_matches_filters(&t, filters) {
                return Err(string_of(&lit("cursor does not match current symbol.search filters")));
            }
            if limit_given && requested_limit != t.limit {
                return Err(string_of(&lit("limit must match the cursor page size")));
            }
            let q = t.offset / t.limit;
            let p = if q == u32::MAX {
                u32::MAX
            } else {
                q + 1
            };
            Ok((t.offset, t.limit, p))
        },
        None => Ok(((page - 1) * requested_limit, requested_limit, page)),
    }
}

/// Whether more hits follow this page.
pub fn symbol_page_has_more(offset: u32, hits: usize, total_count: usize) -> (b: bool)
    requires
        offset + hits <= usize::MAX,
    ensures
        b == (offset + hits < total_count),
{
    (offset as usize) + hits < total_count
}

/// The cursor of the next page: version 1, the offset advanced by the page
/// size (saturating), and the same filters.
pub fn next_page_cursor(filters: &SymbolSearchFilters, offset: u32, limit: u32) -> (t: SymbolCursorToken)
    ensures
        t.v == 1,
        t.offset == if offset + limit > u32::MAX {
            u32::MAX as int
        } else {
            offset + limit
        },
        t.limit == limit,
        cursor_fits(t, *filters),
{
    let next = match offset.checked_add(limit) {
        Some(v) => v,
        None => u32::MAX,
    };
    SymbolCursorToken {
        v: 1,
        offset: next,
        limit,
        query: filters.query.clone(),
        crate_name: filters.crate_name.clone(),
        version: filters.version.clone(),
        kind: filters.kind.clone(),
        include_all_versions: filters.include_all_versions,
        collapse_by_canonical: filters.collapse_by_canonical,
    }
}

/// Whether more hits follow a page, and the cursor of the next page, which
/// is present exactly when more hits follow.
pub fn symbol_page_continuation(
    filters: &SymbolSearchFilters,
    offset: u32,
    limit: u32,
    hits: usize,
    total_count: usize,
) -> (r: (bool, Option<SymbolCursorToken>))
    requires
        offset + hits <= usize::MAX,
    ensures
        r.0 == (offset + hits < total_count),
        r.1 is Some <==> r.0,
        r.1 matches Some(t) ==> {
            &&& t.v == 1
            &&& t.offset == if offset + limit > u32::MAX {
                u32::MAX as int
            } else {
                offset + limit
            }
            &&& t.limit == limit
            &&& cursor_fits(t, *filters)
        },
{
    let has_more = symbol_page_has_more(offset, hits, total_count);
    if has_more {
        (true, Some(next_page_cursor(filters, offset, limit)))
    } else {
        (false, None)
    }
}

/// The confidence of a symbol search and the calls suggested next.
pub fn symbol_search_assessment(hit_count: usize) -> (r: (ConfidenceLevel, String, Vec<&'static str>))
    ensures
        hit_count == 0 ==> r.0 == ConfidenceLevel::Low
            && r.1@ == "no indexed symbols matched the query/filter set"@ && r.2@.len() == 2
            && r.2@[0]@ == "index.refresh"@ && r.2@[1]@ == "source.search"@,
        hit_count != 0 ==> r.0 == ConfidenceLevel::Medium
            && r.1@ == "symbol hits resolved by indexed name matching; verify with source.read"@
            && r.2@.len() == 2 && r.2@[0]@ == "source.read"@ && r.2@[1]@ == "crate.intel"@,
{
    let mut next: Vec<&'static str> = Vec::new();
    if hit_count == 0 {
        next.push("index.refresh");
        next.push("source.search");
        (ConfidenceLevel::Low, string_of(&lit("no indexed symbols matched the query/filter set")), next)
    } else {
        next.push("source.read");
        next.push("crate.intel");
        (
            ConfidenceLevel::Medium,
            string_of(&lit("symbol hits resolved by indexed name matching; verify with source.read")),
            next,
        )
    }
}

} // verus!
