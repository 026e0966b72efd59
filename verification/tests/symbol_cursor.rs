use rust_mcp::cursor::{
    cursor_matches_filters, decode_cursor_bytes, encode_cursor_bytes, next_page_cursor,
    symbol_page_continuation, symbol_page_has_more, symbol_page_window, symbol_search_assessment, validate_cursor,
    SymbolCursorToken, SymbolSearchFilters,
};
use rust_mcp::error_types::ConfidenceLevel;

fn token(v: u8, limit: u32) -> SymbolCursorToken {
    SymbolCursorToken {
        v,
        offset: 20,
        limit,
        query: "Serializer".to_string(),
        crate_name: Some("serde".to_string()),
        version: None,
        kind: Some("trait".to_string()),
        include_all_versions: false,
        collapse_by_canonical: true,
    }
}

#[test]
fn cursor_bytes_round_trip_through_the_token() {
    let bytes = br#"{"v":1,"offset":20}"#;
    let text = encode_cursor_bytes(bytes);
    assert!(!text.contains('='));
    assert!(!text.contains('+') && !text.contains('/'));
    assert_eq!(decode_cursor_bytes(&text), Ok(bytes.to_vec()));
    assert_eq!(encode_cursor_bytes(b"\xfb\xff"), "-_8");
}

#[test]
fn malformed_cursors_are_invalid() {
    assert_eq!(decode_cursor_bytes("not base64!"), Err("cursor is invalid".to_string()));
    assert_eq!(decode_cursor_bytes("QQ=="), Err("cursor is invalid".to_string()));
}

#[test]
fn only_version_one_cursors_with_a_page_size_are_accepted() {
    let ok = validate_cursor(token(1, 10)).expect("valid cursor");
    assert_eq!((ok.offset, ok.limit), (20, 10));
    assert_eq!(
        validate_cursor(token(2, 10)).map(|t| t.offset),
        Err("cursor version is not supported".to_string())
    );
    assert_eq!(validate_cursor(token(1, 0)).map(|t| t.offset), Err("cursor is invalid".to_string()));
}

fn filters() -> SymbolSearchFilters {
    SymbolSearchFilters {
        query: "Serializer".to_string(),
        crate_name: Some("serde".to_string()),
        version: None,
        kind: Some("trait".to_string()),
        include_all_versions: false,
        collapse_by_canonical: true,
    }
}

#[test]
fn page_windows_come_from_the_cursor_or_the_page() {
    assert!(cursor_matches_filters(&token(1, 10), &filters()));
    assert_eq!(symbol_page_window(Some(token(1, 10)), &filters(), false, 25, 1), Ok((20, 10, 3)));
    assert_eq!(symbol_page_window(Some(token(1, 10)), &filters(), true, 10, 1), Ok((20, 10, 3)));
    assert_eq!(
        symbol_page_window(Some(token(1, 10)), &filters(), true, 25, 1),
        Err("limit must match the cursor page size".to_string())
    );
    let mut other = filters();
    other.version = Some("1.0.0".to_string());
    assert_eq!(
        symbol_page_window(Some(token(1, 10)), &other, false, 25, 1),
        Err("cursor does not match current symbol.search filters".to_string())
    );
    assert_eq!(symbol_page_window(None, &filters(), false, 25, 3), Ok((50, 25, 3)));
}

#[test]
fn next_pages_and_assessment() {
    assert!(symbol_page_has_more(20, 10, 31));
    assert!(!symbol_page_has_more(20, 10, 30));
    let next = next_page_cursor(&filters(), 20, 10);
    assert_eq!((next.v, next.offset, next.limit), (1, 30, 10));
    assert_eq!(next_page_cursor(&filters(), u32::MAX - 1, 10).offset, u32::MAX);
    let (level, reason, calls) = symbol_search_assessment(0);
    assert_eq!(level, ConfidenceLevel::Low);
    assert_eq!(reason, "no indexed symbols matched the query/filter set");
    assert_eq!(calls, vec!["index.refresh", "source.search"]);
    assert_eq!(symbol_search_assessment(4).2, vec!["source.read", "crate.intel"]);
}

#[test]
fn next_cursor_only_when_more_results_follow() {
    let (more, next) = symbol_page_continuation(&filters(), 20, 10, 10, 31);
    assert!(more);
    let next = next.expect("a next cursor");
    assert_eq!((next.v, next.offset, next.limit), (1, 30, 10));
    assert!(cursor_matches_filters(&next, &filters()));
    assert!(matches!(symbol_page_continuation(&filters(), 20, 10, 10, 30), (false, None)));
    assert!(matches!(symbol_page_continuation(&filters(), 0, 10, 0, 0), (false, None)));
}
