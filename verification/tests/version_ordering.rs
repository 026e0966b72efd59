use rust_mcp::version_order::newest_first_order;
use rust_mcp::versions::parse_versions;

fn order(versions: &[&str], unparsed_last: bool) -> Vec<usize> {
    let texts = versions.iter().map(|v| v.to_string()).collect::<Vec<_>>();
    let parsed = parse_versions(&texts);
    let keys = versions.iter().map(|v| format!("k-{v}")).collect::<Vec<_>>();
    newest_first_order(&parsed, &keys, unparsed_last)
}

#[test]
fn newest_versions_come_first() {
    assert_eq!(order(&["1.0.0", "2.0.0", "1.5.0-alpha", "1.5.0"], true), vec![1, 3, 2, 0]);
}

#[test]
fn unparsed_versions_go_last_or_first_by_name() {
    assert_eq!(order(&["zz", "1.0.0", "aa", "3.0.0"], true), vec![3, 1, 2, 0]);
    assert_eq!(order(&["zz", "1.0.0", "aa", "3.0.0"], false), vec![2, 0, 3, 1]);
}

#[test]
fn equal_versions_keep_their_order() {
    assert_eq!(order(&["1.0.0", "2.0.0", "1.0.0"], true), vec![1, 0, 2]);
    assert_eq!(order(&["1.0.0+a", "1.0.0+b", "1.0.0"], true), vec![1, 0, 2]);
    assert!(order(&[], true).is_empty());
}
