use std::collections::HashMap;

use rust_mcp::canonical_paths::{build_canonical_path_map, resolve_use_target_id, UseEntry};

fn use_entry(id: u32, target: Option<u32>, is_public: bool, is_glob: bool) -> UseEntry {
    UseEntry { id, target, is_public, is_glob }
}

#[test]
fn shortest_public_reexport_becomes_canonical() {
    let mut paths = HashMap::new();
    paths.insert(0, "my_crate".to_string());
    paths.insert(10, "my_crate::internal".to_string());
    paths.insert(1, "my_crate::internal::InnerError".to_string());
    paths.insert(2, "my_crate::Error".to_string());
    let mut targets = HashMap::new();
    targets.insert(2, Some(1));
    let uses = vec![use_entry(2, Some(1), true, false)];
    let canonical = build_canonical_path_map(paths, &uses, &targets);
    assert_eq!(canonical.get(&1).map(String::as_str), Some("my_crate::Error"));
    assert_eq!(canonical.get(&10).map(String::as_str), Some("my_crate::internal"));
}

#[test]
fn private_glob_and_longer_reexports_do_not_win() {
    let mut paths = HashMap::new();
    paths.insert(1, "a::B".to_string());
    paths.insert(2, "a::x::y::B".to_string());
    paths.insert(3, "a::C".to_string());
    paths.insert(4, "z::B".to_string());
    let mut targets = HashMap::new();
    targets.insert(2, Some(1));
    targets.insert(3, Some(1));
    targets.insert(4, Some(1));
    let uses = vec![
        use_entry(2, Some(1), true, false),
        use_entry(3, Some(1), false, false),
        use_entry(4, Some(1), true, true),
    ];
    let canonical = build_canonical_path_map(paths, &uses, &targets);
    assert_eq!(canonical.get(&1).map(String::as_str), Some("a::B"));
}

#[test]
fn ties_on_length_go_to_the_smaller_text_and_missing_items_get_a_path() {
    let mut paths = HashMap::new();
    paths.insert(1, "m::zz".to_string());
    paths.insert(2, "m::ab".to_string());
    paths.insert(3, "q::Thing".to_string());
    let mut targets = HashMap::new();
    targets.insert(2, Some(1));
    targets.insert(3, Some(7));
    let uses = vec![use_entry(2, Some(1), true, false), use_entry(3, Some(7), true, false)];
    let canonical = build_canonical_path_map(paths, &uses, &targets);
    assert_eq!(canonical.get(&1).map(String::as_str), Some("m::ab"));
    assert_eq!(canonical.get(&7).map(String::as_str), Some("q::Thing"));
}

#[test]
fn use_chains_are_followed_and_cycles_stop() {
    let mut targets = HashMap::new();
    targets.insert(5, Some(6));
    targets.insert(6, Some(7));
    targets.insert(8, None);
    targets.insert(20, Some(21));
    targets.insert(21, Some(20));
    assert_eq!(resolve_use_target_id(5, &targets), 7);
    assert_eq!(resolve_use_target_id(8, &targets), 8);
    assert_eq!(resolve_use_target_id(99, &targets), 99);
    assert_eq!(resolve_use_target_id(20, &targets), 20);
}
