use rust_mcp::source_index::{
    extension_language, file_sha256_hex, has_nul, hex_encode, is_text_file, line_for_method_name,
    line_for_symbol_name, normalize_relative_path, normalize_symbol_signature, path_filter_matches,
    within_size_limit,
};

#[test]
fn languages_follow_the_extension() {
    assert_eq!(extension_language(Some("rs")), Some("rust".to_string()));
    assert_eq!(extension_language(Some("yml")), Some("yaml".to_string()));
    assert_eq!(extension_language(Some("yaml")), Some("yaml".to_string()));
    assert_eq!(extension_language(Some("md")), Some("markdown".to_string()));
    assert_eq!(extension_language(Some("txt")), Some("text".to_string()));
    assert_eq!(extension_language(Some("RS")), None);
    assert_eq!(extension_language(None), None);
    assert!(is_text_file(Some("toml")));
    assert!(is_text_file(Some("json")));
    assert!(!is_text_file(Some("png")));
    assert!(!is_text_file(None));
}

#[test]
fn files_are_filtered_by_path_size_and_content() {
    assert!(path_filter_matches("src/Lib.rs", Some("lib")));
    assert!(!path_filter_matches("src/Lib.rs", Some("Lib")));
    assert!(path_filter_matches("anything", None));
    assert!(within_size_limit(512 * 1024));
    assert!(!within_size_limit(512 * 1024 + 1));
    assert!(has_nul(&[1, 0, 2]));
    assert!(!has_nul(b"text"));
    assert_eq!(normalize_relative_path("src\\a\\b.rs"), "src/a/b.rs");
}

#[test]
fn signatures_are_trimmed_and_capped() {
    assert_eq!(normalize_symbol_signature("   "), None);
    assert_eq!(normalize_symbol_signature("  pub fn f()  "), Some("pub fn f()".to_string()));
    let long = "x".repeat(300);
    assert_eq!(normalize_symbol_signature(&long).map(|s| s.chars().count()), Some(240));
}

#[test]
fn symbol_lines_are_one_based_with_a_default_of_one() {
    let content = "struct A;\nimpl A {\n    fn build() {}\n}\n";
    assert_eq!(line_for_symbol_name(content, "impl A"), 2);
    assert_eq!(line_for_method_name(content, "build"), 3);
    assert_eq!(line_for_symbol_name(content, "missing"), 1);
}

#[test]
fn digests_are_lower_case_hex() {
    assert_eq!(hex_encode(&[0x00, 0x0f, 0xa5, 0xff]), "000fa5ff");
    assert_eq!(
        file_sha256_hex(b"abc"),
        "ba7816bf8f01cfea414140de5dae2223b00361a396177a9cb410ff61f20015ad"
    );
    assert_eq!(
        file_sha256_hex(b""),
        "e3b0c44298fc1c149afbf4c8996fb92427ae41e4649b934ca495991b7852b855"
    );
}
