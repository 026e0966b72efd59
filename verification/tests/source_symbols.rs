use rust_mcp::rust_parse::{
    derive_list, impl_methods, type_terminal, AttributeSyntax, ImplMember, PathSyntax, TypeShape,
};
use rust_mcp::source_symbols::{
    extract_rust_symbols, extract_symbols_from_items, DeriveEntry, ImplTraitRef, PlainItemKind, SourceField, SourceItem,
    SourceMethod, SourceVariant,
};

#[test]
fn extract_rust_symbols_succeeds_on_valid_rust() {
    let code = r#"
            pub fn hello() -> String { String::new() }
            struct Foo { x: i32 }
        "#;
    let result = extract_rust_symbols(code);
    assert!(result.is_ok());
    let batch = result.unwrap();
    assert_eq!(batch.symbols.len(), 2); // hello + Foo
}

#[test]
fn extract_rust_symbols_returns_error_on_invalid_syntax() {
    let invalid_code = "fn foo(, bad) { }";
    let result = extract_rust_symbols(invalid_code);
    assert!(result.is_err(), "expected parse error for invalid syntax");
}

#[test]
fn extract_rust_symbols_returns_error_on_non_module_content() {
    let non_module = "#!/usr/bin/env python3\nprint('hello')";
    let result = extract_rust_symbols(non_module);
    assert!(result.is_err(), "expected parse error for non-Rust content");
}

#[test]
fn extract_rust_symbols_returns_error_on_deliberately_malformed_test_fixture() {
    let code = "struct Foo { x: i32, , }";
    let result = extract_rust_symbols(code);
    assert!(result.is_err(), "expected parse error for malformed struct");
}

#[test]
fn parsed_sources_give_derives_impls_and_fields() {
    let code = "#[derive(Clone, serde::Serialize)]\npub struct Foo<T> { pub x: T }\nimpl<T> Foo<T> {\n    pub fn get(&self) -> &T { &self.x }\n}\nimpl std::fmt::Debug for &Foo<u8> {}\n";
    let batch = extract_rust_symbols(code).unwrap();
    assert_eq!(batch.symbols.len(), 1);
    assert_eq!(batch.symbols[0].visibility.as_deref(), Some("public"));
    assert_eq!(batch.types[0].generic_params, vec!["T".to_string()]);
    assert_eq!(batch.types[0].fields[0].name.as_deref(), Some("x"));
    let impls: Vec<(&str, Option<&str>, &str, i32)> = batch
        .impls
        .iter()
        .map(|i| (i.for_type.as_str(), i.trait_name.as_deref(), i.impl_kind.as_str(), i.start_line))
        .collect();
    assert_eq!(
        impls,
        vec![
            ("Foo", Some("Clone"), "derive", 2),
            ("Foo", Some("Serialize"), "derive", 2),
            ("Foo", None, "inherent", 4),
            ("Foo", Some("Debug"), "trait", 2),
        ]
    );
    assert_eq!(batch.impls[2].methods[0].signature.as_deref(), Some("pub fn get(&self) -> &T { &self.x }"));
    assert!(batch.traits.is_empty());
    assert!(extract_rust_symbols("fn (").unwrap_err().starts_with("rust parser error: "));
}

#[test]
fn symbols_take_their_line_and_signature_from_the_text() {
    let code = "use std::fmt;\n\n/// docs\n  pub fn hello() -> u8 { 1 }   \nstruct Foo { x: i32 }\n";
    let items = vec![
        SourceItem::Other,
        SourceItem::Plain { kind: PlainItemKind::Function, name: "hello".to_string(), is_pub: true },
        SourceItem::Plain { kind: PlainItemKind::Module, name: "missing".to_string(), is_pub: false },
    ];
    let batch = extract_symbols_from_items(code, Ok(items)).unwrap();
    assert_eq!(batch.symbols.len(), 2);
    let hello = &batch.symbols[0];
    assert_eq!(hello.kind, "function");
    assert_eq!((hello.start_line, hello.end_line), (4, 4));
    assert_eq!(hello.signature.as_deref(), Some("pub fn hello() -> u8 { 1 }"));
    assert_eq!(hello.visibility.as_deref(), Some("public"));
    let missing = &batch.symbols[1];
    assert_eq!(missing.kind, "module");
    assert_eq!(missing.start_line, 1);
    assert_eq!(missing.signature.as_deref(), Some("use std::fmt;"));
    assert_eq!(missing.visibility.as_deref(), Some("private"));
}

#[test]
fn derives_and_impl_blocks_become_impls() {
    let code = "#[derive(Clone, serde::Serialize)]\nenum Mode { A = 1, B(u8) }\nimpl Mode {\n    fn later() {}\n    fn early() {}\n}\nimpl fmt::Display for Mode {}\n";
    let items = vec![
        SourceItem::Enum {
            name: "Mode".to_string(),
            is_pub: false,
            generic_params: vec![],
            variants: vec![
                SourceVariant { name: "A".to_string(), fields: vec![], discriminant: Some("1".to_string()) },
                SourceVariant {
                    name: "B".to_string(),
                    fields: vec![SourceField { name: None, type_: "u8".to_string() }],
                    discriminant: None,
                },
            ],
            derives: vec![
                DeriveEntry { terminal: "Clone".to_string(), display: "Clone".to_string() },
                DeriveEntry { terminal: "Serialize".to_string(), display: "serde :: Serialize".to_string() },
            ],
        },
        SourceItem::Impl {
            self_terminal: Some("Mode".to_string()),
            self_display: "Mode".to_string(),
            trait_: None,
            methods: vec![
                SourceMethod { name: "later".to_string(), sig_tokens: "fn later ()".to_string() },
                SourceMethod { name: "absent".to_string(), sig_tokens: "fn absent ()".to_string() },
            ],
        },
        SourceItem::Impl {
            self_terminal: Some("Mode".to_string()),
            self_display: "Mode".to_string(),
            trait_: Some(ImplTraitRef { terminal: Some("Display".to_string()), display: "fmt :: Display".to_string() }),
            methods: vec![],
        },
        SourceItem::Impl {
            self_terminal: None,
            self_display: "[u8]".to_string(),
            trait_: None,
            methods: vec![],
        },
    ];
    let batch = extract_symbols_from_items(code, Ok(items)).unwrap();
    assert_eq!(batch.types.len(), 1);
    assert_eq!(batch.types[0].kind, "enum");
    assert_eq!(batch.types[0].start_line, 2);
    assert_eq!(batch.types[0].variants[1].fields[0].type_, "u8");
    let impls: Vec<(&str, Option<&str>, &str, i32)> = batch
        .impls
        .iter()
        .map(|i| (i.for_type.as_str(), i.trait_name.as_deref(), i.impl_kind.as_str(), i.start_line))
        .collect();
    assert_eq!(
        impls,
        vec![
            ("Mode", Some("Clone"), "derive", 2),
            ("Mode", Some("Serialize"), "derive", 2),
            ("Mode", None, "inherent", 1),
            ("Mode", Some("Display"), "trait", 2),
        ]
    );
    let methods = &batch.impls[2].methods;
    assert_eq!(methods[0].signature.as_deref(), Some("fn later() {}"));
    assert_eq!(methods[1].signature.as_deref(), Some("#[derive(Clone, serde::Serialize)]"));
}

#[test]
fn parse_errors_are_reported() {
    let r = extract_symbols_from_items("fn foo(, bad) { }", Err("expected identifier".to_string()));
    assert_eq!(r.unwrap_err(), "rust parser error: expected identifier");
}

#[test]
fn syntax_trees_are_read_as_the_extraction_needs() {
    let path = |segs: &[&str], display: &str| PathSyntax {
        segments: segs.iter().map(|s| s.to_string()).collect(),
        display: display.to_string(),
    };
    let ty = TypeShape::Reference(Box::new(TypeShape::Paren(Box::new(TypeShape::Path(vec![
        "std".to_string(),
        "Vec".to_string(),
    ])))));
    assert_eq!(type_terminal(ty), Some("Vec".to_string()));
    assert_eq!(type_terminal(TypeShape::Path(vec![])), None);
    assert_eq!(type_terminal(TypeShape::Other), None);

    let attrs = vec![
        AttributeSyntax {
            leading_colon: false,
            segments: vec![("derive".to_string(), false)],
            args: Some(vec![path(&["Clone"], "Clone"), path(&[], ""), path(&["serde", "Serialize"], "serde :: Serialize")]),
        },
        AttributeSyntax { leading_colon: true, segments: vec![("derive".to_string(), false)], args: Some(vec![path(&["Debug"], "Debug")]) },
        AttributeSyntax { leading_colon: false, segments: vec![("derive".to_string(), true)], args: Some(vec![path(&["Eq"], "Eq")]) },
        AttributeSyntax { leading_colon: false, segments: vec![("allow".to_string(), false)], args: Some(vec![path(&["dead_code"], "dead_code")]) },
        AttributeSyntax { leading_colon: false, segments: vec![("derive".to_string(), false)], args: None },
        AttributeSyntax { leading_colon: false, segments: vec![("derive".to_string(), false)], args: Some(vec![path(&["Hash"], "Hash")]) },
    ];
    let derives: Vec<(String, String)> = derive_list(attrs).into_iter().map(|d| (d.terminal, d.display)).collect();
    assert_eq!(
        derives,
        vec![
            ("Clone".to_string(), "Clone".to_string()),
            ("Serialize".to_string(), "serde :: Serialize".to_string()),
            ("Hash".to_string(), "Hash".to_string()),
        ]
    );

    let methods = impl_methods(vec![
        ImplMember::Other,
        ImplMember::Fn { name: "new".to_string(), sig_tokens: "fn new ()".to_string() },
        ImplMember::Other,
        ImplMember::Fn { name: "len".to_string(), sig_tokens: "fn len (& self)".to_string() },
    ]);
    let names: Vec<&str> = methods.iter().map(|m| m.name.as_str()).collect();
    assert_eq!(names, vec!["new", "len"]);
}
