use rust_mcp::error_types::{
    display_impl_sources, error_type_candidates, error_types_confidence, extract_display_patterns,
    extract_generic_argument, finish_display_patterns, from_conversions, matches_error_heuristic,
    returned_by_entry, ConfidenceLevel, ErrorImplRow,
};

fn row(target: &str, trait_name: Option<&str>, display: Option<&str>, path: &str) -> ErrorImplRow {
    ErrorImplRow {
        target_type: target.to_string(),
        trait_name: trait_name.map(|s| s.to_string()),
        trait_name_display: display.map(|s| s.to_string()),
        source_path: path.to_string(),
    }
}

fn strings(values: &[&str]) -> Vec<String> {
    values.iter().map(|v| v.to_string()).collect()
}

#[test]
fn error_like_names_are_recognised() {
    assert!(matches_error_heuristic("ParseError"));
    assert!(matches_error_heuristic("IoErr"));
    assert!(matches_error_heuristic("ERROR"));
    assert!(!matches_error_heuristic("Errors"));
    assert!(!matches_error_heuristic("Config"));
}

#[test]
fn generic_arguments_are_the_trimmed_angle_contents() {
    assert_eq!(extract_generic_argument("From<std::io::Error>"), Some("std::io::Error".to_string()));
    assert_eq!(extract_generic_argument("From< Vec<u8> >"), Some("Vec<u8>".to_string()));
    assert_eq!(extract_generic_argument("From<>"), None);
    assert_eq!(extract_generic_argument("From<  >"), None);
    assert_eq!(extract_generic_argument("From"), None);
    assert_eq!(extract_generic_argument(">x<"), None);
}

#[test]
fn display_patterns_come_from_write_calls_near_the_impl() {
    let content = "impl fmt::Display for MyError {\n    fn fmt(&self, f: &mut Formatter) -> Result {\n        match self {\n            A => write!(f, \"bad input: {}\", x),\n            B => write!(f, \"  \"),\n            C => write!(f, \"bad input: {}\", y),\n        }\n    }\n}\nwrite!(f, \"too late\")\nimpl Display for Other { }\n";
    assert_eq!(extract_display_patterns(content, "MyError"), strings(&["bad input: {}", "too late"]));
    assert!(extract_display_patterns(content, "Missing").is_empty());
}

#[test]
fn candidates_come_from_names_and_error_impls() {
    let types = strings(&["ParseError", "Config", "Zeta"]);
    let impls = vec![
        row("Config", Some("Error"), None, "a.rs"),
        row("Zeta", None, Some("impl std::error::Error for Zeta"), "b.rs"),
        row("Other", Some("Display"), None, "c.rs"),
    ];
    assert_eq!(error_type_candidates(&types, &impls, None), strings(&["Config", "ParseError", "Zeta"]));
    assert_eq!(error_type_candidates(&types, &impls, Some("parseerror")), strings(&["ParseError"]));
    assert!(error_type_candidates(&types, &impls, Some("nothing")).is_empty());
}

#[test]
fn conversions_display_sources_and_returns_are_collected() {
    let impls = vec![
        row("MyError", Some("From"), Some("From<std::io::Error>"), "a.rs"),
        row("myerror", Some("TryFrom"), Some("TryFrom<u8>"), "a.rs"),
        row("MyError", Some("from"), Some("From<Ignored>"), "a.rs"),
        row("MyError", Some("Display"), Some("Display"), "b.rs"),
        row("MyError", Some("DISPLAY"), None, "c.rs"),
        row("Other", Some("From"), Some("From<Nope>"), "d.rs"),
    ];
    assert_eq!(from_conversions("MyError", &impls), strings(&["std::io::Error", "u8"]));
    assert_eq!(display_impl_sources("MyError", &impls), strings(&["b.rs", "c.rs"]));
    assert_eq!(finish_display_patterns(vec![], true), strings(&["Display impl present"]));
    assert!(finish_display_patterns(vec![], false).is_empty());
    assert_eq!(finish_display_patterns(strings(&["x"]), true), strings(&["x"]));
    assert_eq!(returned_by_entry("parse", &Some("fn parse() -> Result<(), E>".to_string())), "parse: fn parse() -> Result<(), E>");
    assert_eq!(returned_by_entry("parse", &Some(String::new())), "parse");
    assert_eq!(returned_by_entry("parse", &None), "parse");
}

#[test]
fn confidence_depends_on_what_was_resolved() {
    let (level, reason) = error_types_confidence(&vec![]);
    assert_eq!(level, ConfidenceLevel::Low);
    assert_eq!(reason, "no error-like types were identified in indexed type metadata");
    let (level, _) = error_types_confidence(&vec![(0, 0), (0, 0)]);
    assert_eq!(level, ConfidenceLevel::Medium);
    let (level, reason) = error_types_confidence(&vec![(0, 0), (0, 2)]);
    assert_eq!(level, ConfidenceLevel::High);
    assert_eq!(reason, "error types, conversions, and return signatures resolved from local index");
}
