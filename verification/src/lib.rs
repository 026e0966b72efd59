//! Verified core logic of a Rust dependency-intelligence index.
pub mod text;
pub mod sorted;
pub mod license;
pub mod versions;
pub mod registry;
pub mod hotspots;
pub mod jobs;
pub mod security;
pub mod metrics;
pub mod outcomes;
pub mod ripgrep;
pub mod error_types;
pub mod type_render;
pub mod rustdoc_files;
pub mod source_index;
pub mod cursor;
pub mod refresh_report;
pub mod canonical_paths;
pub mod version_order;
pub mod doc_model;
pub mod doc_extract;
pub mod doc_members;
pub mod source_symbols;
pub mod github_meta;
pub mod rustsec_record;
pub mod rust_parse;
pub mod json_tree;
pub mod rustdoc_read;
