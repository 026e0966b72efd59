# rust-mcp

The core of an index of Rust crates (crates.io metadata, local cargo
sources, rustdoc JSON, security advisories) served to coding assistants,
written in Verus: each function states what it returns in its contract and
Verus proves it.

- `src/` is the verified library: license policy screening, unsafe and
  concurrency hotspot detection, RustSec and OSV advisory matching, the
  rendering of rustdoc type trees, the reading of rustdoc JSON payloads
  (with the patch for older formats) and the extraction of symbols, types,
  impls and traits from them and from parsed Rust sources, canonical
  re-export paths, symbol search paging, registry and cache name parsing,
  refresh job planning and retry delays, and the reports of each refresh.
  Calls into `syn`, `rustdoc_types`/`serde_json`, `semver`, `sha2`,
  `base64`, `zstd`, `metrics` and the clock go through trusted functions
  that only make the call and move its result into the library's plain
  types; their contracts state what those crates document, or name the
  result.
- `app/` holds what the library cannot: directory walks and file reads,
  running `rg`, parsing TOML, tokio channels, and the scoring that works on
  floating point.
- `tests/` runs the library on concrete inputs.
