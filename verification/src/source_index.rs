//! The source-file index of a cached crate version: which files are kept,
//! their languages and digests, and where a symbol is declared.
use vstd::prelude::*;
use crate::text::{
    append_chars, chars_of, contains, contains_chars, lines, lines_of, lit, lower, lower_chars,
    string_of, sub_chars, trim, trim_chars, views,
};
use crate::rustdoc_files::forward_slashes;
use sha2::Digest;

verus! {

/// The language of a file extension that the index keeps.
pub open spec fn language_of(ext: Option<Seq<char>>) -> Option<Seq<char>> {
    match ext {
        Some(e) => if e == "rs"@ {
            Some("rust"@)
        } else if e == "toml"@ {
            Some("toml"@)
        } else if e == "md"@ {
            Some("markdown"@)
        } else if e == "json"@ {
            Some("json"@)
        } else if e == "yaml"@ || e == "yml"@ {
            Some("yaml"@)
        } else if e == "txt"@ {
            Some("text"@)
        } else {
            None
        },
        None => None,
    }
}

fn eq_lit(v: &Vec<char>, s: &str) -> (b: bool)
    ensures
        b == (v@ == s@),
{
    crate::text::chars_eq(v, &lit(s))
}

/// The language of a file, by its extension (`Path::extension`).
pub fn extension_language(extension: Option<&str>) -> (r: Option<String>)
    ensures
        match r {
            Some(l) => language_of(crate::rustdoc_files::str_opt_view(extension)) == Some(l@),
            None => language_of(crate::rustdoc_files::str_opt_view(extension)) is None,
        },
{
    let e = match extension {
        Some(e) => chars_of(e),
        None => return None,
    };
    let label = if eq_lit(&e, "rs") {
        "rust"
    } else if eq_lit(&e, "toml") {
        "toml"
    } else if eq_lit(&e, "md") {
        "markdown"
    } else if eq_lit(&e, "json") {
        "json"
    } else if eq_lit(&e, "yaml") || eq_lit(&e, "yml") {
        "yaml"
    } else if eq_lit(&e, "txt") {
        "text"
    } else {
        return None;
    };
    Some(string_of(&lit(label)))
}

/// Whether a file, by its extension, is a text file the index keeps.
pub fn is_text_file(extension: Option<&str>) -> (b: bool)
    ensures
        b == (language_of(crate::rustdoc_files::str_opt_view(extension)) is Some),
{
    extension_language(extension).is_some()
}

/// The most bytes a kept file may have.
pub const MAX_TEXT_FILE_BYTES: usize = 524288;

/// Whether a file's relative path passes the optional path filter: the
/// lower-cased path must hold the filter text.
pub open spec fn path_filter_passes(relative: Seq<char>, filter: Option<Seq<char>>) -> bool {
    match filter {
        Some(f) => contains(lower(relative), f),
        None => true,
    }
}

/// Applies the optional path filter to a relative path.
pub fn path_filter_matches(relative: &str, filter: Option<&str>) -> (b: bool)
    ensures
        b == path_filter_passes(relative@, crate::rustdoc_files::str_opt_view(filter)),
{
    match filter {
        Some(f) => contains_chars(&lower_chars(&chars_of(relative)), &chars_of(f)),
        None => true,
    }
}

/// Whether a file of `len` bytes (converted to `usize` as `as` does) is
/// small enough to keep.
pub fn within_size_limit(len: u64) -> (b: bool)
    ensures
        b == ((len as usize) <= MAX_TEXT_FILE_BYTES),
{
    (len as usize) <= MAX_TEXT_FILE_BYTES
}

/// Whether the bytes hold a NUL byte (the file is then taken as binary).
pub fn has_nul(bytes: &[u8]) -> (b: bool)
    ensures
        b == bytes@.contains(0u8),
{
    let mut i: usize = 0;
    while i < bytes.len()
        invariant
            i <= bytes.len(),
            forall|k: int| 0 <= k < i ==> bytes@[k] != 0u8,
        decreases bytes.len() - i,
    {
        if bytes[i] == 0 {
            proof {
                assert(bytes@[i as int] == 0u8);
            }
            return true;
        }
        i += 1;
    }
    false
}

/// A relative path as stored: each `\` turned into `/`.
pub fn normalize_relative_path(relative: &str) -> (r: String)
    ensures
        r@ == forward_slashes(relative@),
{
    let c = chars_of(relative);
    let mut out: Vec<char> = Vec::new();
    let mut i: usize = 0;
    while i < c.len()
        invariant
            i <= c.len(),
            out@ == forward_slashes(c@.take(i as int)),
        decreases c.len() - i,
    {
        let ch = if c[i] == '\\' {
            '/'
        } else {
            c[i]
        };
        out.push(ch);
        proof {
            assert(forward_slashes(c@.take(i + 1)) =~= forward_slashes(c@.take(i as int)).push(ch));
        }
        i += 1;
    }
    proof {
        assert(c@.take(c@.len() as int) =~= c@);
    }
    string_of(&out)
}

/// The signature stored for a symbol: its declaration line, trimmed and cut
/// to 240 characters; none for a blank line.
pub open spec fn symbol_signature(line: Seq<char>) -> Option<Seq<char>> {
    if trim(line).len() == 0 {
        None
    } else if trim(line).len() <= 240 {
        Some(trim(line))
    } else {
        Some(trim(line).take(240))
    }
}

/// Normalises a declaration line into a stored signature.
pub fn normalize_symbol_signature(line: &str) -> (r: Option<String>)
    ensures
        match r {
            Some(s) => symbol_signature(line@) == Some(s@),
            None => symbol_signature(line@) is None,
        },
{
    let t = trim_chars(&chars_of(line));
    if t.len() == 0 {
        None
    } else if t.len() <= 240 {
        Some(string_of(&t))
    } else {
        Some(string_of(&sub_chars(&t, 0, 240)))
    }
}

/// The index of the first line that holds `name`, if any.
pub open spec fn first_line_with(ls: Seq<Seq<char>>, name: Seq<char>) -> Option<int> {
    if exists|i: int| 0 <= i < ls.len() && contains(ls[i], name) {
        Some(
            choose|i: int|
                0 <= i < ls.len() && contains(ls[i], name) && forall|j: int|
                    0 <= j < i ==> !contains(ls[j], name),
        )
    } else {
        None
    }
}

/// The 1-based number of the first line of `content` that holds `name`
/// (converted to `i32` as `as` does), or 1 when no line does.
pub open spec fn symbol_line(content: Seq<char>, name: Seq<char>) -> i32 {
    match first_line_with(lines(content), name) {
        Some(i) => (i + 1) as i32,
        None => 1,
    }
}

/// The line on which a symbol name first appears.
pub fn line_for_symbol_name(content: &str, name: &str) -> (r: i32)
    ensures
        r == symbol_line(content@, name@),
{
    let ls = lines_of(&chars_of(content));
    let n = chars_of(name);
    let ghost lv = views(ls@);
    let mut idx: usize = 0;
    while idx < ls.len()
        invariant
            idx <= ls.len(),
            lv == views(ls@),
            lv == lines(content@),
            n@ == name@,
            forall|j: int| 0 <= j < idx ==> !contains(lv[j], name@),
        decreases ls.len() - idx,
    {
        if contains_chars(&ls[idx], &n) {
            proof {
                assert(lv[idx as int] == ls@[idx as int]@);
                let w = choose|w: int|
                    0 <= w < lv.len() && contains(lv[w], name@) && forall|j: int|
                        0 <= j < w ==> !contains(lv[j], name@);
                assert(w == idx) by {
                    if w < idx {
                    } else if w > idx {
                    }
                }
            }
            return (idx + 1) as i32;
        }
        proof {
            assert(lv[idx as int] == ls@[idx as int]@);
        }
        idx += 1;
    }
    1
}

/// The line on which `fn method_name` first appears.
pub fn line_for_method_name(content: &str, method_name: &str) -> (r: i32)
    ensures
        r == symbol_line(content@, "fn "@ + method_name@),
{
    let mut needle = lit("fn ");
    append_chars(&mut needle, &chars_of(method_name));
    let s = string_of(&needle);
    line_for_symbol_name(content, s.as_str())
}

/// The SHA-256 digest of a byte string, as `sha2` computes it.
pub uninterp spec fn sha256_of(content: Seq<u8>) -> Seq<u8>;

/// `sha2::Sha256::digest`; the digest is 32 bytes long (`OutputSize` is
/// `U32`) and is not stated further.
#[verifier::external_body]
fn sha256_digest(content: &[u8]) -> (r: Vec<u8>)
    ensures
        r@ == sha256_of(content@),
        r@.len() == 32,
{
    sha2::Sha256::digest(content).to_vec()
}

/// The lower-case hexadecimal digit for `d < 16`.
pub open spec fn hex_digit(d: u8) -> char {
    if d < 10 {
        ((d + 48) as u8) as char
    } else {
        ((d + 87) as u8) as char
    }
}

/// Each byte as two lower-case hexadecimal digits (`{:02x}`).
pub open spec fn hex_lower(bytes: Seq<u8>) -> Seq<char>
    decreases bytes.len(),
{
    if bytes.len() == 0 {
        seq![]
    } else {
        hex_lower(bytes.drop_last()) + seq![
            hex_digit(bytes.last() / 16),
            hex_digit(bytes.last() % 16),
        ]
    }
}

fn hex_digit_of(d: u8) -> (c: char)
    requires
        d < 16,
    ensures
        c == hex_digit(d),
{
    if d < 10 {
        ((d + 48) as u8) as char
    } else {
        ((d + 87) as u8) as char
    }
}

/// The lower-case hexadecimal text of a byte string.
pub fn hex_encode(bytes: &[u8]) -> (out: String)
    ensures
        out@ == hex_lower(bytes@),
        out@.len() == 2 * bytes@.len(),
{
    let mut out: Vec<char> = Vec::new();
    let mut i: usize = 0;
    while i < bytes.len()
        invariant
            i <= bytes.len(),
            out@ == hex_lower(bytes@.take(i as int)),
            out@.len() == 2 * i,
        decreases bytes.len() - i,
    {
        let b = bytes[i];
        out.push(hex_digit_of(b / 16));
        out.push(hex_digit_of(b % 16));
        proof {
            assert(bytes@.take(i + 1).drop_last() =~= bytes@.take(i as int));
            assert(out@ =~= hex_lower(bytes@.take(i + 1)));
        }
        i += 1;
    }
    proof {
        assert(bytes@.take(bytes@.len() as int) =~= bytes@);
    }
    string_of(&out)
}

/// The SHA-256 digest of a file's bytes as 64 lower-case hexadecimal digits.
pub fn file_sha256_hex(content: &[u8]) -> (out: String)
    ensures
        out@ == hex_lower(sha256_of(content@)),
        out@.len() == 64,
{
    let digest = sha256_digest(content);
    hex_encode(digest.as_slice())
}

} // verus!
