//! Ripgrep search: the command line, the exit-status rule, and the decoding
//! of `rg --json` output into structured matches; plus the budget that
//! spreads one search over several directory trees.
use vstd::prelude::*;
use crate::text::{
    append_chars, chars_eq, chars_of, chars_of_string, lines, lines_of, lit, starts_with,
    starts_with_chars, string_of, sub_chars, views,
};

verus! {

#[verifier::external_type_specification]
#[verifier::external_body]
pub struct ExIoError(std::io::Error);

/// A single match returned by ripgrep.
#[derive(Debug, Clone)]
pub struct RipgrepMatch {
    /// File path relative to the search root directory.
    pub path: String,
    /// 1-based line number of the match.
    pub line_number: u32,
    /// The full text of the matched line (trimmed of trailing newline).
    pub line_content: String,
}

/// Search mode for ripgrep invocations.
#[derive(Debug, Clone, Copy, PartialEq, Eq, Structural)]
pub enum RipgrepMode {
    /// Case-insensitive fixed-string search (`rg -F -i`).
    FixedString,
    /// Regex search (`rg`). The pattern is passed as-is.
    Regex,
}

/// Error type for ripgrep operations.
#[derive(Debug)]
pub enum RipgrepError {
    /// The `rg` binary could not be spawned (not installed or not in PATH).
    NotFound(std::io::Error),
    /// `rg` returned a non-zero exit code other than 1 (no matches).
    ExecutionFailed {
        /// Process exit code, if available.
        exit_code: Option<i32>,
        /// Captured stderr output from the `rg` process.
        stderr: String,
    },
    /// Failed to parse a JSON line from ripgrep output.
    ParseError(String),
}

/// The arguments of an `rg` invocation.
pub open spec fn rg_args_spec(
    pattern: Seq<char>,
    mode: RipgrepMode,
    path_glob: Option<Seq<char>>,
    dir: Seq<char>,
) -> Seq<Seq<char>> {
    seq!["--json"@, "--no-heading"@] + (match mode {
        RipgrepMode::FixedString => seq!["-F"@, "-i"@],
        RipgrepMode::Regex => seq!["-i"@],
    }) + (match path_glob {
        Some(g) => seq!["--glob"@, g],
        None => seq![],
    }) + seq!["--"@, pattern, dir]
}

/// The arguments `rg` is run with: JSON output, case-insensitive matching
/// (fixed-string in `FixedString` mode), an optional path glob, then the
/// pattern and the directory after `--`.
pub fn rg_args(pattern: &str, mode: RipgrepMode, path_glob: Option<&str>, dir: &str) -> (out: Vec<
    String,
>)
    ensures
        crate::text::str_views(out@) == rg_args_spec(
            pattern@,
            mode,
            match path_glob {
                Some(g) => Some(g@),
                None => None,
            },
            dir@,
        ),
{
    let mut out: Vec<String> = Vec::new();
    out.push(string_of(&lit("--json")));
    out.push(string_of(&lit("--no-heading")));
    match mode {
        RipgrepMode::FixedString => {
            out.push(string_of(&lit("-F")));
            out.push(string_of(&lit("-i")));
        },
        RipgrepMode::Regex => {
            out.push(string_of(&lit("-i")));
        },
    }
    if let Some(g) = path_glob {
        out.push(string_of(&lit("--glob")));
        out.push(string_of(&chars_of(g)));
    }
    out.push(string_of(&lit("--")));
    out.push(string_of(&chars_of(pattern)));
    out.push(string_of(&chars_of(dir)));
    proof {
        assert(crate::text::str_views(out@) =~= rg_args_spec(
            pattern@,
            mode,
            match path_glob {
                Some(g) => Some(g@),
                None => None,
            },
            dir@,
        ));
    }
    out
}

/// Whether an `rg` exit status means the output can be read: success, or
/// exit code 1 ("no matches").
pub fn rg_status_ok(success: bool, exit_code: Option<i32>) -> (b: bool)
    ensures
        b == (success || exit_code == Some(1i32)),
{
    success || exit_code == Some(1i32)
}

/// One decoded line of `rg --json` output, as plain values: its `type`,
/// whether it has `data`, and `data.path.text`, `data.line_number`,
/// `data.lines.text` where present.
pub type RgLineView = (Option<Seq<char>>, bool, Option<Seq<char>>, Option<u64>, Option<Seq<char>>);

/// One decoded line of `rg --json` output.
#[derive(Debug, Clone)]
pub struct RgLine {
    /// The message `type` (`begin`, `match`, `end`, ...).
    pub msg_type: Option<String>,
    /// Whether the message has a `data` object.
    pub has_data: bool,
    /// `data.path.text`.
    pub path: Option<String>,
    /// `data.line_number`.
    pub line_number: Option<u64>,
    /// `data.lines.text`.
    pub text: Option<String>,
}

/// The view of a decoded line.
pub open spec fn rg_line_view(l: RgLine) -> RgLineView {
    (
        crate::jobs::opt_view(l.msg_type),
        l.has_data,
        crate::jobs::opt_view(l.path),
        l.line_number,
        crate::jobs::opt_view(l.text),
    )
}

/// What `serde_json::from_str` makes of one output line, read field by field
/// (`get("type")`, `get("data")`, `pointer("/path/text")`,
/// `get("line_number")`, `pointer("/lines/text")`), or the parse error's text.
pub uninterp spec fn rg_json_line(line: Seq<char>) -> Result<RgLineView, Seq<char>>;

/// The view of a decoding result.
pub open spec fn rg_decoded_view(r: Result<RgLine, String>) -> Result<RgLineView, Seq<char>> {
    match r {
        Ok(l) => Ok(rg_line_view(l)),
        Err(e) => Err(e@),
    }
}

/// Decodes one line of `rg --json` output with `serde_json::from_str` and
/// reads the fields a match needs; a JSON error becomes its message.
#[verifier::external_body]
fn decode_rg_line(line: &str) -> (r: Result<RgLine, String>)
    ensures
        rg_decoded_view(r) == rg_json_line(line@),
{
    let value: serde_json::Value = match serde_json::from_str(line) {
        Ok(v) => v,
        Err(e) => return Err(e.to_string()),
    };
    Ok(RgLine {
        msg_type: value.get("type").and_then(serde_json::Value::as_str).map(String::from),
        has_data: value.get("data").is_some(),
        path: value.pointer("/data/path/text").and_then(serde_json::Value::as_str).map(String::from),
        line_number: value.pointer("/data/line_number").and_then(serde_json::Value::as_u64),
        text: value.pointer("/data/lines/text").and_then(serde_json::Value::as_str).map(String::from),
    })
}

/// `s` without its leading copies of `c` (`trim_start_matches(c)`).
pub open spec fn strip_leading(s: Seq<char>, c: char) -> Seq<char>
    decreases s.len(),
{
    if s.len() > 0 && s[0] == c {
        strip_leading(s.drop_first(), c)
    } else {
        s
    }
}

/// `s` without its trailing copies of `c` (`trim_end_matches(c)`).
pub open spec fn strip_trailing(s: Seq<char>, c: char) -> Seq<char>
    decreases s.len(),
{
    if s.len() > 0 && s.last() == c {
        strip_trailing(s.drop_last(), c)
    } else {
        s
    }
}

proof fn lemma_strip_leading(s: Seq<char>, c: char, k: int)
    requires
        0 <= k <= s.len(),
        forall|i: int| 0 <= i < k ==> s[i] == c,
        k < s.len() ==> s[k] != c,
    ensures
        strip_leading(s, c) == s.skip(k),
    decreases k,
{
    if k > 0 {
        assert forall|i: int| 0 <= i < k - 1 implies s.drop_first()[i] == c by {
            assert(s.drop_first()[i] == s[i + 1]);
        }
        lemma_strip_leading(s.drop_first(), c, k - 1);
        assert(s.drop_first().skip(k - 1) =~= s.skip(k));
    } else {
        assert(s.skip(0) =~= s);
    }
}

proof fn lemma_strip_trailing(s: Seq<char>, c: char, k: int)
    requires
        0 <= k <= s.len(),
        forall|i: int| k <= i < s.len() ==> s[i] == c,
        k > 0 ==> s[k - 1] != c,
    ensures
        strip_trailing(s, c) == s.take(k),
    decreases s.len() - k,
{
    if k < s.len() {
        assert forall|i: int| k <= i < s.drop_last().len() implies s.drop_last()[i] == c by {
            assert(s.drop_last()[i] == s[i]);
        }
        lemma_strip_trailing(s.drop_last(), c, k);
        assert(s.drop_last().take(k) =~= s.take(k));
    } else {
        assert(s.take(k) =~= s);
    }
}

fn strip_leading_exec(v: &Vec<char>, c: char) -> (out: Vec<char>)
    ensures
        out@ == strip_leading(v@, c),
{
    let mut k: usize = 0;
    while k < v.len() && v[k] == c
        invariant
            k <= v.len(),
            forall|i: int| 0 <= i < k ==> v@[i] == c,
        decreases v.len() - k,
    {
        k += 1;
    }
    proof {
        lemma_strip_leading(v@, c, k as int);
    }
    let out = sub_chars(v, k, v.len());
    proof {
        assert(out@ =~= v@.skip(k as int));
    }
    out
}

fn strip_trailing_exec(v: &Vec<char>, c: char) -> (out: Vec<char>)
    ensures
        out@ == strip_trailing(v@, c),
{
    let mut k: usize = v.len();
    while k > 0 && v[k - 1] == c
        invariant
            k <= v.len(),
            forall|i: int| k <= i < v.len() ==> v@[i] == c,
        decreases k,
    {
        k -= 1;
    }
    proof {
        lemma_strip_trailing(v@, c, k as int);
    }
    let out = sub_chars(v, 0, k);
    proof {
        assert(out@ =~= v@.take(k as int));
    }
    out
}

/// A match as plain values.
pub type MatchView = (Seq<char>, u32, Seq<char>);

/// The view of a match.
pub open spec fn match_view(m: RipgrepMatch) -> MatchView {
    (m.path@, m.line_number, m.line_content@)
}

/// The views of a list of matches.
pub open spec fn match_views(v: Seq<RipgrepMatch>) -> Seq<MatchView> {
    v.map_values(|m: RipgrepMatch| match_view(m))
}

/// A reported path relative to the search root: the root prefix removed when
/// present, then leading `/`s, then leading `\`s.
pub open spec fn relative_path(raw: Seq<char>, root: Seq<char>) -> Seq<char> {
    let stripped = if starts_with(raw, root) {
        raw.skip(root.len() as int)
    } else {
        raw
    };
    strip_leading(strip_leading(stripped, '/'), '\\')
}

/// The match a decoded `match` line stands for.
pub open spec fn match_of(ev: RgLineView, root: Seq<char>) -> MatchView {
    (
        relative_path(
            match ev.2 {
                Some(p) => p,
                None => seq![],
            },
            root,
        ),
        (match ev.3 {
            Some(n) => n,
            None => 0,
        }) as u32,
        strip_trailing(
            strip_trailing(
                match ev.4 {
                    Some(t) => t,
                    None => seq![],
                },
                '\n',
            ),
            '\r',
        ),
    )
}

/// The matches of the output lines `ls[i..]` after `acc`, stopping once
/// `max` matches are collected; the first line that is not JSON makes it fail.
pub open spec fn rg_parse(
    ls: Seq<Seq<char>>,
    i: int,
    root: Seq<char>,
    max: int,
    acc: Seq<MatchView>,
) -> Result<Seq<MatchView>, Seq<char>>
    decreases ls.len() - i,
{
    if i < 0 || i >= ls.len() || acc.len() >= max {
        Ok(acc)
    } else {
        match rg_json_line(ls[i]) {
            Err(e) => Err(e),
            Ok(ev) => if ev.0 == Some("match"@) && ev.1 {
                rg_parse(ls, i + 1, root, max, acc.push(match_of(ev, root)))
            } else {
                rg_parse(ls, i + 1, root, max, acc)
            },
        }
    }
}

/// The view of a parse result.
pub open spec fn parse_result_view(r: Result<Vec<RipgrepMatch>, RipgrepError>) -> Result<
    Seq<MatchView>,
    Seq<char>,
> {
    match r {
        Ok(v) => Ok(match_views(v@)),
        Err(RipgrepError::ParseError(e)) => Err(e@),
        Err(_) => Err(seq![]),
    }
}

/// Decodes `rg --json` output into up to `max_results` matches, with paths
/// relative to `search_root`.
pub fn parse_json_output(stdout: &str, search_root: &str, max_results: usize) -> (r: Result<
    Vec<RipgrepMatch>,
    RipgrepError,
>)
    ensures
        parse_result_view(r) == rg_parse(
            lines(stdout@),
            0,
            search_root@,
            max_results as int,
            seq![],
        ),
        r matches Err(e) ==> e is ParseError,
{
    let ls = lines_of(&chars_of(stdout));
    let root = chars_of(search_root);
    let match_word = lit("match");
    let ghost lv = views(ls@);
    let mut out: Vec<RipgrepMatch> = Vec::new();
    proof {
        assert(match_views(out@) =~= Seq::<MatchView>::empty());
    }
    let mut i: usize = 0;
    while i < ls.len() && out.len() < max_results
        invariant
            i <= ls.len(),
            lv == views(ls@),
            lv == lines(stdout@),
            root@ == search_root@,
            match_word@ == "match"@,
            rg_parse(lv, i as int, root@, max_results as int, match_views(out@)) == rg_parse(
                lv,
                0,
                root@,
                max_results as int,
                seq![],
            ),
        decreases ls.len() - i,
    {
        let line = string_of(&ls[i]);
        proof {
            assert(lv[i as int] == line@);
        }
        let ev = match decode_rg_line(line.as_str()) {
            Ok(ev) => ev,
            Err(e) => {
                return Err(RipgrepError::ParseError(e));
            },
        };
        let is_match = match &ev.msg_type {
            Some(t) => chars_eq(&chars_of_string(t), &match_word),
            None => false,
        };
        if is_match && ev.has_data {
            let raw = match &ev.path {
                Some(p) => chars_of_string(p),
                None => Vec::new(),
            };
            let stripped = if starts_with_chars(&raw, &root) {
                sub_chars(&raw, root.len(), raw.len())
            } else {
                sub_chars(&raw, 0, raw.len())
            };
            proof {
                assert(stripped@ =~= (if starts_with(raw@, root@) {
                    raw@.skip(root@.len() as int)
                } else {
                    raw@
                }));
            }
            let rel = strip_leading_exec(&strip_leading_exec(&stripped, '/'), '\\');
            let n: u64 = match ev.line_number {
                Some(n) => n,
                None => 0,
            };
            let text = match &ev.text {
                Some(t) => chars_of_string(t),
                None => Vec::new(),
            };
            let content = strip_trailing_exec(&strip_trailing_exec(&text, '\n'), '\r');
            let m = RipgrepMatch {
                path: string_of(&rel),
                line_number: n as u32,
                line_content: string_of(&content),
            };
            let ghost before = out@;
            proof {
                assert(match_view(m) == match_of(rg_line_view(ev), root@));
            }
            out.push(m);
            proof {
                assert(match_views(out@) =~= match_views(before).push(match_view(m)));
            }
        }
        i += 1;
    }
    Ok(out)
}

/// How many matches the next directory may still contribute, or `None` once
/// `max_total` matches are collected.
pub fn next_search_limit(collected: usize, max_per_dir: usize, max_total: usize) -> (r: Option<
    usize,
>)
    ensures
        r == (if collected >= max_total {
            None
        } else if max_per_dir < max_total - collected {
            Some(max_per_dir)
        } else {
            Some((max_total - collected) as usize)
        }),
{
    if collected >= max_total {
        None
    } else {
        let remaining = max_total - collected;
        if max_per_dir < remaining {
            Some(max_per_dir)
        } else {
            Some(remaining)
        }
    }
}

/// Adds one directory's matches, tagged with the directory's index, to the
/// results, stopping at `max_total`.
pub fn absorb_matches(
    results: &mut Vec<(usize, RipgrepMatch)>,
    dir_index: usize,
    matches: Vec<RipgrepMatch>,
    max_total: usize,
)
    ensures
        final(results)@.len() == if old(results)@.len() >= max_total {
            old(results)@.len() as int
        } else if old(results)@.len() + matches@.len() <= max_total {
            (old(results)@.len() + matches@.len()) as int
        } else {
            max_total as int
        },
        forall|k: int|
            0 <= k < old(results)@.len() ==> final(results)@[k] == old(results)@[k],
        forall|k: int|
            old(results)@.len() <= k < final(results)@.len() ==> final(results)@[k] == (
                dir_index,
                matches@[k - old(results)@.len()],
            ),
{
    let n0 = results.len();
    if n0 >= max_total {
        return;
    }
    let ghost orig = matches@;
    let mut rest = matches;
    let mut i: usize = 0;
    while rest.len() > 0 && results.len() < max_total
        invariant
            n0 < max_total,
            n0 == old(results)@.len(),
            rest@ == orig.skip(i as int),
            i <= orig.len(),
            results@.len() == n0 + i,
            n0 + i <= max_total,
            forall|k: int| 0 <= k < n0 ==> results@[k] == old(results)@[k],
            forall|k: int| n0 <= k < results@.len() ==> results@[k] == (dir_index, orig[k - n0]),
        decreases rest.len(),
    {
        let m = rest.remove(0);
        proof {
            assert(m == orig[i as int]);
            assert(rest@ =~= orig.skip(i + 1));
        }
        results.push((dir_index, m));
        i += 1;
    }
}

} // verus!
