//! Cargo registry layout: `{name}-{version}` source directories and
//! `{name}-{version}.crate` cache files, and the outcomes of scanning them.
use vstd::prelude::*;
use crate::text::{
    chars_eq, chars_of, chars_of_string, ends_with, ends_with_chars, has_char, lit, string_of,
    sub_chars, views,
};
use crate::versions::{parse_version, semver_accepts};
use crate::sorted::{contains_seq, insert_sorted, strictly_sorted};

verus! {

/// Summary of a single cache watcher poll cycle.
#[derive(Debug, Default)]
pub struct CacheWatchPollOutcome {
    /// Number of registry subdirs checked.
    pub subdirs_checked: usize,
    /// Number of new `.crate` files detected this cycle.
    pub new_files: usize,
    /// Number of refresh jobs enqueued this cycle.
    pub enqueued: usize,
    /// Number of filenames that could not be parsed.
    pub unparseable: usize,
}

/// Summary of a single registry discovery scan run.
#[derive(Debug, Default)]
pub struct DiscoveryScanOutcome {
    /// Total `{name}-{version}` directories found in the registry.
    pub discovered: usize,
    /// New crate-scope jobs enqueued this run.
    pub enqueued: usize,
    /// Crates already present in the database (skipped).
    pub already_known: usize,
    /// Directory names that could not be parsed as `{name}-{version}`.
    pub unparseable: usize,
}

/// Splitting `s` before index `i` (at the hyphen `s[i - 1]`) gives a crate
/// name without `.` or `+` and a version that `semver` accepts.
pub open spec fn dir_split_ok(s: Seq<char>, i: int) -> bool {
    &&& 1 <= i < s.len()
    &&& s[i - 1] == '-'
    &&& !s.take(i - 1).contains('.')
    &&& !s.take(i - 1).contains('+')
    &&& semver_accepts(s.skip(i))
}

/// What `parse_registry_dir_name` returns: the split at the last hyphen that
/// gives a valid name and version.
pub open spec fn dir_name_parsed(s: Seq<char>, r: Option<(Seq<char>, Seq<char>)>) -> bool {
    match r {
        Some((name, version)) => exists|i: int|
            {
                &&& dir_split_ok(s, i)
                &&& name == s.take(i - 1)
                &&& version == s.skip(i)
                &&& forall|j: int| i < j ==> !dir_split_ok(s, j)
            },
        None => forall|i: int| !dir_split_ok(s, i),
    }
}

/// The split index `parse_registry_dir_name` uses: the last valid one.
pub open spec fn last_dir_split(s: Seq<char>) -> int {
    choose|i: int| dir_split_ok(s, i) && forall|j: int| i < j ==> !dir_split_ok(s, j)
}

/// `parse_registry_dir_name` as a function of the directory name.
pub open spec fn parse_dir_name(s: Seq<char>) -> Option<(Seq<char>, Seq<char>)> {
    if exists|i: int| dir_split_ok(s, i) {
        Some((s.take(last_dir_split(s) - 1), s.skip(last_dir_split(s))))
    } else {
        None
    }
}

/// The relation and the function agree.
pub proof fn lemma_parse_dir_name(s: Seq<char>, r: Option<(Seq<char>, Seq<char>)>)
    requires
        dir_name_parsed(s, r),
    ensures
        r == parse_dir_name(s),
{
    if let Some((a, b)) = r {
        let i = choose|i: int|
            {
                &&& dir_split_ok(s, i)
                &&& a == s.take(i - 1)
                &&& b == s.skip(i)
                &&& forall|j: int| i < j ==> !dir_split_ok(s, j)
            };
        assert(dir_split_ok(s, i) && forall|j: int| i < j ==> !dir_split_ok(s, j));
        let w = last_dir_split(s);
        assert(w == i) by {
            if w < i {
            } else if w > i {
            }
        }
    }
}

/// The views of an optional pair of strings.
pub open spec fn pair_view(r: Option<(String, String)>) -> Option<(Seq<char>, Seq<char>)> {
    match r {
        Some((a, b)) => Some((a@, b@)),
        None => None,
    }
}

/// Parses a cargo registry directory name of the form `{name}-{semver}`.
/// Split points are tried from the right, so crate names may contain hyphens
/// (`serde-derive-1.0.0`); a candidate name holding `.` or `+` means the split
/// landed inside build metadata and is skipped.
pub fn parse_registry_dir_name(dir_name: &str) -> (r: Option<(String, String)>)
    ensures
        dir_name_parsed(dir_name@, pair_view(r)),
        pair_view(r) == parse_dir_name(dir_name@),
{
    let r = parse_dir_name_impl(dir_name);
    proof {
        lemma_parse_dir_name(dir_name@, pair_view(r));
    }
    r
}

fn parse_dir_name_impl(dir_name: &str) -> (r: Option<(String, String)>)
    ensures
        dir_name_parsed(dir_name@, pair_view(r)),
{
    let s = chars_of(dir_name);
    if s.len() == 0 {
        return None;
    }
    let mut i: usize = s.len() - 1;
    while i > 0
        invariant
            s@ == dir_name@,
            i < s.len(),
            forall|j: int| i < j ==> !dir_split_ok(s@, j),
        decreases i,
    {
        if s[i - 1] == '-' {
            let name = sub_chars(&s, 0, i - 1);
            proof {
                assert(name@ =~= s@.take(i - 1));
            }
            if !has_char(&name, '.') && !has_char(&name, '+') {
                let version = sub_chars(&s, i, s.len());
                proof {
                    assert(version@ =~= s@.skip(i as int));
                }
                let version_text = string_of(&version);
                if parse_version(version_text.as_str()).is_some() {
                    let r = Some((string_of(&name), version_text));
                    proof {
                        assert(dir_split_ok(s@, i as int));
                    }
                    return r;
                }
            }
        }
        i -= 1;
    }
    None
}

/// `{name}-{version}.crate`: a cache file name is a registry directory name
/// with the `.crate` suffix.
pub open spec fn crate_filename_parsed(s: Seq<char>, r: Option<(Seq<char>, Seq<char>)>) -> bool {
    if ends_with(s, ".crate"@) {
        dir_name_parsed(s.take(s.len() - 6), r)
    } else {
        r is None
    }
}

/// `parse_crate_filename` as a function of the file name.
pub open spec fn parse_crate_file(s: Seq<char>) -> Option<(Seq<char>, Seq<char>)> {
    if ends_with(s, ".crate"@) {
        parse_dir_name(s.take(s.len() - 6))
    } else {
        None
    }
}

/// Parses a `.crate` file name like `serde-1.0.193.crate` into `(name, version)`.
pub fn parse_crate_filename(filename: &str) -> (r: Option<(String, String)>)
    ensures
        crate_filename_parsed(filename@, pair_view(r)),
        pair_view(r) == parse_crate_file(filename@),
{
    let s = chars_of(filename);
    let suffix = lit(".crate");
    if !ends_with_chars(&s, &suffix) {
        return None;
    }
    proof {
        reveal_strlit(".crate");
    }
    let stem = string_of(&sub_chars(&s, 0, s.len() - 6));
    parse_registry_dir_name(stem.as_str())
}

/// A parsed directory name puts the name, a hyphen and the version back together.
pub proof fn law_dir_name_roundtrip(s: Seq<char>, name: Seq<char>, version: Seq<char>)
    requires
        dir_name_parsed(s, Some((name, version))),
    ensures
        name + seq!['-'] + version == s,
        semver_accepts(version),
        !name.contains('.') && !name.contains('+'),
{
    let i = choose|i: int|
        {
            &&& dir_split_ok(s, i)
            &&& name == s.take(i - 1)
            &&& version == s.skip(i)
            &&& forall|j: int| i < j ==> !dir_split_ok(s, j)
        };
    assert(name + seq!['-'] + version =~= s);
}


/// The views of `(name, version)` pairs.
pub open spec fn pair_views(v: Seq<(String, String)>) -> Seq<(Seq<char>, Seq<char>)> {
    v.map_values(|e: (String, String)| (e.0@, e.1@))
}

/// The versions listed for `name`, in order.
pub open spec fn versions_of(entries: Seq<(Seq<char>, Seq<char>)>, name: Seq<char>) -> Seq<
    Seq<char>,
> {
    entries.filter(|e: (Seq<char>, Seq<char>)| e.0 == name).map_values(
        |e: (Seq<char>, Seq<char>)| e.1,
    )
}

/// Some group is keyed by `k`.
pub open spec fn group_has(groups: Seq<(Seq<char>, Seq<Seq<char>>)>, k: Seq<char>) -> bool {
    exists|i: int| 0 <= i < groups.len() && groups[i].0 == k
}

/// Some entry names `k`.
pub open spec fn entry_has(entries: Seq<(Seq<char>, Seq<char>)>, k: Seq<char>) -> bool {
    exists|j: int| 0 <= j < entries.len() && entries[j].0 == k
}

/// Some key is `k`.
pub open spec fn key_has(keys: Seq<Vec<char>>, k: Seq<char>) -> bool {
    exists|i: int| 0 <= i < keys.len() && keys[i]@ == k
}

/// `groups` holds one entry per distinct crate name of `entries`, with all of
/// that name's versions in order (what a map from name to version list holds).
pub open spec fn grouped(
    entries: Seq<(Seq<char>, Seq<char>)>,
    groups: Seq<(Seq<char>, Seq<Seq<char>>)>,
) -> bool {
    &&& forall|i: int, j: int|
        0 <= i < groups.len() && 0 <= j < groups.len() && i != j ==> groups[i].0 != groups[j].0
    &&& forall|k: Seq<char>|
        #![trigger group_has(groups, k)]
        #![trigger entry_has(entries, k)]
        group_has(groups, k) <==> entry_has(entries, k)
    &&& forall|i: int| 0 <= i < groups.len() ==> groups[i].1 == versions_of(entries, groups[i].0)
}

/// The views of a list of groups.
pub open spec fn group_views(g: Seq<(String, Vec<String>)>) -> Seq<(Seq<char>, Seq<Seq<char>>)> {
    g.map_values(|e: (String, Vec<String>)| (e.0@, crate::text::str_views(e.1@)))
}

/// Groups `(name, version)` pairs by crate name.
pub fn group_by_name(entries: &Vec<(String, String)>) -> (out: Vec<(String, Vec<String>)>)
    ensures
        grouped(pair_views(entries@), group_views(out@)),
{
    let ghost es = pair_views(entries@);
    let mut keys: Vec<Vec<char>> = Vec::new();
    let mut vals: Vec<Vec<Vec<char>>> = Vec::new();
    let mut n: usize = 0;
    while n < entries.len()
        invariant
            n <= entries.len(),
            es == pair_views(entries@),
            keys.len() == vals.len(),
            forall|i: int, j: int|
                0 <= i < keys.len() && 0 <= j < keys.len() && i != j ==> keys@[i]@ != keys@[j]@,
            forall|k: Seq<char>|
                #![trigger key_has(keys@, k)]
                #![trigger entry_has(es.take(n as int), k)]
                key_has(keys@, k) <==> entry_has(es.take(n as int), k),
            forall|i: int|
                0 <= i < keys.len() ==> views(#[trigger] vals@[i]@) == versions_of(
                    es.take(n as int),
                    keys@[i]@,
                ),
        decreases entries.len() - n,
    {
        let name = chars_of_string(&entries[n].0);
        let version = chars_of_string(&entries[n].1);
        let ghost e = es[n as int];
        assert(e == (name@, version@));
        let ghost prefix = es.take(n as int);
        proof {
            assert(es.take(n + 1) =~= prefix.push(e));
        }
        let ghost next = es.take(n + 1);
        let mut j: usize = 0;
        while j < keys.len() && !chars_eq(&keys[j], &name)
            invariant
                j <= keys.len(),
                forall|i: int| 0 <= i < j ==> keys@[i]@ != name@,
            decreases keys.len() - j,
        {
            j += 1;
        }
        if j < keys.len() {
            let ghost old_vals = vals@;
            let mut g = vals[j].clone();
            proof {
                assert(views(g@) == views(old_vals[j as int]@));
            }
            g.push(version);
            vals.set(j, g);
            proof {
                assert forall|i: int| 0 <= i < keys.len() implies views(#[trigger] vals@[i]@)
                    == versions_of(next, keys@[i]@) by {
                    let pred = |x: (Seq<char>, Seq<char>)| x.0 == keys@[i]@;
                    prefix.lemma_filter_push(e, pred);
                    if i == j {
                        assert(views(vals@[i]@) =~= views(old_vals[i]@).push(version@));
                    } else {
                        assert(vals@[i] == old_vals[i]);
                    }
                }
                assert forall|k: Seq<char>| key_has(keys@, k) <==> entry_has(next, k) by {
                    if entry_has(next, k) {
                        let jj = choose|jj: int| 0 <= jj < n + 1 && next[jj].0 == k;
                        if jj == n {
                            assert(keys@[j as int]@ == k);
                        } else {
                            assert(prefix[jj] == next[jj]);
                            assert(entry_has(prefix, k));
                        }
                    }
                    if key_has(keys@, k) {
                        let i = choose|i: int| 0 <= i < keys.len() && keys@[i]@ == k;
                        if entry_has(prefix, k) {
                            let jj = choose|jj: int| 0 <= jj < n && prefix[jj].0 == k;
                            assert(next[jj] == prefix[jj]);
                        }
                    }
                }
            }
        } else {
            let ghost old_vals = vals@;
            let ghost old_keys = keys@;
            let mut g: Vec<Vec<char>> = Vec::new();
            g.push(version);
            keys.push(name);
            vals.push(g);
            proof {
                assert forall|i: int| 0 <= i < keys.len() implies views(#[trigger] vals@[i]@)
                    == versions_of(next, keys@[i]@) by {
                    let pred = |x: (Seq<char>, Seq<char>)| x.0 == keys@[i]@;
                    prefix.lemma_filter_push(e, pred);
                    if i == old_keys.len() {
                        assert forall|jj: int| 0 <= jj < prefix.len() implies !pred(prefix[jj]) by {
                            assert(prefix[jj] == es[jj]);
                            if es[jj].0 == name@ {
                                assert(entry_has(prefix, name@));
                                assert(key_has(old_keys, name@));
                                let ii = choose|ii: int|
                                    0 <= ii < old_keys.len() && old_keys[ii]@ == name@;
                                assert(old_keys[ii]@ != name@);
                            }
                        }
                        prefix.lemma_all_neg_filter_empty(pred);
                        assert(views(vals@[i]@) =~= seq![version@]);
                        assert(prefix.filter(pred).push(e).map_values(
                            |x: (Seq<char>, Seq<char>)| x.1,
                        ) =~= seq![version@]);
                    } else {
                        assert(vals@[i] == old_vals[i]);
                        assert(keys@[i] == old_keys[i]);
                    }
                }
                assert forall|k: Seq<char>| key_has(keys@, k) <==> entry_has(next, k) by {
                    if key_has(keys@, k) {
                        let i = choose|i: int| 0 <= i < keys.len() && keys@[i]@ == k;
                        if i == old_keys.len() {
                            assert(next[n as int].0 == k);
                        } else {
                            assert(keys@[i] == old_keys[i]);
                            assert(key_has(old_keys, k));
                            let jj = choose|jj: int| 0 <= jj < n && prefix[jj].0 == k;
                            assert(next[jj] == prefix[jj]);
                        }
                    }
                    if entry_has(next, k) {
                        let jj = choose|jj: int| 0 <= jj < n + 1 && next[jj].0 == k;
                        if jj == n {
                            assert(keys@[old_keys.len() as int]@ == k);
                        } else {
                            assert(prefix[jj] == next[jj]);
                            assert(entry_has(prefix, k));
                            assert(key_has(old_keys, k));
                            let i = choose|i: int| 0 <= i < old_keys.len() && old_keys[i]@ == k;
                            assert(keys@[i] == old_keys[i]);
                        }
                    }
                }
            }
        }
        n += 1;
    }
    proof {
        assert(es.take(n as int) =~= es);
    }
    let mut out: Vec<(String, Vec<String>)> = Vec::new();
    let mut i: usize = 0;
    while i < keys.len()
        invariant
            i <= keys.len(),
            keys.len() == vals.len(),
            out@.len() == i,
            forall|k: int|
                0 <= k < i ==> (#[trigger] group_views(out@)[k]) == (
                    keys@[k]@,
                    views(vals@[k]@),
                ),
        decreases keys.len() - i,
    {
        let name = string_of(&keys[i]);
        let list = crate::text::chars_to_strings(&vals[i]);
        let ghost before = out@;
        let ghost nv = name@;
        let ghost lv = crate::text::str_views(list@);
        assert(nv == keys@[i as int]@);
        assert(lv == views(vals@[i as int]@));
        out.push((name, list));
        proof {
            assert(group_views(out@)[i as int] == (nv, lv));
            assert forall|k: int| 0 <= k < i + 1 implies (#[trigger] group_views(out@)[k]) == (
                keys@[k]@,
                views(vals@[k]@),
            ) by {
                if k < i {
                    assert(out@[k] == before[k]);
                    assert(group_views(before)[k] == group_views(out@)[k]);
                }
            }
        }
        i += 1;
    }
    proof {
        let gv = group_views(out@);
        assert forall|k: Seq<char>| group_has(gv, k) <==> entry_has(es, k) by {
            if group_has(gv, k) {
                let i = choose|i: int| 0 <= i < gv.len() && gv[i].0 == k;
                assert(keys@[i]@ == k);
                assert(key_has(keys@, k));
            }
            if entry_has(es, k) {
                assert(key_has(keys@, k));
                let i = choose|i: int| 0 <= i < keys.len() && keys@[i]@ == k;
                assert(gv[i].0 == k);
            }
        }
    }
    out
}


/// The views of a list of optional file names (`None`: a name that is not UTF-8).
pub open spec fn opt_views(v: Seq<Option<String>>) -> Seq<Option<Seq<char>>> {
    v.map_values(|o: Option<String>| match o {
        Some(s) => Some(s@),
        None => None,
    })
}

/// The `(name, version)` a cache file name parses to, if any.
pub open spec fn parse_cache_entry(o: Option<Seq<char>>) -> Option<(Seq<char>, Seq<char>)> {
    match o {
        Some(n) => parse_crate_file(n),
        None => None,
    }
}

/// The parsed entries of a list of new cache files, in order.
pub open spec fn cache_entries(files: Seq<Option<String>>) -> Seq<(Seq<char>, Seq<char>)> {
    opt_views(files).filter_map(|o: Option<Seq<char>>| parse_cache_entry(o))
}

/// Counts newly detected `.crate` files, counts the names that do not parse,
/// and groups the parsed versions by crate name (one refresh job per crate).
pub fn group_new_crate_files(
    new_files: &[Option<String>],
    outcome: &mut CacheWatchPollOutcome,
) -> (groups: Vec<(String, Vec<String>)>)
    requires
        old(outcome).new_files + new_files@.len() <= usize::MAX,
        old(outcome).unparseable + new_files@.len() <= usize::MAX,
    ensures
        final(outcome).new_files == old(outcome).new_files + new_files@.len(),
        final(outcome).unparseable == old(outcome).unparseable + new_files@.len() - cache_entries(
            new_files@,
        ).len(),
        final(outcome).subdirs_checked == old(outcome).subdirs_checked,
        final(outcome).enqueued == old(outcome).enqueued,
        grouped(cache_entries(new_files@), group_views(groups@)),
{
    let ghost f = |o: Option<Seq<char>>| parse_cache_entry(o);
    let ghost ov = opt_views(new_files@);
    let mut entries: Vec<(String, String)> = Vec::new();
    let mut i: usize = 0;
    while i < new_files.len()
        invariant
            i <= new_files.len(),
            ov == opt_views(new_files@),
            f == (|o: Option<Seq<char>>| parse_cache_entry(o)),
            pair_views(entries@) == ov.take(i as int).filter_map(f),
            entries@.len() <= i,
            outcome.new_files == old(outcome).new_files + i,
            outcome.unparseable == old(outcome).unparseable + i - entries@.len(),
            outcome.subdirs_checked == old(outcome).subdirs_checked,
            outcome.enqueued == old(outcome).enqueued,
            old(outcome).new_files + new_files@.len() <= usize::MAX,
            old(outcome).unparseable + new_files@.len() <= usize::MAX,
        decreases new_files.len() - i,
    {
        proof {
            ov.lemma_filter_map_take_succ(f, i as int);
        }
        outcome.new_files += 1;
        match &new_files[i] {
            Some(name) => {
                match parse_crate_filename(name.as_str()) {
                    Some(pair) => {
                        proof {
                            assert(ov[i as int] == Some(name@));
                            assert(pair_views(entries@.push(pair)) =~= pair_views(entries@).push(
                                (pair.0@, pair.1@),
                            ));
                        }
                        entries.push(pair);
                    },
                    None => {
                        proof {
                            assert(ov[i as int] == Some(name@));
                        }
                        outcome.unparseable += 1;
                    },
                }
            },
            None => {
                proof {
                    assert(ov[i as int] == None::<Seq<char>>);
                }
                outcome.unparseable += 1;
            },
        }
        i += 1;
    }
    proof {
        assert(ov.take(new_files@.len() as int) =~= ov);
    }
    group_by_name(&entries)
}

/// The parsed entries of a list of registry directory names, in order.
pub open spec fn dir_entries(names: Seq<String>) -> Seq<(Seq<char>, Seq<char>)> {
    crate::text::str_views(names).filter_map(|n: Seq<char>| parse_dir_name(n))
}

/// Counts the `{name}-{version}` directories of a registry walk, counts the
/// names that do not parse, and maps each crate name to its local versions.
pub fn collect_crate_versions(
    dir_names: &[String],
    outcome: &mut DiscoveryScanOutcome,
) -> (groups: Vec<(String, Vec<String>)>)
    requires
        old(outcome).discovered + dir_names@.len() <= usize::MAX,
        old(outcome).unparseable + dir_names@.len() <= usize::MAX,
    ensures
        final(outcome).discovered == old(outcome).discovered + dir_names@.len(),
        final(outcome).unparseable == old(outcome).unparseable + dir_names@.len() - dir_entries(
            dir_names@,
        ).len(),
        final(outcome).enqueued == old(outcome).enqueued,
        final(outcome).already_known == old(outcome).already_known,
        grouped(dir_entries(dir_names@), group_views(groups@)),
{
    let ghost f = |n: Seq<char>| parse_dir_name(n);
    let ghost nv = crate::text::str_views(dir_names@);
    let mut entries: Vec<(String, String)> = Vec::new();
    let mut i: usize = 0;
    while i < dir_names.len()
        invariant
            i <= dir_names.len(),
            nv == crate::text::str_views(dir_names@),
            f == (|n: Seq<char>| parse_dir_name(n)),
            pair_views(entries@) == nv.take(i as int).filter_map(f),
            entries@.len() <= i,
            outcome.discovered == old(outcome).discovered + i,
            outcome.unparseable == old(outcome).unparseable + i - entries@.len(),
            outcome.enqueued == old(outcome).enqueued,
            outcome.already_known == old(outcome).already_known,
            old(outcome).discovered + dir_names@.len() <= usize::MAX,
            old(outcome).unparseable + dir_names@.len() <= usize::MAX,
        decreases dir_names.len() - i,
    {
        proof {
            nv.lemma_filter_map_take_succ(f, i as int);
        }
        outcome.discovered += 1;
        match parse_registry_dir_name(dir_names[i].as_str()) {
            Some(pair) => {
                proof {
                    assert(pair_views(entries@.push(pair)) =~= pair_views(entries@).push(
                        (pair.0@, pair.1@),
                    ));
                }
                entries.push(pair);
            },
            None => {
                outcome.unparseable += 1;
            },
        }
        i += 1;
    }
    proof {
        assert(nv.take(dir_names@.len() as int) =~= nv);
    }
    group_by_name(&entries)
}

/// The locally present versions of one crate among registry directory names.
pub fn local_versions_for_crate(dir_names: &[String], crate_name: &str) -> (versions: Vec<String>)
    ensures
        crate::text::str_views(versions@) == versions_of(dir_entries(dir_names@), crate_name@),
{
    let ghost f = |n: Seq<char>| parse_dir_name(n);
    let ghost nv = crate::text::str_views(dir_names@);
    let ghost pred = |e: (Seq<char>, Seq<char>)| e.0 == crate_name@;
    let target = chars_of(crate_name);
    let mut versions: Vec<String> = Vec::new();
    let mut i: usize = 0;
    while i < dir_names.len()
        invariant
            i <= dir_names.len(),
            nv == crate::text::str_views(dir_names@),
            f == (|n: Seq<char>| parse_dir_name(n)),
            pred == (|e: (Seq<char>, Seq<char>)| e.0 == crate_name@),
            target@ == crate_name@,
            crate::text::str_views(versions@) == nv.take(i as int).filter_map(f).filter(
                pred,
            ).map_values(|e: (Seq<char>, Seq<char>)| e.1),
        decreases dir_names.len() - i,
    {
        proof {
            nv.lemma_filter_map_take_succ(f, i as int);
        }
        let ghost before = nv.take(i as int).filter_map(f);
        match parse_registry_dir_name(dir_names[i].as_str()) {
            Some(pair) => {
                let ghost e = (pair.0@, pair.1@);
                proof {
                    assert(nv.take(i + 1).filter_map(f) =~= before.push(e));
                    before.lemma_filter_push(e, pred);
                }
                if chars_eq(&chars_of_string(&pair.0), &target) {
                    let ghost vb = versions@;
                    versions.push(pair.1);
                    proof {
                        assert(crate::text::str_views(versions@) =~= crate::text::str_views(
                            vb,
                        ).push(e.1));
                    }
                }
            },
            None => {
                proof {
                    assert(nv.take(i + 1).filter_map(f) =~= before);
                }
            },
        }
        i += 1;
    }
    proof {
        assert(nv.take(dir_names@.len() as int) =~= nv);
    }
    versions
}

/// The `.crate` files of a registry directory that were not there at the
/// last look: its current files less the known ones, distinct and sorted.
pub fn newly_seen_files(current: &[String], known: &[String]) -> (out: Vec<String>)
    ensures
        strictly_sorted(crate::text::str_views(out@)),
        crate::text::str_views(out@).to_set() == crate::text::str_views(current@).to_set().difference(
            crate::text::str_views(known@).to_set(),
        ),
{
    let cur = crate::text::strings_to_chars(current);
    let kn = crate::text::strings_to_chars(known);
    let ghost ks = views(kn@).to_set();
    let mut set: Vec<Vec<char>> = Vec::new();
    let mut i: usize = 0;
    while i < cur.len()
        invariant
            i <= cur.len(),
            views(cur@) == crate::text::str_views(current@),
            views(kn@) == crate::text::str_views(known@),
            ks == views(kn@).to_set(),
            strictly_sorted(views(set@)),
            views(set@).to_set() == views(cur@).take(i as int).to_set().difference(ks),
        decreases cur.len() - i,
    {
        let x = cur[i].clone();
        proof {
            assert(views(cur@).take(i + 1) =~= views(cur@).take(i as int).push(x@));
            views(cur@).take(i as int).lemma_push_to_set_commute(x@);
        }
        if !contains_seq(&kn, &x) {
            insert_sorted(&mut set, x);
            proof {
                assert(views(set@).to_set() =~= views(cur@).take(i + 1).to_set().difference(ks));
            }
        } else {
            proof {
                assert(views(set@).to_set() =~= views(cur@).take(i + 1).to_set().difference(ks));
            }
        }
        i += 1;
    }
    proof {
        assert(views(cur@).take(cur@.len() as int) =~= views(cur@));
    }
    crate::text::chars_to_strings(&set)
}

/// The lower-case form of a text as `str::to_lowercase` computes it
/// (full Unicode case mapping).
pub uninterp spec fn unicode_lowercase(s: Seq<char>) -> Seq<char>;

/// `str::to_lowercase`; its Unicode case mapping is not stated further.
#[verifier::external_body]
fn to_lowercase(s: &str) -> (r: String)
    ensures
        r@ == unicode_lowercase(s@),
{
    s.to_lowercase()
}

/// The pre-warm crate names of a comma-separated list: each piece trimmed,
/// empty ones dropped, the rest lower-cased.
pub open spec fn pre_warm_names(pieces: Seq<Seq<char>>) -> Seq<Seq<char>>
    decreases pieces.len(),
{
    if pieces.len() == 0 {
        seq![]
    } else if crate::text::trim(pieces.last()).len() == 0 {
        pre_warm_names(pieces.drop_last())
    } else {
        pre_warm_names(pieces.drop_last()).push(unicode_lowercase(crate::text::trim(pieces.last())))
    }
}

/// Parses the configured pre-warm list (`a, b,,c`).
pub fn parse_pre_warm_list(list: &str) -> (out: Vec<String>)
    ensures
        crate::text::str_views(out@) == pre_warm_names(crate::text::split(list@, ","@)),
{
    let sep = lit(",");
    proof {
        reveal_strlit(",");
    }
    let pieces = crate::text::split_chars(&chars_of(list), &sep);
    let ghost pv = views(pieces@);
    let mut out: Vec<String> = Vec::new();
    let mut i: usize = 0;
    while i < pieces.len()
        invariant
            i <= pieces.len(),
            pv == views(pieces@),
            crate::text::str_views(out@) == pre_warm_names(pv.take(i as int)),
        decreases pieces.len() - i,
    {
        let t = crate::text::trim_chars(&pieces[i]);
        proof {
            assert(pv.take(i + 1).drop_last() =~= pv.take(i as int));
            assert(pv.take(i + 1).last() == pieces@[i as int]@);
        }
        if t.len() > 0 {
            let lowered = to_lowercase(string_of(&t).as_str());
            let ghost before = out@;
            out.push(lowered);
            proof {
                assert(crate::text::str_views(out@) =~= crate::text::str_views(before).push(lowered@));
            }
        }
        i += 1;
    }
    proof {
        assert(pv.take(pv.len() as int) =~= pv);
    }
    out
}

/// The indices of the discovered crates that the index does not know yet,
/// in order.
pub open spec fn unknown_indices(names: Seq<Seq<char>>, known: Seq<Seq<char>>) -> Seq<int>
    decreases names.len(),
{
    if names.len() == 0 {
        seq![]
    } else if known.contains(names.last()) {
        unknown_indices(names.drop_last(), known)
    } else {
        unknown_indices(names.drop_last(), known).push(names.len() - 1)
    }
}

/// What a discovery scan enqueues: the unknown crates, the first
/// `batch_limit` of them when the limit is not 0; and how many discovered

impl DiscoveryScanOutcome {
    /// Counts the result of enqueueing one crate job: only a job that was
    /// enqueued counts; a failed enqueue changes nothing.
    pub fn record_enqueue(&mut self, enqueued: bool)
        requires
            old(self).enqueued < usize::MAX,
        ensures
            final(self).enqueued == old(self).enqueued + (if enqueued { 1int } else { 0 }),
            final(self).discovered == old(self).discovered,
            final(self).already_known == old(self).already_known,
            final(self).unparseable == old(self).unparseable,
    {
        if enqueued {
            self.enqueued = self.enqueued + 1;
        }
    }
}

impl CacheWatchPollOutcome {
    /// Counts the result of enqueueing one crate job: only a job that was
    /// enqueued counts; a failed enqueue changes nothing.
    pub fn record_enqueue(&mut self, enqueued: bool)
        requires
            old(self).enqueued < usize::MAX,
        ensures
            final(self).enqueued == old(self).enqueued + (if enqueued { 1int } else { 0 }),
            final(self).subdirs_checked == old(self).subdirs_checked,
            final(self).new_files == old(self).new_files,
            final(self).unparseable == old(self).unparseable,
    {
        if enqueued {
            self.enqueued = self.enqueued + 1;
        }
    }
}

/// crates were already known.
pub fn discovery_plan(names: &[String], known: &[String], batch_limit: usize) -> (r: (Vec<usize>, usize))
    ensures
        ({
            let unknown = unknown_indices(crate::text::str_views(names@), crate::text::str_views(known@));
            &&& r.0@.len() == if batch_limit > 0 && batch_limit < unknown.len() {
                batch_limit as int
            } else {
                unknown.len() as int
            }
            &&& forall|k: int| 0 <= k < r.0@.len() ==> r.0@[k] == unknown[k]
            &&& r.1 == names@.len() - unknown.len()
        }),
{
    let nv = crate::text::strings_to_chars(names);
    let kv = crate::text::strings_to_chars(known);
    let ghost unknown_all = unknown_indices(crate::text::str_views(names@), crate::text::str_views(known@));
    let mut unknown: Vec<usize> = Vec::new();
    let mut i: usize = 0;
    while i < nv.len()
        invariant
            i <= nv.len(),
            views(nv@) == crate::text::str_views(names@),
            views(kv@) == crate::text::str_views(known@),
            unknown@.len() <= i,
            forall|k: int| 0 <= k < unknown@.len() ==> unknown@[k] as int == unknown_indices(
                views(nv@).take(i as int),
                views(kv@),
            )[k],
            unknown@.len() == unknown_indices(views(nv@).take(i as int), views(kv@)).len(),
        decreases nv.len() - i,
    {
        proof {
            assert(views(nv@).take(i + 1).drop_last() =~= views(nv@).take(i as int));
            assert(views(nv@).take(i + 1).last() == nv@[i as int]@);
        }
        if !contains_seq(&kv, &nv[i]) {
            unknown.push(i);
        }
        i += 1;
    }
    proof {
        assert(views(nv@).take(nv@.len() as int) =~= views(nv@));
    }
    let already_known = names.len() - unknown.len();
    let n = if batch_limit > 0 && batch_limit < unknown.len() {
        batch_limit
    } else {
        unknown.len()
    };
    let mut out: Vec<usize> = Vec::new();
    let mut k: usize = 0;
    while k < n
        invariant
            k <= n <= unknown@.len(),
            out@.len() == k,
            forall|j: int| 0 <= j < k ==> out@[j] == unknown@[j],
        decreases n - k,
    {
        out.push(unknown[k]);
        k += 1;
    }
    (out, already_known)
}

} // verus!
