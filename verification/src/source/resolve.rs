//! Resolving a package reference: where fetched checkouts are cached, and
//! which submodules a checkout's `.gitmodules` names.
use vstd::prelude::*;
use crate::keyed::{entries_map, find_key, insert_entry, keys_unique, lemma_absent, lemma_value_at};
use crate::manifest::Manifest;
use crate::source::SourceError;
use crate::source::version::ResolvedVersion;
use crate::text::{
    chars_of, find, find_char_exec, lemma_find_bounds, path_join, path_join_exec, slice, split_char, split_char_exec,
    starts_with, starts_with_exec, string_of, trim_start_ws, trim_start_ws_exec, trim_ws, trim_ws_exec,
    vec_eq, words, words_exec,
};

verus! {

/// The outcome of resolving a package: its manifest, the checkout it came
/// from, the manifest's directory, and the version that was resolved.
#[derive(Debug)]
pub struct CloneResult {
    pub manifest: Manifest,
    pub dir: String,
    pub manifest_dir: String,
    pub resolved: ResolvedVersion,
}

/// `directories::BaseDirs::new()`, then `cache_dir()` as a string; none when
/// no home directory can be found. The directory depends on the platform
/// and the environment, so nothing is stated of it.
#[verifier::external_body]
pub(crate) fn user_cache_dir() -> (r: Option<String>)
{
    match directories::BaseDirs::new() {
        Some(b) => Some(b.cache_dir().to_string_lossy().into_owned()),
        None => None,
    }
}

/// The repository cache under a user cache directory.
pub open spec fn repos_dir(base: Seq<char>) -> Seq<char> {
    path_join(path_join(base, "edgetx-cli"@), "repos"@)
}

/// The repository cache under the user cache directory `base`.
pub fn repos_dir_under(base: &str) -> (r: String)
    ensures
        r@ == repos_dir(base@),
{
    path_join_exec(path_join_exec(base, "edgetx-cli").as_str(), "repos")
}

/// The repository cache of this user: `edgetx-cli/repos` under the user's
/// cache directory, or an error when there is none.
pub fn cache_dir() -> (r: Result<String, SourceError>)
    ensures
        match r {
            Ok(p) => exists|base: Seq<char>| p@ == #[trigger] repos_dir(base),
            Err(e) => e matches SourceError::Other(m) && m@ == "cannot determine cache directory"@,
        },
{
    match user_cache_dir() {
        Some(base) => Ok(repos_dir_under(base.as_str())),
        None => Err(SourceError::Other("cannot determine cache directory".to_owned())),
    }
}

/// A line without the `\r` of a `\r\n` ending.
pub open spec fn strip_cr(l: Seq<char>) -> Seq<char> {
    if l.len() > 0 && l.last() == '\r' { l.drop_last() } else { l }
}

/// `str::lines`: the text split at each `\n`, a `\r` before it dropped;
/// a final empty piece (text ending in `\n`, or empty text) is no line.
pub open spec fn text_lines(s: Seq<char>) -> Seq<Seq<char>> {
    let parts = split_char(s, '\n');
    let n: int = if parts.len() > 0 && parts.last().len() == 0 { parts.len() - 1 } else { parts.len() as int };
    Seq::new(n as nat, |i: int| if i < parts.len() - 1 { strip_cr(parts[i]) } else { parts[i] })
}

/// The value of a `key = value` line: the key at the start, then optional
/// white space, `=`, and the value with surrounding white space dropped.
pub open spec fn setting(line: Seq<char>, key: Seq<char>) -> Option<Seq<char>> {
    if starts_with(line, key) {
        let rest = trim_start_ws(line.skip(key.len() as int));
        if rest.len() > 0 && rest[0] == '=' { Some(trim_ws(rest.skip(1))) } else { None }
    } else {
        None
    }
}

/// The map with the section just read added, when it gave both a path and
/// a URL.
pub open spec fn flush(m: Map<Seq<char>, Seq<char>>, path: Option<Seq<char>>, url: Option<Seq<char>>) -> Map<Seq<char>, Seq<char>> {
    match (path, url) {
        (Some(p), Some(u)) => m.insert(p, u),
        _ => m,
    }
}

/// One line of `.gitmodules`: a `[` line closes the current section; a
/// `path` or `url` setting is remembered for it; anything else is skipped.
pub open spec fn gitmodules_step(
    st: (Map<Seq<char>, Seq<char>>, Option<Seq<char>>, Option<Seq<char>>),
    raw: Seq<char>,
) -> (Map<Seq<char>, Seq<char>>, Option<Seq<char>>, Option<Seq<char>>) {
    let t = trim_ws(raw);
    if t.len() > 0 && t[0] == '[' {
        (flush(st.0, st.1, st.2), None, None)
    } else if setting(t, "path"@) is Some {
        (st.0, setting(t, "path"@), st.2)
    } else if setting(t, "url"@) is Some {
        (st.0, st.1, setting(t, "url"@))
    } else {
        st
    }
}

/// The state after reading `lines`.
pub open spec fn gitmodules_fold(lines: Seq<Seq<char>>) -> (Map<Seq<char>, Seq<char>>, Option<Seq<char>>, Option<Seq<char>>)
    decreases lines.len(),
{
    if lines.len() == 0 {
        (Map::empty(), None, None)
    } else {
        gitmodules_step(gitmodules_fold(lines.drop_last()), lines.last())
    }
}

/// The submodules of a `.gitmodules` text: each section's path mapped to
/// its URL; a section without both is left out, and a later section for
/// the same path wins.
pub open spec fn spec_parse_gitmodules(content: Seq<char>) -> Map<Seq<char>, Seq<char>> {
    let st = gitmodules_fold(text_lines(content));
    flush(st.0, st.1, st.2)
}

/// The lines of a text, as `str::lines` gives them.
pub fn text_lines_exec(content: &str) -> (r: Vec<Vec<char>>)
    ensures
        r@.map_values(|v: Vec<char>| v@) == text_lines(content@),
{
    let parts = split_char_exec(&chars_of(content), '\n');
    let ghost pv = parts@.map_values(|v: Vec<char>| v@);
    let ghost lines = text_lines(content@);
    let n: usize = if parts.len() > 0 && parts[parts.len() - 1].len() == 0 { parts.len() - 1 } else { parts.len() };
    proof {
        assert(pv == split_char(content@, '\n'));
        assert(lines.len() == n);
    }
    let mut out: Vec<Vec<char>> = Vec::new();
    let mut i: usize = 0;
    while i < n
        invariant
            i <= n,
            n <= parts.len(),
            pv == parts@.map_values(|v: Vec<char>| v@),
            lines == text_lines(content@),
            lines.len() == n,
            pv == split_char(content@, '\n'),
            out@.map_values(|v: Vec<char>| v@) == lines.take(i as int),
        decreases n - i,
    {
        let line: Vec<char> = if i + 1 < parts.len() && parts[i].len() > 0 && parts[i][parts[i].len() - 1] == '\r' {
            slice(&parts[i], 0, parts[i].len() - 1)
        } else {
            slice(&parts[i], 0, parts[i].len())
        };
        proof {
            assert(pv[i as int] == parts@[i as int]@);
            assert(line@ == lines[i as int]);
        }
        let ghost before = out@;
        out.push(line);
        proof {
            assert(out@.map_values(|v: Vec<char>| v@) =~= before.map_values(|v: Vec<char>| v@).push(lines[i as int]));
            assert(lines.take(i + 1) =~= lines.take(i as int).push(lines[i as int]));
        }
        i += 1;
    }
    proof {
        assert(lines.take(n as int) == lines);
    }
    out
}

/// The value of `key = value` in a trimmed line.
fn setting_exec(line: &Vec<char>, key: &str) -> (r: Option<Vec<char>>)
    ensures
        match r {
            Some(v) => setting(line@, key@) == Some(v@),
            None => setting(line@, key@) is None,
        },
{
    let k = chars_of(key);
    if !starts_with_exec(line, &k) {
        return None;
    }
    let tail = slice(line, k.len(), line.len());
    assert(tail@ == line@.skip(key@.len() as int));
    let rest = trim_start_ws_exec(&tail);
    if rest.len() > 0 && rest[0] == '=' {
        let v = slice(&rest, 1, rest.len());
        assert(v@ == rest@.skip(1));
        Some(trim_ws_exec(&v))
    } else {
        None
    }
}

/// The view of an optional string.
pub open spec fn opt_view(o: Option<String>) -> Option<Seq<char>> {
    match o {
        Some(s) => Some(s@),
        None => None,
    }
}

/// The pairs added to `entries` when a section closes.
fn flush_exec(entries: &mut Vec<(String, String)>, path: Option<String>, url: Option<String>)
    requires
        keys_unique(old(entries)@),
    ensures
        keys_unique(final(entries)@),
        entries_map(final(entries)@) == flush(entries_map(old(entries)@), opt_view(path), opt_view(url)),
{
    match (path, url) {
        (Some(p), Some(u)) => insert_entry(entries, p, u),
        _ => {},
    }
}

/// Parses a `.gitmodules` text into pairs of submodule path and URL, each
/// path once.
pub fn parse_gitmodules(content: &str) -> (r: Vec<(String, String)>)
    ensures
        keys_unique(r@),
        entries_map(r@) == spec_parse_gitmodules(content@),
{
    let all = text_lines_exec(content);
    let ghost lines = text_lines(content@);
    let n = all.len();
    let mut entries: Vec<(String, String)> = Vec::new();
    let mut cur_path: Option<String> = None;
    let mut cur_url: Option<String> = None;
    proof {
        assert(entries_map(entries@) =~= Map::<Seq<char>, Seq<char>>::empty());
        assert(lines.take(0) =~= Seq::<Seq<char>>::empty());
    }
    let mut i: usize = 0;
    while i < n
        invariant
            i <= n,
            n == all.len(),
            all@.map_values(|v: Vec<char>| v@) == lines,
            lines == text_lines(content@),
            keys_unique(entries@),
            (entries_map(entries@), opt_view(cur_path), opt_view(cur_url)) == gitmodules_fold(lines.take(i as int)),
        decreases n - i,
    {
        let line = &all[i];
        proof {
            assert(line@ == lines[i as int]);
            assert(lines.take(i + 1).drop_last() == lines.take(i as int));
            assert(lines.take(i + 1).last() == lines[i as int]);
        }
        let t = trim_ws_exec(line);
        if t.len() > 0 && t[0] == '[' {
            let p = cur_path;
            let u = cur_url;
            cur_path = None;
            cur_url = None;
            flush_exec(&mut entries, p, u);
        } else {
            match setting_exec(&t, "path") {
                Some(v) => {
                    cur_path = Some(string_of(&v));
                }
                None => {
                    match setting_exec(&t, "url") {
                        Some(v) => {
                            cur_url = Some(string_of(&v));
                        }
                        None => {}
                    }
                }
            }
        }
        i += 1;
    }
    proof {
        assert(lines.take(n as int) == lines);
    }
    flush_exec(&mut entries, cur_path, cur_url);
    entries
}

/// The revision that names a resolved version in a fetched repository: a
/// tag under `refs/tags/`, a branch under `refs/remotes/origin/`, anything
/// else (a commit) as it is.
pub open spec fn spec_ref_spec(name: Seq<char>, channel: Seq<char>) -> Seq<char> {
    if channel == "tag"@ {
        "refs/tags/"@ + name
    } else if channel == "branch"@ {
        "refs/remotes/origin/"@ + name
    } else {
        name
    }
}

/// The revision that names a resolved version.
pub fn ref_spec(name: &str, channel: &str) -> (r: String)
    ensures
        r@ == spec_ref_spec(name@, channel@),
{
    if crate::text::str_eq(channel, "tag") {
        crate::text::concat("refs/tags/", name)
    } else if crate::text::str_eq(channel, "branch") {
        crate::text::concat("refs/remotes/origin/", name)
    } else {
        name.to_owned()
    }
}

/// A fetched branch's name: its short reference name without the leading
/// `origin/`.
pub open spec fn spec_branch_name(short: Seq<char>) -> Seq<char> {
    if starts_with(short, "origin/"@) { short.skip(7) } else { short }
}

/// A fetched branch's name.
pub fn branch_name(short: &str) -> (r: String)
    ensures
        r@ == spec_branch_name(short@),
{
    let v = chars_of(short);
    proof {
        reveal_strlit("origin/");
    }
    if starts_with_exec(&v, &chars_of("origin/")) {
        string_of(&slice(&v, 7, v.len()))
    } else {
        string_of(&v)
    }
}

/// A line of a tree listing split at its first tab: the part before and
/// the part after (empty when there is no tab).
pub open spec fn tab_split(line: Seq<char>) -> (Seq<char>, Seq<char>) {
    match find(line, seq!['\t']) {
        Some(i) => (line.take(i), line.skip(i + 1)),
        None => (line, Seq::empty()),
    }
}

/// The submodule a line of a recursive tree listing (mode, type and object
/// separated by white space, a tab, the path) records: where the mode is
/// `160000` (a commit in the tree), the path and the commit.
pub open spec fn gitlink_of(line: Seq<char>) -> Option<(Seq<char>, Seq<char>)> {
    let f = words(tab_split(line).0);
    if f.len() == 3 && f[0] == "160000"@ {
        Some((tab_split(line).1, f[2]))
    } else {
        None
    }
}

/// The submodules recorded in a list of tree lines, in order.
pub open spec fn gitlinks(lines: Seq<Seq<char>>) -> Seq<(Seq<char>, Seq<char>)>
    decreases lines.len(),
{
    if lines.len() == 0 {
        Seq::empty()
    } else {
        match gitlink_of(lines.last()) {
            Some(e) => gitlinks(lines.drop_last()).push(e),
            None => gitlinks(lines.drop_last()),
        }
    }
}

fn gitlink_exec(line: &Vec<char>) -> (r: Option<(String, String)>)
    ensures
        match r {
            Some(e) => gitlink_of(line@) == Some((e.0@, e.1@)),
            None => gitlink_of(line@) is None,
        },
{
    proof {
        lemma_find_bounds(line@, seq!['\t']);
    }
    let (meta, path) = match find_char_exec(line, '\t') {
        Some(i) => (slice(line, 0, i), slice(line, i + 1, line.len())),
        None => (slice(line, 0, line.len()), Vec::new()),
    };
    assert(meta@ == tab_split(line@).0);
    assert(path@ == tab_split(line@).1);
    let f = words_exec(&meta);
    let ghost fv = f@.map_values(|v: Vec<char>| v@);
    assert(fv == words(tab_split(line@).0));
    proof {
        reveal_strlit("160000");
    }
    if f.len() == 3 && vec_eq(&f[0], &chars_of("160000")) {
        assert(fv[0] == f@[0]@ && fv[2] == f@[2]@);
        Some((string_of(&path), string_of(&f[2])))
    } else {
        proof {
            if f.len() == 3 {
                assert(fv[0] == f@[0]@);
            }
        }
        None
    }
}

/// The submodules a recursive tree listing records, each with its path and
/// commit, in listing order.
pub fn gitlink_entries(listing: &str) -> (r: Vec<(String, String)>)
    ensures
        r@.map_values(|e: (String, String)| (e.0@, e.1@)) == gitlinks(text_lines(listing@)),
{
    let all = text_lines_exec(listing);
    let ghost lines = text_lines(listing@);
    let mut out: Vec<(String, String)> = Vec::new();
    let mut i: usize = 0;
    while i < all.len()
        invariant
            i <= all.len(),
            all@.map_values(|v: Vec<char>| v@) == lines,
            out@.map_values(|e: (String, String)| (e.0@, e.1@)) == gitlinks(lines.take(i as int)),
        decreases all.len() - i,
    {
        proof {
            assert(all@[i as int]@ == lines[i as int]);
            assert(lines.take(i + 1).drop_last() == lines.take(i as int));
            assert(lines.take(i + 1).last() == lines[i as int]);
        }
        let ghost before = out@;
        match gitlink_exec(&all[i]) {
            Some(e) => {
                out.push(e);
                assert(out@.map_values(|e: (String, String)| (e.0@, e.1@)) =~= before.map_values(
                    |e: (String, String)| (e.0@, e.1@),
                ).push((e.0@, e.1@)));
            },
            None => {},
        }
        i += 1;
    }
    assert(lines.take(all.len() as int) == lines);
    out
}

/// What becomes of a submodule (path and commit) given the submodule URLs
/// of `.gitmodules`: fetched from the URL its path maps to, with the path
/// and commit (`Ok`), or skipped for want of one (`Err` with the path).
pub open spec fn submodule_step(
    sub: (Seq<char>, Seq<char>),
    urls: Map<Seq<char>, Seq<char>>,
) -> Result<(Seq<char>, Seq<char>, Seq<char>), Seq<char>> {
    if urls.dom().contains(sub.0) {
        Ok((sub.0, sub.1, urls[sub.0]))
    } else {
        Err(sub.0)
    }
}

/// The model of a planned submodule fetch.
pub open spec fn fetch_view(r: Result<(String, String, String), String>) -> Result<(Seq<char>, Seq<char>, Seq<char>), Seq<char>> {
    match r {
        Ok(t) => Ok((t.0@, t.1@, t.2@)),
        Err(p) => Err(p@),
    }
}

/// Plans the fetch of a checkout's submodules, in order.
pub fn plan_submodules(
    submodules: &Vec<(String, String)>,
    urls: &Vec<(String, String)>,
) -> (r: Vec<Result<(String, String, String), String>>)
    requires
        keys_unique(urls@),
    ensures
        r@.len() == submodules@.len(),
        forall|i: int|
            0 <= i < r@.len() ==> fetch_view(#[trigger] r@[i]) == submodule_step(
                (submodules@[i].0@, submodules@[i].1@),
                entries_map(urls@),
            ),
{
    let mut out: Vec<Result<(String, String, String), String>> = Vec::new();
    let mut i: usize = 0;
    while i < submodules.len()
        invariant
            i <= submodules.len(),
            keys_unique(urls@),
            out@.len() == i,
            forall|k: int|
                0 <= k < i ==> fetch_view(#[trigger] out@[k]) == submodule_step(
                    (submodules@[k].0@, submodules@[k].1@),
                    entries_map(urls@),
                ),
        decreases submodules.len() - i,
    {
        let (path, hash) = (&submodules[i].0, &submodules[i].1);
        match find_key(urls, path.as_str()) {
            Some(k) => {
                proof {
                    lemma_value_at(urls@, k as int);
                }
                out.push(Ok((path.clone(), hash.clone(), urls[k].1.clone())));
            },
            None => {
                proof {
                    lemma_absent(urls@, path@);
                }
                out.push(Err(path.clone()));
            },
        }
        i += 1;
    }
    out
}

} // verus!
