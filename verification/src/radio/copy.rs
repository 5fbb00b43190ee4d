//! Which files a copy to the SD card leaves out.
use vstd::prelude::*;
use crate::text::{chars_of, slice, split_char, split_char_exec, string_of, vec_eq};

verus! {

/// Errors of copying files to the SD card.
#[derive(Debug)]
pub enum CopyError {
    Io { context: String, message: String },
    RelativePath(String),
}

/// How a copy runs: for real or as a dry run, and which file names it skips.
pub struct CopyOptions<'a> {
    pub dry_run: bool,
    pub exclude: &'a [String],
}

/// The patterns every copy leaves out: compiled Lua bytecode.
pub open spec fn spec_default_exclude() -> Seq<Seq<char>> {
    seq!["*.luac"@]
}

/// The patterns every copy leaves out.
pub fn default_exclude() -> (r: Vec<String>)
    ensures
        r@.map_values(|s: String| s@) == spec_default_exclude(),
{
    let mut v: Vec<String> = Vec::new();
    v.push("*.luac".to_owned());
    assert(v@.map_values(|s: String| s@) =~= spec_default_exclude());
    v
}

/// Whether a `globset` glob set built from `pattern` alone matches `name`;
/// a pattern that does not build (a syntax error, or a regex past
/// `regex`'s size or nesting limits) matches nothing. `globset` reads
/// backslashes and path separators differently on Unix and on Windows, so
/// this is a function of its arguments within one build target: the same
/// pattern and name may match on one platform and not on the other.
pub uninterp spec fn glob_matches(pattern: Seq<char>, name: Seq<char>) -> bool;

/// The longest pattern, in characters, that a match is tried with.
/// `GlobSetBuilder::build` unwraps the build of an `aho-corasick` automaton
/// over a pattern's literal part, which fails only past 2^31 states; a
/// pattern of at most this many characters (at most four bytes each) stays
/// far below that.
pub const GLOB_PATTERN_LIMIT: usize = 0x0100_0000;

/// Every pattern is short enough to be matched.
pub open spec fn patterns_fit(patterns: Seq<Seq<char>>) -> bool {
    forall|i: int| 0 <= i < patterns.len() ==> #[trigger] patterns[i].len() <= GLOB_PATTERN_LIMIT
}

/// `globset::Glob::new(pattern)`, added alone to a `GlobSetBuilder`, then
/// `build()` and `is_match(name)`; `false` when either step returns an
/// error. Both steps return their errors rather than panic, for a pattern
/// within the limit.
#[verifier::external_body]
fn glob_match(pattern: &str, name: &str) -> (r: bool)
    requires
        pattern@.len() <= GLOB_PATTERN_LIMIT,
    ensures
        r == glob_matches(pattern@, name@),
{
    let glob = match globset::Glob::new(pattern) {
        Ok(g) => g,
        Err(_) => return false,
    };
    match globset::GlobSetBuilder::new().add(glob).build() {
        Ok(set) => set.is_match(name),
        Err(_) => false,
    }
}

/// The components that name something: empty and `.` components dropped.
pub open spec fn named_components(parts: Seq<Seq<char>>) -> Seq<Seq<char>>
    decreases parts.len(),
{
    if parts.len() == 0 {
        parts
    } else {
        let rest = named_components(parts.drop_last());
        let c = parts.last();
        if c.len() > 0 && c != "."@ { rest.push(c) } else { rest }
    }
}

/// The final component of a path, as `Path::file_name` gives it: none for a
/// path that ends in `..` or has no named component.
pub open spec fn file_name(path: Seq<char>) -> Option<Seq<char>> {
    let cs = named_components(split_char(path, '/'));
    if cs.len() == 0 || cs.last() == ".."@ { None } else { Some(cs.last()) }
}

/// Some pattern matches the file name.
pub open spec fn any_match(patterns: Seq<Seq<char>>, name: Seq<char>) -> bool {
    exists|i: int| 0 <= i < patterns.len() && glob_matches(patterns[i], name)
}

fn file_name_exec(path: &str) -> (r: Option<Vec<char>>)
    ensures
        match r {
            Some(n) => file_name(path@) == Some(n@),
            None => file_name(path@) is None,
        },
{
    let parts = split_char_exec(&chars_of(path), '/');
    let ghost pv = parts@.map_values(|v: Vec<char>| v@);
    let mut kept: Vec<Vec<char>> = Vec::new();
    let dot = chars_of(".");
    let mut i: usize = 0;
    while i < parts.len()
        invariant
            i <= parts.len(),
            dot@ == "."@,
            pv == parts@.map_values(|v: Vec<char>| v@),
            pv == split_char(path@, '/'),
            kept@.map_values(|v: Vec<char>| v@) == named_components(pv.take(i as int)),
        decreases parts.len() - i,
    {
        proof {
            assert(pv.take(i + 1).drop_last() == pv.take(i as int));
            assert(pv.take(i + 1).last() == parts@[i as int]@);
        }
        if parts[i].len() > 0 && !vec_eq(&parts[i], &dot) {
            let c = slice(&parts[i], 0, parts[i].len());
            assert(c@ == parts@[i as int]@);
            let ghost before = kept@;
            kept.push(c);
            proof {
                assert(kept@.map_values(|v: Vec<char>| v@) == before.map_values(|v: Vec<char>| v@).push(c@));
            }
        }
        i += 1;
    }
    proof {
        assert(pv.take(i as int) == pv);
    }
    if kept.len() == 0 {
        return None;
    }
    let last = slice(&kept[kept.len() - 1], 0, kept[kept.len() - 1].len());
    proof {
        assert(last@ == kept@[kept.len() - 1]@);
        assert(kept@.map_values(|v: Vec<char>| v@).last() == kept@[kept.len() - 1]@);
        assert(named_components(split_char(path@, '/')).last() == last@);
    }
    if vec_eq(&last, &chars_of("..")) {
        return None;
    }
    Some(last)
}

/// Whether a path's file name matches any of the patterns; a path without
/// a file name is never excluded.
pub fn is_excluded(path: &str, patterns: &[String]) -> (r: bool)
    requires
        patterns_fit(patterns@.map_values(|s: String| s@)),
    ensures
        r == match file_name(path@) {
            Some(n) => any_match(patterns@.map_values(|s: String| s@), n),
            None => false,
        },
{
    let name = match file_name_exec(path) {
        Some(n) => string_of(&n),
        None => return false,
    };
    let ghost pv = patterns@.map_values(|s: String| s@);
    let mut i: usize = 0;
    while i < patterns.len()
        invariant
            i <= patterns.len(),
            pv == patterns@.map_values(|s: String| s@),
            file_name(path@) == Some(name@),
            patterns_fit(pv),
            forall|j: int| 0 <= j < i ==> !glob_matches(pv[j], name@),
        decreases patterns.len() - i,
    {
        proof {
            assert(pv[i as int] == patterns@[i as int]@);
        }
        if glob_match(patterns[i].as_str(), name.as_str()) {
            proof {
                assert(glob_matches(pv[i as int], name@));
            }
            return true;
        }
        i += 1;
    }
    false
}

} // verus!
