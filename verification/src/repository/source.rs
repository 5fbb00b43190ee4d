//! Package source strings: `base[::sub path][@version]`, with local paths
//! and stored `local::` sources.
use vstd::prelude::*;
use crate::source::{split_first, split_first_exec};
use crate::text::{append, chars_of, rfind_char, rfind_char_exec, slice, starts_with, starts_with_exec, string_of};

verus! {

/// A parsed package source string.
#[derive(Debug, Clone)]
pub struct Source {
    /// "owner/repo", "host.com/org/repo", or "/abs/path".
    pub base: String,
    /// "" or "edgetx.c480x272.yml".
    pub sub_path: String,
    /// "" or "v1.0" or "main".
    pub version: String,
    /// True for local paths and the "local::" prefix.
    pub is_local: bool,
}

/// The model of a [`Source`]: base, sub path, version, locality.
pub type SourceModel = (Seq<char>, Seq<char>, Seq<char>, bool);

impl View for Source {
    type V = SourceModel;

    open spec fn view(&self) -> SourceModel {
        (self.base@, self.sub_path@, self.version@, self.is_local)
    }
}

/// Splits on the last `@`; one at the very start, or none, leaves the
/// version empty.
pub open spec fn split_last_at(s: Seq<char>) -> (Seq<char>, Seq<char>) {
    match rfind_char(s, '@') {
        Some(i) => if i > 0 { (s.take(i), s.skip(i + 1)) } else { (s, Seq::empty()) },
        None => (s, Seq::empty()),
    }
}

/// How a source string reads.
pub open spec fn spec_parse_source(raw: Seq<char>) -> SourceModel {
    if raw.len() == 0 {
        (Seq::empty(), Seq::empty(), Seq::empty(), false)
    } else if starts_with(raw, "local::"@) {
        let (base, sub) = split_first(raw.skip(7), "::"@);
        (base, sub, Seq::empty(), true)
    } else if raw[0] == '.' || raw[0] == '/' || raw[0] == '~' {
        let (base, sub) = split_first(raw, "::"@);
        (base, sub, Seq::empty(), true)
    } else {
        let (base_with_sub, version) = split_last_at(raw);
        let (base, sub) = split_first(base_with_sub, "::"@);
        (base, sub, version, false)
    }
}

/// The identifier of a source without its version.
pub open spec fn spec_canonical(m: SourceModel) -> Seq<char> {
    let head = if m.3 { "local::"@ + m.0 } else { m.0 };
    if m.1.len() > 0 { head + "::"@ + m.1 } else { head }
}

/// The identifier followed by `@version` when there is a version.
pub open spec fn spec_full(m: SourceModel) -> Seq<char> {
    if m.2.len() > 0 { spec_canonical(m) + "@"@ + m.2 } else { spec_canonical(m) }
}

impl Default for Source {
    fn default() -> (r: Source)
        ensures
            r@ == (Seq::<char>::empty(), Seq::<char>::empty(), Seq::<char>::empty(), false),
    {
        Source { base: String::new(), sub_path: String::new(), version: String::new(), is_local: false }
    }
}

fn split_last_at_exec(s: &Vec<char>) -> (r: (Vec<char>, Vec<char>))
    ensures
        (r.0@, r.1@) == split_last_at(s@),
{
    match rfind_char_exec(s, '@') {
        Some(i) => {
            proof {
                crate::text::lemma_rfind_bounds(s@, '@');
            }
            assert(rfind_char(s@, '@') == Some(i as int));
            if i > 0 {
                let a = slice(s, 0, i);
                let b = slice(s, i + 1, s.len());
                assert(a@ == s@.take(i as int));
                assert(b@ == s@.skip(i + 1));
                (a, b)
            } else {
                let a = slice(s, 0, s.len());
                assert(a@ == s@);
                (a, Vec::new())
            }
        },
        None => {
            let a = slice(s, 0, s.len());
            assert(a@ == s@);
            (a, Vec::new())
        },
    }
}

impl Source {
    /// Parses a source string: `local::<path>[::sub]` and paths that start
    /// with `.`, `/` or `~` are local and never split on `@`; a remote source
    /// splits its version at the last `@` and its sub path at the first `::`.
    pub fn parse(raw: &str) -> (r: Source)
        ensures
            r@ == spec_parse_source(raw@),
    {
        if raw.is_empty() {
            return Source::default();
        }
        let s = chars_of(raw);
        let prefix = chars_of("local::");
        let sep = chars_of("::");
        proof {
            reveal_strlit("local::");
        }
        if starts_with_exec(&s, &prefix) {
            let rest = slice(&s, 7, s.len());
            assert(rest@ == s@.skip(7));
            let (base, sub) = split_first_exec(&rest, &sep);
            return Source { base: string_of(&base), sub_path: string_of(&sub), version: String::new(), is_local: true };
        }
        if s[0] == '.' || s[0] == '/' || s[0] == '~' {
            let (base, sub) = split_first_exec(&s, &sep);
            return Source { base: string_of(&base), sub_path: string_of(&sub), version: String::new(), is_local: true };
        }
        let (base_with_sub, version) = split_last_at_exec(&s);
        let (base, sub) = split_first_exec(&base_with_sub, &sep);
        Source { base: string_of(&base), sub_path: string_of(&sub), version: string_of(&version), is_local: false }
    }

    /// The source identifier without its version.
    pub fn canonical(&self) -> (r: String)
        ensures
            r@ == spec_canonical(self@),
    {
        let mut v: Vec<char> = Vec::new();
        if self.is_local {
            append(&mut v, &chars_of("local::"));
        }
        append(&mut v, &chars_of(self.base.as_str()));
        if !self.sub_path.as_str().is_empty() {
            append(&mut v, &chars_of("::"));
            append(&mut v, &chars_of(self.sub_path.as_str()));
        }
        string_of(&v)
    }

    /// The canonical form plus `@version` when a version is set.
    pub fn full(&self) -> (r: String)
        ensures
            r@ == spec_full(self@),
    {
        let c = self.canonical();
        if !self.version.as_str().is_empty() {
            let mut v = chars_of(c.as_str());
            append(&mut v, &chars_of("@"));
            append(&mut v, &chars_of(self.version.as_str()));
            string_of(&v)
        } else {
            c
        }
    }

    /// The same source with its sub path set; an empty argument keeps the
    /// current one.
    pub fn with_sub_path(self, p: &str) -> (r: Source)
        ensures
            r@ == (self@.0, if p@.len() > 0 { p@ } else { self@.1 }, self@.2, self@.3),
    {
        let mut s = self;
        if !p.is_empty() {
            s.sub_path = p.to_owned();
        }
        s
    }

    /// The same source with its version set.
    pub fn with_version(self, v: &str) -> (r: Source)
        ensures
            r@ == (self@.0, self@.1, v@, self@.3),
    {
        let mut s = self;
        s.version = v.to_owned();
        s
    }
}

impl std::str::FromStr for Source {
    type Err = std::convert::Infallible;

    /// Reads a source string as `Source::parse` does; reading never fails.
    fn from_str(raw: &str) -> (r: Result<Source, std::convert::Infallible>)
        ensures
            r matches Ok(s) && s@ == spec_parse_source(raw@),
    {
        Ok(Source::parse(raw))
    }
}

} // verus!
