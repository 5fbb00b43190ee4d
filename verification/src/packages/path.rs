//! Forward-slash relative paths on the SD card.
use vstd::prelude::*;
use crate::text::{chars_of, ends_with_char, replace_char, replace_char_exec, split_char, split_char_exec, string_of, trim_end_matches, trim_end_matches_exec};

verus! {

/// A forward-slash-separated relative path on the SD card (e.g.
/// `SCRIPTS/TOOLS/MyTool`), whatever the host's separator.
#[derive(Debug)]
pub struct PackagePath(String);

impl View for PackagePath {
    type V = Seq<char>;

    closed spec fn view(&self) -> Seq<char> {
        self.0@
    }
}

/// The segments of a path: trailing slashes dropped, split on `/`.
pub open spec fn segments(p: Seq<char>) -> Seq<Seq<char>> {
    split_char(trim_end_matches(p, "/"@), '/')
}

impl PackagePath {
    /// A path with every `\` turned into `/`.
    pub fn new(s: &str) -> (r: PackagePath)
        ensures
            r@ == replace_char(s@, '\\', '/'),
    {
        let v = replace_char_exec(&chars_of(s), '\\', '/');
        PackagePath(string_of(&v))
    }

    pub fn as_str(&self) -> (r: &str)
        ensures
            r@ == self@,
    {
        self.0.as_str()
    }

    pub fn into_inner(self) -> (r: String)
        ensures
            r@ == self@,
    {
        self.0
    }

    /// The path as an owned string (what `Display` would print).
    pub fn to_string(&self) -> (r: String)
        ensures
            r@ == self@,
    {
        self.0.clone()
    }

    /// A trailing `/` marks a directory entry.
    pub fn is_dir(&self) -> (r: bool)
        ensures
            r == (self@.len() > 0 && self@.last() == '/'),
    {
        ends_with_char(&chars_of(self.0.as_str()), '/')
    }

    /// The path's segments (trailing slashes ignored).
    pub fn segments(&self) -> (r: Vec<Vec<char>>)
        ensures
            r@.map_values(|v: Vec<char>| v@) == segments(self@),
    {
        let t = trim_end_matches_exec(&chars_of(self.0.as_str()), &chars_of("/"));
        split_char_exec(&t, '/')
    }

    /// Equality with a string slice.
    pub fn eq_str(&self, other: &str) -> (r: bool)
        ensures
            r == (self@ == other@),
    {
        crate::text::str_eq(self.0.as_str(), other)
    }
}

impl Clone for PackagePath {
    fn clone(&self) -> (r: PackagePath)
        ensures
            r == *self,
    {
        PackagePath(self.0.clone())
    }
}

impl PartialEq for PackagePath {
    fn eq(&self, other: &Self) -> (r: bool) {
        self.0 == other.0
    }
}

impl vstd::std_specs::cmp::PartialEqSpecImpl for PackagePath {
    open spec fn obeys_eq_spec() -> bool {
        true
    }

    open spec fn eq_spec(&self, other: &Self) -> bool {
        self@ == other@
    }
}

impl Eq for PackagePath {}

impl From<String> for PackagePath {
    fn from(s: String) -> (r: PackagePath)
        ensures
            r@ == replace_char(s@, '\\', '/'),
    {
        PackagePath::new(s.as_str())
    }
}

impl vstd::std_specs::convert::FromSpecImpl<String> for PackagePath {
    /// The conversion is stated by `from`'s own `ensures`.
    open spec fn obeys_from_spec() -> bool {
        false
    }

    open spec fn from_spec(s: String) -> PackagePath {
        vstd::pervasive::arbitrary()
    }
}

impl<'a> From<&'a str> for PackagePath {
    fn from(s: &'a str) -> (r: PackagePath)
        ensures
            r@ == replace_char(s@, '\\', '/'),
    {
        PackagePath::new(s)
    }
}

impl<'a> vstd::std_specs::convert::FromSpecImpl<&'a str> for PackagePath {
    /// The conversion is stated by `from`'s own `ensures`.
    open spec fn obeys_from_spec() -> bool {
        false
    }

    open spec fn from_spec(s: &'a str) -> PackagePath {
        vstd::pervasive::arbitrary()
    }
}

impl<'a> PartialEq<&'a str> for PackagePath {
    fn eq(&self, other: &&'a str) -> (r: bool) {
        crate::text::str_eq(self.0.as_str(), *other)
    }
}

impl<'a> vstd::std_specs::cmp::PartialEqSpecImpl<&'a str> for PackagePath {
    open spec fn obeys_eq_spec() -> bool {
        true
    }

    open spec fn eq_spec(&self, other: &&'a str) -> bool {
        self@ == other@
    }
}

} // verus!
