//! Package references in the `Org/Repo[@version]` and
//! `host.com/org/repo[@version]` forms, and local directories.
pub mod clone;
pub mod source;

use vstd::prelude::*;
use crate::error::RegistryError;
use crate::text::{
    append, chars_of, contains_char_exec, count_char, count_char_exec, find, find_exec, rfind_char,
    rfind_char_exec, slice, split_char, split_char_exec, string_of, trim_end_matches,
    trim_end_matches_exec,
};

verus! {

/// The error type of reference parsing.
pub type RepositoryError = RegistryError;

/// A parsed package reference.
///
/// A local path is kept as written; the program makes it absolute against
/// the file system.
#[derive(Debug, Clone)]
pub struct PackageRef {
    /// Empty for GitHub, or "gitea.example.com".
    pub host: String,
    pub owner: String,
    pub repo: String,
    /// Tag, branch, commit, or "" (latest).
    pub version: String,
    pub is_local: bool,
    pub local_path: String,
    /// Manifest file or subdirectory within the repo.
    pub sub_path: String,
}

/// The model of a [`PackageRef`].
pub struct RefModel {
    pub host: Seq<char>,
    pub owner: Seq<char>,
    pub repo: Seq<char>,
    pub version: Seq<char>,
    pub is_local: bool,
    pub local_path: Seq<char>,
    pub sub_path: Seq<char>,
}

/// Why a reference is refused: it is empty, or it is malformed for the
/// given reason.
pub enum RefRefusal {
    Empty,
    Invalid(Seq<char>),
}

impl View for PackageRef {
    type V = RefModel;

    open spec fn view(&self) -> RefModel {
        RefModel {
            host: self.host@,
            owner: self.owner@,
            repo: self.repo@,
            version: self.version@,
            is_local: self.is_local,
            local_path: self.local_path@,
            sub_path: self.sub_path@,
        }
    }
}

impl RefModel {
    /// `local::<path>`, `host/owner/repo` or `owner/repo`, then `::<sub path>`
    /// when there is one.
    pub open spec fn canonical(self) -> Seq<char> {
        let base = if self.is_local {
            "local::"@ + self.local_path
        } else if self.host.len() > 0 {
            self.host + "/"@ + self.owner + "/"@ + self.repo
        } else {
            self.owner + "/"@ + self.repo
        };
        if self.sub_path.len() == 0 { base } else { base + "::"@ + self.sub_path }
    }

    /// `https://<host or github.com>/<owner>/<repo>.git`.
    pub open spec fn clone_url(self) -> Seq<char> {
        let host = if self.host.len() == 0 { "github.com"@ } else { self.host };
        "https://"@ + host + "/"@ + self.owner + "/"@ + self.repo + ".git"@
    }
}

/// A local reference: the path as written.
pub open spec fn local_ref(raw: Seq<char>) -> RefModel {
    RefModel {
        host: Seq::empty(),
        owner: Seq::empty(),
        repo: Seq::empty(),
        version: Seq::empty(),
        is_local: true,
        local_path: raw,
        sub_path: Seq::empty(),
    }
}

/// A remote reference on a host.
pub open spec fn remote_ref(host: Seq<char>, owner: Seq<char>, repo: Seq<char>, version: Seq<char>) -> RefModel {
    RefModel {
        host,
        owner,
        repo,
        version,
        is_local: false,
        local_path: Seq::empty(),
        sub_path: Seq::empty(),
    }
}

/// The path part of a remote reference: scheme, trailing `.git` and
/// trailing slashes removed, split on `/`.
pub open spec fn remote_parts(remainder: Seq<char>) -> Seq<Seq<char>> {
    let no_scheme = match find(remainder, "://"@) {
        Some(i) => remainder.skip(i + 3),
        None => remainder,
    };
    split_char(trim_end_matches(trim_end_matches(no_scheme, ".git"@), "/"@), '/')
}

/// How a remote reference reads: `[scheme://][host/]owner/repo[@version]`.
pub open spec fn spec_parse_remote(raw: Seq<char>) -> Result<RefModel, RefRefusal> {
    if count_char(raw, '@') > 1 {
        Err(RefRefusal::Invalid("multiple @ symbols"@))
    } else if rfind_char(raw, '@') is Some && rfind_char(raw, '@')->0 + 1 == raw.len() {
        Err(RefRefusal::Invalid("empty version after @"@))
    } else {
        let (remainder, version) = match rfind_char(raw, '@') {
            Some(idx) => (raw.take(idx), raw.skip(idx + 1)),
            None => (raw, Seq::<char>::empty()),
        };
        let parts = remote_parts(remainder);
        if parts.len() == 2 {
            if parts[0].len() == 0 || parts[1].len() == 0 {
                Err(RefRefusal::Invalid("empty owner or repo"@))
            } else {
                Ok(remote_ref(Seq::empty(), parts[0], parts[1], version))
            }
        } else if parts.len() == 3 {
            if parts[0].len() == 0 || parts[1].len() == 0 || parts[2].len() == 0 {
                Err(RefRefusal::Invalid("empty host, owner, or repo"@))
            } else if !parts[0].contains('.') {
                Err(RefRefusal::Invalid("expected host.com/org/repo or Org/Repo format"@))
            } else {
                Ok(remote_ref(parts[0], parts[1], parts[2], version))
            }
        } else {
            Err(RefRefusal::Invalid("expected Org/Repo or host.com/org/repo format"@))
        }
    }
}

/// How a package reference reads. A reference that starts with `.`, `/` or
/// `~`, or names an existing directory (`raw_is_dir`), is local.
pub open spec fn spec_parse_package_ref(raw: Seq<char>, raw_is_dir: bool) -> Result<RefModel, RefRefusal> {
    if raw.len() == 0 {
        Err(RefRefusal::Empty)
    } else if raw[0] == '.' || raw[0] == '/' || raw[0] == '~' || raw_is_dir {
        Ok(local_ref(raw))
    } else {
        spec_parse_remote(raw)
    }
}

/// The error value that stands for a refusal of `raw`.
pub open spec fn refusal_matches(raw: Seq<char>, why: RefRefusal, e: RegistryError) -> bool {
    match why {
        RefRefusal::Empty => e is EmptyRef,
        RefRefusal::Invalid(reason) => e matches RegistryError::InvalidRef { raw: rr, reason: rs }
            && rr@ == raw && rs@ == reason,
    }
}

impl PackageRef {
    /// The canonical identifier of the package.
    pub fn canonical(&self) -> (r: String)
        ensures
            r@ == self@.canonical(),
    {
        let mut v: Vec<char>;
        if self.is_local {
            v = chars_of("local::");
            append(&mut v, &chars_of(self.local_path.as_str()));
        } else if !self.host.as_str().is_empty() {
            v = chars_of(self.host.as_str());
            append(&mut v, &chars_of("/"));
            append(&mut v, &chars_of(self.owner.as_str()));
            append(&mut v, &chars_of("/"));
            append(&mut v, &chars_of(self.repo.as_str()));
        } else {
            v = chars_of(self.owner.as_str());
            append(&mut v, &chars_of("/"));
            append(&mut v, &chars_of(self.repo.as_str()));
        }
        if !self.sub_path.as_str().is_empty() {
            append(&mut v, &chars_of("::"));
            append(&mut v, &chars_of(self.sub_path.as_str()));
        }
        string_of(&v)
    }

    /// The HTTPS clone URL of the package.
    pub fn clone_url(&self) -> (r: String)
        ensures
            r@ == self@.clone_url(),
    {
        let mut v = chars_of("https://");
        if self.host.as_str().is_empty() {
            append(&mut v, &chars_of("github.com"));
        } else {
            append(&mut v, &chars_of(self.host.as_str()));
        }
        append(&mut v, &chars_of("/"));
        append(&mut v, &chars_of(self.owner.as_str()));
        append(&mut v, &chars_of("/"));
        append(&mut v, &chars_of(self.repo.as_str()));
        append(&mut v, &chars_of(".git"));
        string_of(&v)
    }
}

fn invalid(raw: &str, reason: &str) -> (e: RegistryError)
    ensures
        e matches RegistryError::InvalidRef { raw: rr, reason: rs } && rr@ == raw@ && rs@ == reason@,
{
    RegistryError::InvalidRef { raw: raw.to_owned(), reason: reason.to_owned() }
}

fn make_ref(host: &Vec<char>, owner: &Vec<char>, repo: &Vec<char>, version: &Vec<char>) -> (r: PackageRef)
    ensures
        r@ == remote_ref(host@, owner@, repo@, version@),
{
    PackageRef {
        host: string_of(host),
        owner: string_of(owner),
        repo: string_of(repo),
        version: string_of(version),
        is_local: false,
        local_path: String::new(),
        sub_path: String::new(),
    }
}

fn remote_parts_exec(remainder: &Vec<char>) -> (r: Vec<Vec<char>>)
    ensures
        r@.map_values(|v: Vec<char>| v@) == remote_parts(remainder@),
{
    let sep = chars_of("://");
    proof {
        reveal_strlit("://");
    }
    let no_scheme = match find_exec(remainder, &sep) {
        Some(i) => {
            proof {
                crate::text::lemma_find_bounds(remainder@, sep@);
            }
            assert(find(remainder@, sep@) == Some(i as int));
            let k = sep.len();
            let n = remainder.len();
            assert(i + k <= n);
            let start: usize = i + k;
            let t = slice(remainder, start, n);
            assert(t@ == remainder@.skip(i + 3));
            t
        },
        None => {
            let t = slice(remainder, 0, remainder.len());
            assert(remainder@.subrange(0, remainder@.len() as int) == remainder@);
            t
        },
    };
    let clean = trim_end_matches_exec(&trim_end_matches_exec(&no_scheme, &chars_of(".git")), &chars_of("/"));
    split_char_exec(&clean, '/')
}

fn parse_remote(raw: &str) -> (r: Result<PackageRef, RegistryError>)
    ensures
        match spec_parse_remote(raw@) {
            Ok(m) => r matches Ok(p) && p@ == m,
            Err(why) => r matches Err(e) && refusal_matches(raw@, why, e),
        },
{
    let s = chars_of(raw);
    if count_char_exec(&s, '@') > 1 {
        return Err(invalid(raw, "multiple @ symbols"));
    }
    let remainder: Vec<char>;
    let version: Vec<char>;
    match rfind_char_exec(&s, '@') {
        Some(idx) => {
            proof {
                crate::text::lemma_rfind_bounds(s@, '@');
            }
            assert(rfind_char(s@, '@') == Some(idx as int));
            assert(idx < s.len());
            if idx + 1 == s.len() {
                return Err(invalid(raw, "empty version after @"));
            }
            remainder = slice(&s, 0, idx);
            version = slice(&s, idx + 1, s.len());
            assert(remainder@ == s@.take(idx as int));
            assert(version@ == s@.skip(idx + 1));
        },
        None => {
            remainder = slice(&s, 0, s.len());
            version = Vec::new();
            assert(remainder@ == s@);
        },
    }
    let parts = remote_parts_exec(&remainder);
    let ghost pv = parts@.map_values(|v: Vec<char>| v@);
    if parts.len() == 2 {
        assert(pv[0] == parts@[0]@ && pv[1] == parts@[1]@);
        if parts[0].len() == 0 || parts[1].len() == 0 {
            return Err(invalid(raw, "empty owner or repo"));
        }
        Ok(make_ref(&Vec::new(), &parts[0], &parts[1], &version))
    } else if parts.len() == 3 {
        assert(pv[0] == parts@[0]@ && pv[1] == parts@[1]@ && pv[2] == parts@[2]@);
        if parts[0].len() == 0 || parts[1].len() == 0 || parts[2].len() == 0 {
            return Err(invalid(raw, "empty host, owner, or repo"));
        }
        if !contains_char_exec(&parts[0], '.') {
            return Err(invalid(raw, "expected host.com/org/repo or Org/Repo format"));
        }
        Ok(make_ref(&parts[0], &parts[1], &parts[2], &version))
    } else {
        Err(invalid(raw, "expected Org/Repo or host.com/org/repo format"))
    }
}

/// Parses a package reference. `raw_is_dir` says whether `raw` names an
/// existing directory; such a reference, and one that starts with `.`, `/`
/// or `~`, is local and kept as written.
pub fn parse_package_ref(raw: &str, raw_is_dir: bool) -> (r: Result<PackageRef, RepositoryError>)
    ensures
        match spec_parse_package_ref(raw@, raw_is_dir) {
            Ok(m) => r matches Ok(p) && p@ == m,
            Err(why) => r matches Err(e) && refusal_matches(raw@, why, e),
        },
{
    if raw.is_empty() {
        return Err(RegistryError::EmptyRef);
    }
    let s = chars_of(raw);
    if s[0] == '.' || s[0] == '/' || s[0] == '~' || raw_is_dir {
        return Ok(PackageRef {
            host: String::new(),
            owner: String::new(),
            repo: String::new(),
            version: String::new(),
            is_local: true,
            local_path: raw.to_owned(),
            sub_path: String::new(),
        });
    }
    parse_remote(raw)
}

} // verus!
