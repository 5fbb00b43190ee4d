//! Package references: where a package comes from and how it is named.
pub mod resolve;
pub mod version;

use vstd::prelude::*;
use crate::text::{
    append, chars_of, contains_char_exec, count_char, count_char_exec, find, find_exec, join,
    join_exec, rfind_char, rfind_char_exec, slice, split_char, split_char_exec, starts_with,
    starts_with_exec, string_of, trim_end_matches, trim_end_matches_exec,
};

verus! {

/// Errors met while reading or resolving a package reference.
#[derive(Debug)]
pub enum SourceError {
    InvalidRef { raw: String, reason: String },
    Resolve { url: String, reason: String },
    Clone { url: String, reason: String },
    NoManifest(String),
    Io { context: String, message: String },
    Other(String),
}

/// Describes the remote origin of a package: a git host or a `file://` URL.
#[derive(Debug, Clone)]
pub enum RemoteSource {
    Git { host: String, owner: String, repo: String },
    File { path: String },
}

/// A parsed package reference: a local directory or a remote repository.
///
/// A local path is kept as written (with a leading `~` unexpanded); the
/// program makes it absolute against the file system.
#[derive(Debug, Clone)]
pub enum PackageRef {
    Local {
        path: String,
        /// Manifest variant filename; not part of identity.
        variant: String,
    },
    Remote {
        source: RemoteSource,
        /// Tag, branch, commit, or empty (latest).
        version: String,
        /// Subpackage directory within the repo; part of identity.
        subpath: String,
        /// Manifest variant filename; not part of identity.
        variant: String,
    },
}

/// Mathematical model of a [`RemoteSource`].
pub enum RemoteSourceModel {
    Git { host: Seq<char>, owner: Seq<char>, repo: Seq<char> },
    File { path: Seq<char> },
}

/// Mathematical model of a [`PackageRef`].
pub enum PackageRefModel {
    Local { path: Seq<char>, variant: Seq<char> },
    Remote { source: RemoteSourceModel, version: Seq<char>, subpath: Seq<char>, variant: Seq<char> },
}

impl View for RemoteSource {
    type V = RemoteSourceModel;

    open spec fn view(&self) -> RemoteSourceModel {
        match self {
            RemoteSource::Git { host, owner, repo } => RemoteSourceModel::Git {
                host: host@,
                owner: owner@,
                repo: repo@,
            },
            RemoteSource::File { path } => RemoteSourceModel::File { path: path@ },
        }
    }
}

impl View for PackageRef {
    type V = PackageRefModel;

    open spec fn view(&self) -> PackageRefModel {
        match self {
            PackageRef::Local { path, variant } => PackageRefModel::Local {
                path: path@,
                variant: variant@,
            },
            PackageRef::Remote { source, version, subpath, variant } => PackageRefModel::Remote {
                source: source@,
                version: version@,
                subpath: subpath@,
                variant: variant@,
            },
        }
    }
}

pub open spec fn github_host() -> Seq<char> {
    "github.com"@
}

pub open spec fn file_scheme() -> Seq<char> {
    "file://"@
}

pub open spec fn https_scheme() -> Seq<char> {
    "https://"@
}

pub open spec fn scheme_sep() -> Seq<char> {
    "://"@
}

pub open spec fn variant_sep() -> Seq<char> {
    "::"@
}

pub open spec fn git_suffix() -> Seq<char> {
    ".git"@
}

pub open spec fn slash() -> Seq<char> {
    "/"@
}

/// Splits on the first occurrence of `sep`; without one, the second part is empty.
pub open spec fn split_first(s: Seq<char>, sep: Seq<char>) -> (Seq<char>, Seq<char>) {
    match find(s, sep) {
        Some(i) => (s.take(i), s.skip(i + sep.len())),
        None => (s, Seq::<char>::empty()),
    }
}

impl RemoteSourceModel {
    pub open spec fn clone_url(self) -> Seq<char> {
        match self {
            RemoteSourceModel::Git { host, owner, repo } => https_scheme() + host + slash() + owner
                + slash() + repo + git_suffix(),
            RemoteSourceModel::File { path } => file_scheme() + path,
        }
    }

    pub open spec fn canonical_root(self) -> Seq<char> {
        match self {
            RemoteSourceModel::Git { host, owner, repo } => host + slash() + owner + slash() + repo,
            RemoteSourceModel::File { path } => file_scheme() + path,
        }
    }
}

impl PackageRefModel {
    /// `host/owner/repo` plus `/subpath`; no version, no variant.
    pub open spec fn canonical(self) -> Seq<char> {
        match self {
            PackageRefModel::Local { path, .. } => file_scheme() + path,
            PackageRefModel::Remote { source, subpath, .. } => if subpath.len() == 0 {
                source.canonical_root()
            } else {
                source.canonical_root() + slash() + subpath
            },
        }
    }

    pub open spec fn clone_url(self) -> Option<Seq<char>> {
        match self {
            PackageRefModel::Remote { source, .. } => Some(source.clone_url()),
            PackageRefModel::Local { .. } => None,
        }
    }

    pub open spec fn is_local(self) -> bool {
        self is Local
    }

    pub open spec fn version(self) -> Seq<char> {
        match self {
            PackageRefModel::Remote { version, .. } => version,
            PackageRefModel::Local { .. } => Seq::<char>::empty(),
        }
    }

    pub open spec fn subpath(self) -> Seq<char> {
        match self {
            PackageRefModel::Remote { subpath, .. } => subpath,
            PackageRefModel::Local { .. } => Seq::<char>::empty(),
        }
    }

    pub open spec fn variant(self) -> Seq<char> {
        match self {
            PackageRefModel::Remote { variant, .. } => variant,
            PackageRefModel::Local { variant, .. } => variant,
        }
    }

    pub open spec fn with_version(self, v: Seq<char>) -> PackageRefModel {
        match self {
            PackageRefModel::Remote { source, subpath, variant, .. } => PackageRefModel::Remote {
                source,
                version: v,
                subpath,
                variant,
            },
            PackageRefModel::Local { .. } => self,
        }
    }

    pub open spec fn with_variant(self, v: Seq<char>) -> PackageRefModel {
        match self {
            PackageRefModel::Remote { source, version, subpath, .. } => PackageRefModel::Remote {
                source,
                version,
                subpath,
                variant: v,
            },
            PackageRefModel::Local { path, .. } => PackageRefModel::Local { path, variant: v },
        }
    }
}

/// How a local reference reads: the path, then an optional `::variant`.
pub open spec fn spec_parse_local(raw: Seq<char>) -> PackageRefModel {
    let (path, variant) = split_first(raw, variant_sep());
    PackageRefModel::Local { path, variant }
}

/// The `host/owner/repo[/subpath]` part of a remote reference, already
/// stripped of scheme, `.git` and trailing slashes, split on `/`.
pub open spec fn spec_remote_from_parts(parts: Seq<Seq<char>>, version: Seq<char>, variant: Seq<char>)
    -> Result<PackageRefModel, Seq<char>>
{
    if exists|i: int| 0 <= i < parts.len() && #[trigger] parts[i].len() == 0 {
        Err(reason_empty_segment())
    } else if parts.len() < 2 {
        Err(reason_bad_format())
    } else if parts.len() == 2 {
        Ok(PackageRefModel::Remote {
            source: RemoteSourceModel::Git { host: github_host(), owner: parts[0], repo: parts[1] },
            version,
            subpath: Seq::<char>::empty(),
            variant,
        })
    } else if parts[0].contains('.') {
        Ok(PackageRefModel::Remote {
            source: RemoteSourceModel::Git { host: parts[0], owner: parts[1], repo: parts[2] },
            version,
            subpath: join(parts.skip(3), slash()),
            variant,
        })
    } else {
        Ok(PackageRefModel::Remote {
            source: RemoteSourceModel::Git { host: github_host(), owner: parts[0], repo: parts[1] },
            version,
            subpath: join(parts.skip(2), slash()),
            variant,
        })
    }
}

/// How a remote reference reads: `[scheme://]host-path[::variant][@version]`.
/// The error is the reason the reference is rejected.
pub open spec fn spec_parse_remote(raw: Seq<char>) -> Result<PackageRefModel, Seq<char>> {
    if count_char(raw, '@') > 1 {
        Err(reason_multiple_at())
    } else if rfind_char(raw, '@') is Some && rfind_char(raw, '@')->0 + 1 == raw.len() {
        Err(reason_empty_version())
    } else {
        let (remainder, version) = match rfind_char(raw, '@') {
            Some(idx) => (raw.take(idx), raw.skip(idx + 1)),
            None => (raw, Seq::<char>::empty()),
        };
        let (base, variant) = split_first(remainder, variant_sep());
        if starts_with(base, file_scheme()) {
            Ok(PackageRefModel::Remote {
                source: RemoteSourceModel::File { path: base.skip(file_scheme().len() as int) },
                version,
                subpath: Seq::<char>::empty(),
                variant,
            })
        } else {
            let no_scheme = match find(base, scheme_sep()) {
                Some(i) => base.skip(i + scheme_sep().len()),
                None => base,
            };
            let clean = trim_end_matches(trim_end_matches(no_scheme, git_suffix()), slash());
            spec_remote_from_parts(split_char(clean, '/'), version, variant)
        }
    }
}

/// How a package reference reads. `raw_is_dir` says whether `raw` names an
/// existing directory. The error is the reason the reference is rejected.
pub open spec fn spec_parse_package_ref(raw: Seq<char>, raw_is_dir: bool) -> Result<PackageRefModel, Seq<char>> {
    if raw.len() == 0 {
        Err(reason_empty_ref())
    } else if starts_with(raw, file_scheme()) {
        spec_parse_remote(raw)
    } else if raw[0] == '.' || raw[0] == '/' || raw[0] == '~' || raw_is_dir {
        Ok(spec_parse_local(raw))
    } else {
        spec_parse_remote(raw)
    }
}

pub open spec fn reason_empty_ref() -> Seq<char> {
    "empty package reference"@
}

pub open spec fn reason_multiple_at() -> Seq<char> {
    "multiple @ symbols"@
}

pub open spec fn reason_empty_version() -> Seq<char> {
    "empty version after @"@
}

pub open spec fn reason_empty_segment() -> Seq<char> {
    "empty segment"@
}

pub open spec fn reason_bad_format() -> Seq<char> {
    "expected Owner/Repo or host.com/Owner/Repo[/sub/path] format"@
}

/// Splits on the first occurrence of `sep`.
pub(crate) fn split_first_exec(s: &Vec<char>, sep: &Vec<char>) -> (r: (Vec<char>, Vec<char>))
    ensures
        (r.0@, r.1@) == split_first(s@, sep@),
{
    match find_exec(s, sep) {
        Some(i) => {
            proof {
                crate::text::lemma_find_bounds(s@, sep@);
            }
            let a = slice(s, 0, i);
            let b = slice(s, i + sep.len(), s.len());
            assert(a@ == s@.take(i as int));
            assert(b@ == s@.skip(i + sep@.len()));
            (a, b)
        },
        None => (slice(s, 0, s.len()), Vec::new()),
    }
}

fn invalid_ref(raw: &str, reason: &str) -> (e: SourceError)
    ensures
        e matches SourceError::InvalidRef { raw: r, reason: why } && r@ == raw@ && why@ == reason@,
{
    SourceError::InvalidRef { raw: raw.to_owned(), reason: reason.to_owned() }
}

impl RemoteSource {
    /// The URL to clone from: `https://host/owner/repo.git` or `file://path`.
    pub fn clone_url(&self) -> (r: String)
        ensures
            r@ == self@.clone_url(),
    {
        let mut v: Vec<char>;
        match self {
            RemoteSource::Git { host, owner, repo } => {
                v = chars_of("https://");
                append(&mut v, &chars_of(host.as_str()));
                append(&mut v, &chars_of("/"));
                append(&mut v, &chars_of(owner.as_str()));
                append(&mut v, &chars_of("/"));
                append(&mut v, &chars_of(repo.as_str()));
                append(&mut v, &chars_of(".git"));
            },
            RemoteSource::File { path } => {
                v = chars_of("file://");
                append(&mut v, &chars_of(path.as_str()));
            },
        }
        string_of(&v)
    }

    /// Canonical `host/owner/repo` (or `file://path`); no subpath.
    fn canonical_root(&self) -> (r: Vec<char>)
        ensures
            r@ == self@.canonical_root(),
    {
        let mut v: Vec<char>;
        match self {
            RemoteSource::Git { host, owner, repo } => {
                v = chars_of(host.as_str());
                append(&mut v, &chars_of("/"));
                append(&mut v, &chars_of(owner.as_str()));
                append(&mut v, &chars_of("/"));
                append(&mut v, &chars_of(repo.as_str()));
            },
            RemoteSource::File { path } => {
                v = chars_of("file://");
                append(&mut v, &chars_of(path.as_str()));
            },
        }
        v
    }
}

impl PackageRef {
    /// Canonical identifier: `host/owner/repo` plus `/subpath`, without
    /// version or variant.
    pub fn canonical(&self) -> (r: String)
        ensures
            r@ == self@.canonical(),
    {
        match self {
            PackageRef::Local { path, .. } => {
                let mut v = chars_of("file://");
                append(&mut v, &chars_of(path.as_str()));
                string_of(&v)
            },
            PackageRef::Remote { source, subpath, .. } => {
                let mut v = source.canonical_root();
                if subpath.as_str().is_empty() {
                    string_of(&v)
                } else {
                    append(&mut v, &chars_of("/"));
                    append(&mut v, &chars_of(subpath.as_str()));
                    string_of(&v)
                }
            },
        }
    }

    /// The clone URL of a remote reference; `None` for a local one.
    pub fn clone_url(&self) -> (r: Option<String>)
        ensures
            match r {
                Some(u) => self@.clone_url() == Some(u@),
                None => self@.clone_url() is None,
            },
    {
        match self {
            PackageRef::Remote { source, .. } => Some(source.clone_url()),
            PackageRef::Local { .. } => None,
        }
    }

    pub fn is_local(&self) -> (r: bool)
        ensures
            r == self@.is_local(),
    {
        match self {
            PackageRef::Local { .. } => true,
            PackageRef::Remote { .. } => false,
        }
    }

    /// The requested version; empty for local references.
    pub fn version(&self) -> (r: &str)
        ensures
            r@ == self@.version(),
    {
        match self {
            PackageRef::Remote { version, .. } => version.as_str(),
            PackageRef::Local { .. } => {
                proof {
                    reveal_strlit("");
                }
                ""
            },
        }
    }

    /// Sets the version of a remote reference; a local one is unchanged.
    pub fn set_version(&mut self, v: String)
        ensures
            final(self)@ == old(self)@.with_version(v@),
    {
        if let PackageRef::Remote { version, .. } = self {
            *version = v;
        }
    }

    /// The subpackage directory; empty for local references.
    pub fn subpath(&self) -> (r: &str)
        ensures
            r@ == self@.subpath(),
    {
        match self {
            PackageRef::Remote { subpath, .. } => subpath.as_str(),
            PackageRef::Local { .. } => {
                proof {
                    reveal_strlit("");
                }
                ""
            },
        }
    }

    /// The variant manifest filename (an install-time selector).
    pub fn variant(&self) -> (r: &str)
        ensures
            r@ == self@.variant(),
    {
        match self {
            PackageRef::Local { variant, .. } => variant.as_str(),
            PackageRef::Remote { variant, .. } => variant.as_str(),
        }
    }

    pub fn set_variant(&mut self, v: String)
        ensures
            final(self)@ == old(self)@.with_variant(v@),
    {
        match self {
            PackageRef::Local { variant, .. } => {
                *variant = v;
            },
            PackageRef::Remote { variant, .. } => {
                *variant = v;
            },
        }
    }

    /// Reads a package reference. `raw_is_dir` tells whether `raw` names an
    /// existing directory, in which case it is a local reference.
    pub fn parse(raw: &str, raw_is_dir: bool) -> (r: Result<PackageRef, SourceError>)
        ensures
            match spec_parse_package_ref(raw@, raw_is_dir) {
                Ok(m) => r matches Ok(p) && p@ == m,
                Err(reason) => r matches Err(SourceError::InvalidRef { raw: rr, reason: why })
                    && rr@ == raw@ && why@ == reason,
            },
    {
        let s = chars_of(raw);
        if s.len() == 0 {
            return Err(invalid_ref(raw, "empty package reference"));
        }
        let fs = chars_of("file://");
        if starts_with_exec(&s, &fs) {
            return parse_remote(raw, &s);
        }
        if s[0] == '.' || s[0] == '/' || s[0] == '~' || raw_is_dir {
            return Ok(parse_local(&s));
        }
        parse_remote(raw, &s)
    }
}

fn parse_local(s: &Vec<char>) -> (r: PackageRef)
    ensures
        r@ == spec_parse_local(s@),
{
    let (path, variant) = split_first_exec(s, &chars_of("::"));
    PackageRef::Local { path: string_of(&path), variant: string_of(&variant) }
}

fn parse_remote(raw: &str, s: &Vec<char>) -> (r: Result<PackageRef, SourceError>)
    requires
        s@ == raw@,
    ensures
        match spec_parse_remote(raw@) {
            Ok(m) => r matches Ok(p) && p@ == m,
            Err(reason) => r matches Err(SourceError::InvalidRef { raw: rr, reason: why })
                && rr@ == raw@ && why@ == reason,
        },
{
    if count_char_exec(s, '@') > 1 {
        return Err(invalid_ref(raw, "multiple @ symbols"));
    }
    let remainder: Vec<char>;
    let version: Vec<char>;
    match rfind_char_exec(s, '@') {
        Some(idx) => {
            proof {
                crate::text::lemma_rfind_bounds(s@, '@');
            }
            assert(rfind_char(s@, '@') == Some(idx as int));
            assert(idx < s.len());
            if idx + 1 == s.len() {
                return Err(invalid_ref(raw, "empty version after @"));
            }
            remainder = slice(s, 0, idx);
            version = slice(s, idx + 1, s.len());
            assert(remainder@ == s@.take(idx as int));
            assert(version@ == s@.skip(idx + 1));
        },
        None => {
            remainder = slice(s, 0, s.len());
            version = Vec::new();
            assert(remainder@ == s@);
        },
    }
    let (base, variant) = split_first_exec(&remainder, &chars_of("::"));
    let fs = chars_of("file://");
    if starts_with_exec(&base, &fs) {
        let path = slice(&base, fs.len(), base.len());
        assert(path@ == base@.skip(file_scheme().len() as int));
        return Ok(PackageRef::Remote {
            source: RemoteSource::File { path: string_of(&path) },
            version: string_of(&version),
            subpath: String::new(),
            variant: string_of(&variant),
        });
    }
    let sep = chars_of("://");
    let no_scheme = match find_exec(&base, &sep) {
        Some(i) => {
            proof {
                crate::text::lemma_find_bounds(base@, sep@);
            }
            assert(find(base@, sep@) == Some(i as int));
            let k = sep.len();
            let n = base.len();
            assert(i + k <= n);
            let start: usize = i + k;
            let t = slice(&base, start, n);
            assert(t@ == base@.skip(i + scheme_sep().len()));
            t
        },
        None => slice(&base, 0, base.len()),
    };
    assert(base@.subrange(0, base@.len() as int) == base@);
    let clean = trim_end_matches_exec(&trim_end_matches_exec(&no_scheme, &chars_of(".git")), &chars_of("/"));
    let parts = split_char_exec(&clean, '/');
    let r = remote_from_parts(raw, &parts, version, variant);
    r
}

fn remote_from_parts(raw: &str, parts: &Vec<Vec<char>>, version: Vec<char>, variant: Vec<char>) -> (r: Result<PackageRef, SourceError>)
    ensures
        match spec_remote_from_parts(parts@.map_values(|v: Vec<char>| v@), version@, variant@) {
            Ok(m) => r matches Ok(p) && p@ == m,
            Err(reason) => r matches Err(SourceError::InvalidRef { raw: rr, reason: why })
                && rr@ == raw@ && why@ == reason,
        },
{
    let ghost views = parts@.map_values(|v: Vec<char>| v@);
    let mut i: usize = 0;
    while i < parts.len()
        invariant
            i <= parts.len(),
            views == parts@.map_values(|v: Vec<char>| v@),
            forall|j: int| 0 <= j < i ==> views[j].len() > 0,
        decreases parts.len() - i,
    {
        if parts[i].len() == 0 {
            assert(views[i as int].len() == 0);
            return Err(invalid_ref(raw, "empty segment"));
        }
        i += 1;
    }
    if parts.len() < 2 {
        return Err(invalid_ref(raw, "expected Owner/Repo or host.com/Owner/Repo[/sub/path] format"));
    }
    let host: String;
    let owner: String;
    let repo: String;
    let subpath: String;
    if parts.len() == 2 {
        host = string_of(&chars_of("github.com"));
        owner = string_of(&parts[0]);
        repo = string_of(&parts[1]);
        subpath = String::new();
    } else if contains_char_exec(&parts[0], '.') {
        host = string_of(&parts[0]);
        owner = string_of(&parts[1]);
        repo = string_of(&parts[2]);
        subpath = string_of(&join_exec(&tail_parts(parts, 3), &chars_of("/")));
    } else {
        host = string_of(&chars_of("github.com"));
        owner = string_of(&parts[0]);
        repo = string_of(&parts[1]);
        subpath = string_of(&join_exec(&tail_parts(parts, 2), &chars_of("/")));
    }
    Ok(PackageRef::Remote {
        source: RemoteSource::Git { host, owner, repo },
        version: string_of(&version),
        subpath,
        variant: string_of(&variant),
    })
}

/// Copies of `parts[from..]`.
fn tail_parts(parts: &Vec<Vec<char>>, from: usize) -> (r: Vec<Vec<char>>)
    requires
        from <= parts.len(),
    ensures
        r@.map_values(|v: Vec<char>| v@) == parts@.map_values(|v: Vec<char>| v@).skip(from as int),
{
    let mut out: Vec<Vec<char>> = Vec::new();
    let mut i = from;
    while i < parts.len()
        invariant
            from <= i <= parts.len(),
            out@.map_values(|v: Vec<char>| v@) == parts@.map_values(|v: Vec<char>| v@).subrange(from as int, i as int),
        decreases parts.len() - i,
    {
        let ghost before = out@.map_values(|v: Vec<char>| v@);
        let c = slice(&parts[i], 0, parts[i].len());
        assert(c@ =~= parts@[i as int]@);
        out.push(c);
        assert(out@.map_values(|v: Vec<char>| v@) =~= before.push(parts@[i as int]@));
        i += 1;
        assert(parts@.map_values(|v: Vec<char>| v@).subrange(from as int, i as int)
            == parts@.map_values(|v: Vec<char>| v@).subrange(from as int, i - 1).push(parts@[i - 1]@));
    }
    out
}

/// The identity of a package (its canonical id and where it is fetched
/// from) does not depend on the requested version or manifest variant.
pub proof fn law_identity_ignores_version_and_variant(m: PackageRefModel, v: Seq<char>)
    ensures
        m.with_version(v).canonical() == m.canonical(),
        m.with_variant(v).canonical() == m.canonical(),
        m.with_version(v).clone_url() == m.clone_url(),
        m.with_variant(v).clone_url() == m.clone_url(),
        m.with_version(v).is_local() == m.is_local(),
        m.with_variant(v).variant() == v,
        !m.is_local() ==> m.with_version(v).version() == v,
{
}

} // verus!
