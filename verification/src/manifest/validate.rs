//! Manifest validation, and where a manifest's content lives.
use vstd::prelude::*;
use super::{
    items_view, spec_content_items, Author, ContentItem, ContentItemModel, Manifest, ManifestError,
    UrlEntry, Variant, content_groups,
};
use crate::packages::path::PackagePath;
use crate::source::version::{semver_is_valid, semver_parses};
use crate::text::{
    append, chars_of, debug_quote, debug_quoted, ends_with, ends_with_exec, path_join,
    path_join_exec, starts_with_char, string_of, trim_start_matches, trim_start_matches_exec,
    vec_eq, join, join_exec, is_ascii_alnum, is_ascii_alnum_exec, count_char, count_char_exec,
};

verus! {

// ---------------------------------------------------------------------------
// Outside checks
// ---------------------------------------------------------------------------

/// Whether `email_address::EmailAddress::is_valid` accepts the address.
pub uninterp spec fn email_valid(address: Seq<char>) -> bool;

/// Whether `spdx::Expression::parse` accepts the expression.
pub uninterp spec fn spdx_valid(expression: Seq<char>) -> bool;

/// Whether `url::Url::parse` accepts the URL.
pub uninterp spec fn url_valid(url: Seq<char>) -> bool;

/// How a list of strings is shown: in brackets, separated by `, `, each
/// quoted and escaped as `{:?}` shows a string.
pub open spec fn debug_string_list(items: Seq<Seq<char>>) -> Seq<char> {
    "["@ + join(items.map_values(|p: Seq<char>| debug_quoted(p)), ", "@) + "]"@
}

/// How a list of package paths is shown: in brackets, separated by `, `,
/// each as `PackagePath(` and its quoted text and `)`.
pub open spec fn debug_path_list(items: Seq<Seq<char>>) -> Seq<char> {
    "["@ + join(items.map_values(|p: Seq<char>| "PackagePath("@ + debug_quoted(p) + ")"@), ", "@) + "]"@
}

/// `email_address::EmailAddress::is_valid(address)`.
#[verifier::external_body]
fn email_is_valid(address: &str) -> (r: bool)
    ensures
        r == email_valid(address@),
{
    email_address::EmailAddress::is_valid(address)
}

/// `spdx::Expression::parse(expression).is_ok()`.
#[verifier::external_body]
fn spdx_is_valid(expression: &str) -> (r: bool)
    ensures
        r == spdx_valid(expression@),
{
    spdx::Expression::parse(expression).is_ok()
}

/// `url::Url::parse(url).is_ok()`.
#[verifier::external_body]
fn url_is_valid(url: &str) -> (r: bool)
    ensures
        r == url_valid(url@),
{
    url::Url::parse(url).is_ok()
}

/// A list of strings as it is shown in messages.
pub(crate) fn debug_strings(items: &Vec<String>) -> (r: String)
    ensures
        r@ == debug_string_list(items@.map_values(|s: String| s@)),
{
    let ghost iv = items@.map_values(|s: String| s@);
    let ghost shown = iv.map_values(|p: Seq<char>| debug_quoted(p));
    let mut parts: Vec<Vec<char>> = Vec::new();
    let mut i: usize = 0;
    while i < items.len()
        invariant
            i <= items.len(),
            iv == items@.map_values(|s: String| s@),
            shown == iv.map_values(|p: Seq<char>| debug_quoted(p)),
            parts@.map_values(|v: Vec<char>| v@) == shown.take(i as int),
        decreases items.len() - i,
    {
        let part = chars_of(debug_quote(items[i].as_str()).as_str());
        let ghost before = parts@;
        parts.push(part);
        proof {
            assert(iv[i as int] == items@[i as int]@);
            assert(parts@.map_values(|v: Vec<char>| v@) =~= before.map_values(|v: Vec<char>| v@).push(shown[i as int]));
            assert(shown.take(i + 1) =~= shown.take(i as int).push(shown[i as int]));
        }
        i += 1;
    }
    assert(shown.take(items.len() as int) == shown);
    let mut out = chars_of("[");
    append(&mut out, &join_exec(&parts, &chars_of(", ")));
    append(&mut out, &chars_of("]"));
    string_of(&out)
}

/// A list of package paths as it is shown in messages.
fn debug_paths(paths: &Vec<PackagePath>) -> (r: String)
    ensures
        r@ == debug_path_list(paths@.map_values(|p: PackagePath| p@)),
{
    let ghost pv = paths@.map_values(|p: PackagePath| p@);
    let ghost shown = pv.map_values(|p: Seq<char>| "PackagePath("@ + debug_quoted(p) + ")"@);
    let mut parts: Vec<Vec<char>> = Vec::new();
    let mut i: usize = 0;
    while i < paths.len()
        invariant
            i <= paths.len(),
            pv == paths@.map_values(|p: PackagePath| p@),
            shown == pv.map_values(|p: Seq<char>| "PackagePath("@ + debug_quoted(p) + ")"@),
            parts@.map_values(|v: Vec<char>| v@) == shown.take(i as int),
        decreases paths.len() - i,
    {
        let mut part = chars_of("PackagePath(");
        append(&mut part, &chars_of(debug_quote(paths[i].as_str()).as_str()));
        append(&mut part, &chars_of(")"));
        let ghost before = parts@;
        parts.push(part);
        proof {
            assert(pv[i as int] == paths@[i as int]@);
            assert(parts@.map_values(|v: Vec<char>| v@) =~= before.map_values(|v: Vec<char>| v@).push(shown[i as int]));
            assert(shown.take(i + 1) =~= shown.take(i as int).push(shown[i as int]));
        }
        i += 1;
    }
    assert(shown.take(paths.len() as int) == shown);
    let mut out = chars_of("[");
    append(&mut out, &join_exec(&parts, &chars_of(", ")));
    append(&mut out, &chars_of("]"));
    string_of(&out)
}

// ---------------------------------------------------------------------------
// Source roots and content paths
// ---------------------------------------------------------------------------

/// A character that may follow the first one of an id segment: an ASCII
/// letter or digit, `_`, `.` or `-`.
pub open spec fn id_segment_char(c: char) -> bool {
    is_ascii_alnum(c) || c == '_' || c == '.' || c == '-'
}

/// Whether an id has the form of the documented rule: each `/`-separated
/// segment matches `^[a-zA-Z0-9][a-zA-Z0-9_.-]*$`. Character by character:
/// a segment starts (at the start or after a `/`) with a letter or digit,
/// goes on with segment characters, and the id does not end with a `/`.
pub open spec fn valid_id(id: Seq<char>) -> bool {
    &&& id.len() > 0
    &&& id.last() != '/'
    &&& forall|i: int| 0 <= i < id.len() ==> #[trigger] id_char_fits(id, i)
}

/// Whether the character at `i` fits where it stands: a letter or digit at
/// the start of a segment, a segment character or `/` elsewhere.
pub open spec fn id_char_fits(id: Seq<char>, i: int) -> bool {
    if i == 0 || id[i - 1] == '/' {
        is_ascii_alnum(id[i])
    } else {
        id_segment_char(id[i]) || id[i] == '/'
    }
}

/// Checks a package id against the segment rule.
pub fn valid_id_exec(id: &str) -> (r: bool)
    ensures
        r == valid_id(id@),
{
    let v = chars_of(id);
    if v.len() == 0 || v[v.len() - 1] == '/' {
        return false;
    }
    let mut i: usize = 0;
    while i < v.len()
        invariant
            i <= v.len(),
            v@ == id@,
            forall|j: int| 0 <= j < i ==> #[trigger] id_char_fits(v@, j),
        decreases v.len() - i,
    {
        let c = v[i];
        let ok = if i == 0 || v[i - 1] == '/' {
            is_ascii_alnum_exec(c)
        } else {
            is_ascii_alnum_exec(c) || c == '_' || c == '.' || c == '-' || c == '/'
        };
        if !ok {
            assert(!id_char_fits(v@, i as int));
            return false;
        }
        assert(id_char_fits(v@, i as int));
        i += 1;
    }
    true
}

/// A character of a plain id: an ASCII letter or digit, `_` or `-`.
pub open spec fn plain_id_char(c: char) -> bool {
    is_ascii_alnum(c) || c == '_' || c == '-'
}

/// A plain id, `^[a-zA-Z0-9][a-zA-Z0-9_-]*$`: a single name.
pub open spec fn plain_id(id: Seq<char>) -> bool {
    &&& id.len() > 0
    &&& is_ascii_alnum(id[0])
    &&& forall|i: int| 0 <= i < id.len() ==> plain_id_char(#[trigger] id[i])
}

/// The first segment of an id (its host) holds a dot.
pub open spec fn dotted_host(id: Seq<char>) -> bool {
    exists|i: int| 0 <= i < id.len() && #[trigger] id[i] == '.' && forall|j: int| 0 <= j < i ==> id[j] != '/'
}

/// A repository id, `host/owner/repo[/subpath]`: at least three segments,
/// each matching `^[a-zA-Z0-9][a-zA-Z0-9_.-]*$`, and a dotted host.
pub open spec fn hosted_id(id: Seq<char>) -> bool {
    &&& valid_id(id)
    &&& count_char(id, '/') >= 2
    &&& dotted_host(id)
}

/// The ids a manifest may declare: a plain name, or a repository id.
pub open spec fn accepted_id(id: Seq<char>) -> bool {
    plain_id(id) || hosted_id(id)
}

fn plain_id_exec(v: &Vec<char>) -> (r: bool)
    ensures
        r == plain_id(v@),
{
    if v.len() == 0 || !is_ascii_alnum_exec(v[0]) {
        return false;
    }
    let mut i: usize = 0;
    while i < v.len()
        invariant
            i <= v.len(),
            forall|j: int| 0 <= j < i ==> plain_id_char(#[trigger] v@[j]),
        decreases v.len() - i,
    {
        let c = v[i];
        if !(is_ascii_alnum_exec(c) || c == '_' || c == '-') {
            assert(!plain_id_char(v@[i as int]));
            return false;
        }
        i += 1;
    }
    true
}

fn dotted_host_exec(v: &Vec<char>) -> (r: bool)
    ensures
        r == dotted_host(v@),
{
    let mut i: usize = 0;
    while i < v.len()
        invariant
            i <= v.len(),
            forall|j: int| 0 <= j < i ==> v@[j] != '/' && v@[j] != '.',
        decreases v.len() - i,
    {
        if v[i] == '.' {
            return true;
        }
        if v[i] == '/' {
            proof {
                assert forall|k: int| 0 <= k < v@.len() && #[trigger] v@[k] == '.' implies exists|j: int| 0 <= j < k && v@[j] == '/' by {
                    assert(k > i);
                    assert(v@[i as int] == '/');
                }
            }
            return false;
        }
        i += 1;
    }
    false
}

/// Checks a package id: a plain name, or a repository id.
pub fn accepted_id_exec(id: &str) -> (r: bool)
    ensures
        r == accepted_id(id@),
{
    let v = chars_of(id);
    if plain_id_exec(&v) {
        return true;
    }
    valid_id_exec(id) && count_char_exec(&v, '/') >= 2 && dotted_host_exec(&v)
}

/// What the message about a refused id says after the id.
pub open spec fn id_rule_text() -> Seq<char> {
    " must contain only alphanumeric characters, dashes, and underscores, or be host/owner/repo with a dotted host"@
}

/// The source directories: the manifest's directory, or each declared
/// source directory joined to it.
pub open spec fn spec_source_roots(m: &Manifest, manifest_dir: Seq<char>) -> Seq<Seq<char>> {
    if m.package.source_dir.0@.len() == 0 {
        seq![manifest_dir]
    } else {
        m.package.source_dir.0@.map_values(|d: String| path_join(manifest_dir, d@))
    }
}

/// The first index from `i` on whose flag is set, or the length.
pub open spec fn first_set(flags: Seq<bool>, i: int) -> int
    decreases flags.len() - i,
{
    if i >= flags.len() {
        flags.len() as int
    } else if flags[i] {
        i
    } else {
        first_set(flags, i + 1)
    }
}

/// The first index from `i` on whose flag is clear, or the length.
pub open spec fn first_clear(flags: Seq<bool>, i: int) -> int
    decreases flags.len() - i,
{
    if i >= flags.len() {
        flags.len() as int
    } else if !flags[i] {
        i
    } else {
        first_clear(flags, i + 1)
    }
}

fn first_set_exec(flags: &[bool]) -> (r: usize)
    ensures
        r == first_set(flags@, 0),
        r <= flags@.len(),
{
    let mut i: usize = 0;
    while i < flags.len()
        invariant
            i <= flags.len(),
            first_set(flags@, 0) == first_set(flags@, i as int),
        decreases flags.len() - i,
    {
        if flags[i] {
            return i;
        }
        i += 1;
    }
    i
}

fn first_clear_exec(flags: &[bool]) -> (r: usize)
    ensures
        r == first_clear(flags@, 0),
        r <= flags@.len(),
{
    let mut i: usize = 0;
    while i < flags.len()
        invariant
            i <= flags.len(),
            first_clear(flags@, 0) == first_clear(flags@, i as int),
        decreases flags.len() - i,
    {
        if !flags[i] {
            return i;
        }
        i += 1;
    }
    i
}

impl Manifest {
    /// The source directories of the package.
    pub fn source_roots(&self, manifest_dir: &str) -> (r: Vec<String>)
        ensures
            r@.map_values(|s: String| s@) == spec_source_roots(self, manifest_dir@),
    {
        let dirs = &self.package.source_dir.0;
        let mut out: Vec<String> = Vec::new();
        if dirs.len() == 0 {
            out.push(manifest_dir.to_owned());
            proof {
                assert(out@.map_values(|s: String| s@) == seq![manifest_dir@]);
            }
            return out;
        }
        let mut i: usize = 0;
        while i < dirs.len()
            invariant
                i <= dirs.len(),
                out@.map_values(|s: String| s@) == dirs@.map_values(|d: String| path_join(manifest_dir@, d@)).take(i as int),
            decreases dirs.len() - i,
        {
            let j = path_join_exec(manifest_dir, dirs[i].as_str());
            let ghost before = out@;
            out.push(j);
            proof {
                assert(out@ == before.push(j));
                let f = dirs@.map_values(|d: String| path_join(manifest_dir@, d@));
                assert(f.take(i + 1) == f.take(i as int).push(f[i as int]));
            }
            i += 1;
        }
        proof {
            let f = dirs@.map_values(|d: String| path_join(manifest_dir@, d@));
            assert(f.take(i as int) == f);
        }
        out
    }

    /// The source root that holds `content_path`: the first root whose flag
    /// in `root_has_path` is set (the program sets it where
    /// `<root>/<content_path>` exists).
    pub fn resolve_content_path(&self, manifest_dir: &str, content_path: &PackagePath, root_has_path: &[bool])
        -> (r: Result<String, ManifestError>)
        requires
            root_has_path@.len() == spec_source_roots(self, manifest_dir@).len(),
        ensures
            first_set(root_has_path@, 0) < root_has_path@.len() ==> (r matches Ok(root)
                && root@ == spec_source_roots(self, manifest_dir@)[first_set(root_has_path@, 0)]),
            first_set(root_has_path@, 0) == root_has_path@.len() ==> (r matches Err(ManifestError::ContentPathNotFound { path })
                && path@ == content_path@),
    {
        let roots = self.source_roots(manifest_dir);
        let k = first_set_exec(root_has_path);
        if k < roots.len() {
            proof {
                assert(roots@.map_values(|s: String| s@)[k as int] == roots@[k as int]@);
            }
            Ok(roots[k].clone())
        } else {
            Err(ManifestError::ContentPathNotFound { path: content_path.clone() })
        }
    }
}

// ---------------------------------------------------------------------------
// The checks, in the order they are made
// ---------------------------------------------------------------------------

/// The first author from `i` on with an email address that is not valid.
pub open spec fn first_bad_author(a: Seq<Author>, i: int) -> int
    decreases a.len() - i,
{
    if i >= a.len() {
        a.len() as int
    } else if a[i].email matches Some(e) && !email_valid(e@) {
        i
    } else {
        first_bad_author(a, i + 1)
    }
}

/// The first URL entry from `i` on whose URL is not valid.
pub open spec fn first_bad_url(u: Seq<UrlEntry>, i: int) -> int
    decreases u.len() - i,
{
    if i >= u.len() {
        u.len() as int
    } else if !url_valid(u[i].url@) {
        i
    } else {
        first_bad_url(u, i + 1)
    }
}

/// A variant manifest must be a `.yml` or `.yaml` file.
pub open spec fn variant_path_ok(p: Seq<char>) -> bool {
    ends_with(p, ".yml"@) || ends_with(p, ".yaml"@)
}

/// The first variant from `i` on whose path is not a YAML file.
pub open spec fn first_bad_variant(v: Seq<Variant>, i: int) -> int
    decreases v.len() - i,
{
    if i >= v.len() {
        v.len() as int
    } else if !variant_path_ok(v[i].path@) {
        i
    } else {
        first_bad_variant(v, i + 1)
    }
}

/// Some library has this name.
pub open spec fn has_lib(libs: Seq<ContentItemModel>, name: Seq<char>) -> bool {
    exists|i: int| 0 <= i < libs.len() && libs[i].name == name
}

/// Some dev library has this name.
pub open spec fn has_dev_lib(libs: Seq<ContentItemModel>, name: Seq<char>) -> bool {
    exists|i: int| 0 <= i < libs.len() && libs[i].name == name && libs[i].dev
}

/// The complaint about one dependency of an item, if any: an unknown
/// library (`dev_kind` false), or a dev library used by a non-dev item
/// (`dev_kind` true).
pub open spec fn dep_complaint(item: ContentItemModel, dep: Seq<char>, libs: Seq<ContentItemModel>, dev_kind: bool) -> Seq<Seq<char>> {
    if !dev_kind {
        if !has_lib(libs, dep) { seq![item.name + " depends on "@ + debug_quoted(dep)] } else { Seq::empty() }
    } else {
        if has_lib(libs, dep) && !item.dev && has_dev_lib(libs, dep) {
            seq![item.name + " depends on dev library "@ + debug_quoted(dep)]
        } else {
            Seq::empty()
        }
    }
}

/// The complaints about the first `n` dependencies of an item.
pub open spec fn item_complaints(item: ContentItemModel, n: int, libs: Seq<ContentItemModel>, dev_kind: bool) -> Seq<Seq<char>>
    decreases n,
{
    if n <= 0 {
        Seq::empty()
    } else {
        item_complaints(item, n - 1, libs, dev_kind) + dep_complaint(item, item.depends[n - 1], libs, dev_kind)
    }
}

/// The complaints about a list of items, in order.
pub open spec fn items_complaints(items: Seq<ContentItemModel>, libs: Seq<ContentItemModel>, dev_kind: bool) -> Seq<Seq<char>>
    decreases items.len(),
{
    if items.len() == 0 {
        Seq::empty()
    } else {
        items_complaints(items.drop_last(), libs, dev_kind)
            + item_complaints(items.last(), items.last().depends.len() as int, libs, dev_kind)
    }
}

/// The complaints about groups 1 to `n` (every group but the libraries).
pub open spec fn groups_complaints(groups: Seq<Seq<ContentItemModel>>, n: int, libs: Seq<ContentItemModel>, dev_kind: bool) -> Seq<Seq<char>>
    decreases n,
{
    if n <= 0 {
        Seq::empty()
    } else {
        groups_complaints(groups, n - 1, libs, dev_kind) + items_complaints(groups[n], libs, dev_kind)
    }
}

/// The dependency complaints of a manifest.
pub open spec fn dependency_complaints(m: &Manifest, dev_kind: bool) -> Seq<Seq<char>> {
    groups_complaints(content_groups(m), 8, items_view(m.libraries@), dev_kind)
}

/// The version text that is checked: a leading `v` added when missing, then
/// all leading `v`s removed.
pub open spec fn version_text(v: Seq<char>) -> Seq<char> {
    let sv = if v.len() > 0 && v[0] == 'v' { v } else { "v"@ + v };
    trim_start_matches(sv, "v"@)
}

/// What the file system says about a manifest's directory: whether each
/// screenshot exists, whether each source root is a directory, and whether
/// each content item (dev items included, in listing order) is found in a
/// source root.
pub struct FsFacts {
    pub screenshot_exists: Vec<bool>,
    pub root_is_dir: Vec<bool>,
    pub content_found: Vec<bool>,
}

/// The facts fit the manifest: one per screenshot, source root and item.
pub open spec fn facts_fit(m: &Manifest, manifest_dir: Seq<char>, f: &FsFacts) -> bool {
    &&& f.screenshot_exists@.len() == m.package.screenshots@.len()
    &&& f.root_is_dir@.len() == spec_source_roots(m, manifest_dir).len()
    &&& f.content_found@.len() == spec_content_items(m, true).len()
}

/// The paths of the items that were not found.
pub open spec fn missing_paths(items: Seq<ContentItemModel>, found: Seq<bool>) -> Seq<Seq<char>>
    decreases items.len(),
{
    if items.len() == 0 || found.len() < items.len() {
        Seq::empty()
    } else {
        let n = items.len() - 1;
        let rest = missing_paths(items.drop_last(), found.take(n));
        if found[n] { rest } else { rest.push(items.last().path) }
    }
}

/// The message of the first failed check, or `None` when the manifest is
/// valid.
pub open spec fn validation_failure(m: &Manifest, dir: Seq<char>, f: &FsFacts) -> Option<Seq<char>> {
    let p = m.package;
    let shots = p.screenshots@;
    let roots = spec_source_roots(m, dir);
    if p.id@.len() == 0 {
        Some("package id is required"@)
    } else if !accepted_id(p.id@) {
        Some("package id "@ + debug_quoted(p.id@) + id_rule_text())
    } else if p.description@.len() == 0 {
        Some("package description is required"@)
    } else if p.min_edgetx_version@.len() > 0 && !semver_parses(version_text(p.min_edgetx_version@)) {
        Some("min_edgetx_version "@ + debug_quoted(p.min_edgetx_version@) + " is not a valid semver version"@)
    } else if first_bad_author(p.authors@, 0) < p.authors@.len() {
        let a = p.authors@[first_bad_author(p.authors@, 0)];
        Some("invalid email "@ + debug_quoted(a.email->0@) + " for author "@ + debug_quoted(a.name@))
    } else if p.license@.len() > 0 && !spdx_valid(p.license@) {
        Some("license "@ + debug_quoted(p.license@)
            + " is not a valid SPDX expression (e.g. \"MIT\", \"GPL-3.0\", \"MIT OR Apache-2.0\")"@)
    } else if first_bad_url(p.urls@, 0) < p.urls@.len() {
        let u = p.urls@[first_bad_url(p.urls@, 0)];
        Some("url "@ + debug_quoted(u.url@) + " for "@ + debug_quoted(u.name@) + " is not a valid URL"@)
    } else if first_clear(f.screenshot_exists@, 0) < shots.len() {
        Some("screenshot "@ + debug_quoted(shots[first_clear(f.screenshot_exists@, 0)]@) + " not found"@)
    } else if first_bad_variant(p.variants@, 0) < p.variants@.len() {
        Some("variant path "@ + debug_quoted(p.variants@[first_bad_variant(p.variants@, 0)].path@)
            + " must end in .yml or .yaml"@)
    } else if dependency_complaints(m, false).len() > 0 {
        Some("unresolved library dependencies: "@ + debug_string_list(dependency_complaints(m, false)))
    } else if dependency_complaints(m, true).len() > 0 {
        Some("non-dev items depend on dev libraries: "@ + debug_string_list(dependency_complaints(m, true)))
    } else if first_clear(f.root_is_dir@, 0) < roots.len() {
        Some("source directory "@ + debug_quoted(roots[first_clear(f.root_is_dir@, 0)]) + " does not exist"@)
    } else if missing_paths(spec_content_items(m, true), f.content_found@).len() > 0 {
        Some("content paths not found: "@ + debug_path_list(missing_paths(spec_content_items(m, true), f.content_found@)))
    } else {
        None
    }
}

// ---------------------------------------------------------------------------
// Executable checks
// ---------------------------------------------------------------------------

/// The views of a list of strings.
pub open spec fn strings_view(v: Seq<String>) -> Seq<Seq<char>> {
    v.map_values(|s: String| s@)
}

fn has_lib_exec(libs: &Vec<ContentItem>, name: &str, dev_only: bool) -> (r: bool)
    ensures
        !dev_only ==> r == has_lib(items_view(libs@), name@),
        dev_only ==> r == has_dev_lib(items_view(libs@), name@),
{
    let ghost lv = items_view(libs@);
    let mut i: usize = 0;
    while i < libs.len()
        invariant
            i <= libs.len(),
            lv == items_view(libs@),
            forall|j: int| 0 <= j < i ==> !(lv[j].name == name@ && (!dev_only || lv[j].dev)),
        decreases libs.len() - i,
    {
        proof {
            assert(lv[i as int] == libs@[i as int]@);
        }
        if crate::text::str_eq(libs[i].name.as_str(), name) && (!dev_only || libs[i].dev) {
            return true;
        }
        i += 1;
    }
    false
}

/// Appends a message to a list of strings.
fn push_message(out: &mut Vec<String>, m: Vec<char>)
    ensures
        strings_view(final(out)@) == strings_view(old(out)@).push(m@),
{
    let s = string_of(&m);
    let ghost before = out@;
    out.push(s);
    proof {
        assert(out@ == before.push(s));
    }
}

fn item_complaints_exec(item: &ContentItem, libs: &Vec<ContentItem>, dev_kind: bool, out: &mut Vec<String>)
    ensures
        strings_view(final(out)@) == strings_view(old(out)@)
            + item_complaints(item@, item@.depends.len() as int, items_view(libs@), dev_kind),
{
    let ghost base = strings_view(out@);
    let ghost lv = items_view(libs@);
    let mut k: usize = 0;
    while k < item.depends.len()
        invariant
            k <= item.depends.len(),
            base == strings_view(old(out)@),
            lv == items_view(libs@),
            item@.depends.len() == item.depends@.len(),
            strings_view(out@) == base + item_complaints(item@, k as int, lv, dev_kind),
        decreases item.depends.len() - k,
    {
        let dep = item.depends[k].as_str();
        proof {
            assert(item@.depends[k as int] == dep@);
        }
        let known = has_lib_exec(libs, dep, false);
        if !dev_kind {
            if !known {
                let mut m = chars_of(item.name.as_str());
                append(&mut m, &chars_of(" depends on "));
                append(&mut m, &chars_of(debug_quote(dep).as_str()));
                push_message(out, m);
            }
        } else {
            if known && !item.dev && has_lib_exec(libs, dep, true) {
                let mut m = chars_of(item.name.as_str());
                append(&mut m, &chars_of(" depends on dev library "));
                append(&mut m, &chars_of(debug_quote(dep).as_str()));
                push_message(out, m);
            }
        }
        k += 1;
    }
}

fn items_complaints_exec(items: &Vec<ContentItem>, libs: &Vec<ContentItem>, dev_kind: bool, out: &mut Vec<String>)
    ensures
        strings_view(final(out)@) == strings_view(old(out)@) + items_complaints(items_view(items@), items_view(libs@), dev_kind),
{
    let ghost base = strings_view(out@);
    let ghost iv = items_view(items@);
    let mut i: usize = 0;
    while i < items.len()
        invariant
            i <= items.len(),
            base == strings_view(old(out)@),
            iv == items_view(items@),
            strings_view(out@) == base + items_complaints(iv.take(i as int), items_view(libs@), dev_kind),
        decreases items.len() - i,
    {
        proof {
            assert(iv.take(i + 1).drop_last() == iv.take(i as int));
            assert(iv.take(i + 1).last() == items@[i as int]@);
        }
        item_complaints_exec(&items[i], libs, dev_kind, out);
        i += 1;
    }
    proof {
        assert(iv.take(i as int) == iv);
    }
}

fn dependency_complaints_exec(m: &Manifest, dev_kind: bool) -> (r: Vec<String>)
    ensures
        strings_view(r@) == dependency_complaints(m, dev_kind),
{
    let ghost g = content_groups(m);
    let ghost lv = items_view(m.libraries@);
    let mut out: Vec<String> = Vec::new();
    assert(strings_view(out@) == groups_complaints(g, 0, lv, dev_kind));
    items_complaints_exec(&m.tools, &m.libraries, dev_kind, &mut out);
    assert(strings_view(out@) == groups_complaints(g, 1, lv, dev_kind));
    items_complaints_exec(&m.telemetry, &m.libraries, dev_kind, &mut out);
    assert(strings_view(out@) == groups_complaints(g, 2, lv, dev_kind));
    items_complaints_exec(&m.functions, &m.libraries, dev_kind, &mut out);
    assert(strings_view(out@) == groups_complaints(g, 3, lv, dev_kind));
    items_complaints_exec(&m.mixes, &m.libraries, dev_kind, &mut out);
    assert(strings_view(out@) == groups_complaints(g, 4, lv, dev_kind));
    items_complaints_exec(&m.widgets, &m.libraries, dev_kind, &mut out);
    assert(strings_view(out@) == groups_complaints(g, 5, lv, dev_kind));
    items_complaints_exec(&m.sounds, &m.libraries, dev_kind, &mut out);
    assert(strings_view(out@) == groups_complaints(g, 6, lv, dev_kind));
    items_complaints_exec(&m.images, &m.libraries, dev_kind, &mut out);
    assert(strings_view(out@) == groups_complaints(g, 7, lv, dev_kind));
    items_complaints_exec(&m.files, &m.libraries, dev_kind, &mut out);
    out
}

fn missing_paths_exec(items: &Vec<ContentItem>, found: &Vec<bool>) -> (r: Vec<PackagePath>)
    requires
        found@.len() == items@.len(),
    ensures
        r@.map_values(|p: PackagePath| p@) == missing_paths(items_view(items@), found@),
{
    let ghost iv = items_view(items@);
    let mut out: Vec<PackagePath> = Vec::new();
    let mut i: usize = 0;
    while i < items.len()
        invariant
            i <= items.len(),
            found@.len() == items@.len(),
            iv == items_view(items@),
            out@.map_values(|p: PackagePath| p@) == missing_paths(iv.take(i as int), found@.take(i as int)),
        decreases items.len() - i,
    {
        proof {
            assert(iv.take(i + 1).drop_last() == iv.take(i as int));
            assert(iv.take(i + 1).last() == items@[i as int]@);
            assert(found@.take(i + 1).take(i as int) == found@.take(i as int));
        }
        if !found[i] {
            let p = items[i].path.clone();
            let ghost before = out@;
            out.push(p);
            proof {
                assert(out@ == before.push(p));
            }
        }
        i += 1;
    }
    proof {
        assert(iv.take(i as int) == iv);
        assert(found@.take(i as int) == found@);
    }
    out
}

fn validation_error(dir: &str, m: Vec<char>) -> (e: ManifestError)
    ensures
        e matches ManifestError::Validation { path, message } && path@ == dir@ && message@ == m@,
{
    ManifestError::Validation { path: dir.to_owned(), message: string_of(&m) }
}

fn first_bad_author_exec(a: &Vec<Author>) -> (r: usize)
    ensures
        r == first_bad_author(a@, 0),
        r <= a@.len(),
{
    let mut i: usize = 0;
    while i < a.len()
        invariant
            i <= a.len(),
            first_bad_author(a@, 0) == first_bad_author(a@, i as int),
        decreases a.len() - i,
    {
        if let Some(e) = &a[i].email {
            if !email_is_valid(e.as_str()) {
                return i;
            }
        }
        i += 1;
    }
    i
}

fn first_bad_url_exec(u: &Vec<UrlEntry>) -> (r: usize)
    ensures
        r == first_bad_url(u@, 0),
        r <= u@.len(),
{
    let mut i: usize = 0;
    while i < u.len()
        invariant
            i <= u.len(),
            first_bad_url(u@, 0) == first_bad_url(u@, i as int),
        decreases u.len() - i,
    {
        if !url_is_valid(u[i].url.as_str()) {
            return i;
        }
        i += 1;
    }
    i
}

fn first_bad_variant_exec(v: &Vec<Variant>) -> (r: usize)
    ensures
        r == first_bad_variant(v@, 0),
        r <= v@.len(),
{
    let yml = chars_of(".yml");
    let yaml = chars_of(".yaml");
    let mut i: usize = 0;
    while i < v.len()
        invariant
            i <= v.len(),
            yml@ == ".yml"@,
            yaml@ == ".yaml"@,
            first_bad_variant(v@, 0) == first_bad_variant(v@, i as int),
        decreases v.len() - i,
    {
        let p = chars_of(v[i].path.as_str());
        if !ends_with_exec(&p, &yml) && !ends_with_exec(&p, &yaml) {
            return i;
        }
        i += 1;
    }
    i
}

impl Manifest {
    /// Checks the manifest: id, description, minimum firmware version,
    /// author emails, license, URLs, screenshots, variant paths, library
    /// dependencies, source directories and content paths, in that order;
    /// the first failure is the error. `facts` says what the file system
    /// holds under `manifest_dir`.
    pub fn validate(&self, manifest_dir: &str, facts: &FsFacts) -> (r: Result<(), ManifestError>)
        requires
            facts_fit(self, manifest_dir@, facts),
        ensures
            match validation_failure(self, manifest_dir@, facts) {
                None => r is Ok,
                Some(msg) => r matches Err(ManifestError::Validation { path, message })
                    && path@ == manifest_dir@ && message@ == msg,
            },
    {
        let p = &self.package;
        if p.id.as_str().is_empty() {
            return Err(validation_error(manifest_dir, chars_of("package id is required")));
        }
        if !accepted_id_exec(p.id.as_str()) {
            let mut m = chars_of("package id ");
            append(&mut m, &chars_of(debug_quote(p.id.as_str()).as_str()));
            append(&mut m, &chars_of(
                " must contain only alphanumeric characters, dashes, and underscores, or be host/owner/repo with a dotted host",
            ));
            return Err(validation_error(manifest_dir, m));
        }
        if p.description.as_str().is_empty() {
            return Err(validation_error(manifest_dir, chars_of("package description is required")));
        }
        if !p.min_edgetx_version.as_str().is_empty() {
            let v = chars_of(p.min_edgetx_version.as_str());
            let sv = if starts_with_char(&v, 'v') {
                v
            } else {
                let mut t = chars_of("v");
                append(&mut t, &v);
                t
            };
            let text = trim_start_matches_exec(&sv, &chars_of("v"));
            if !semver_is_valid(string_of(&text).as_str()) {
                let mut m = chars_of("min_edgetx_version ");
                append(&mut m, &chars_of(debug_quote(p.min_edgetx_version.as_str()).as_str()));
                append(&mut m, &chars_of(" is not a valid semver version"));
                return Err(validation_error(manifest_dir, m));
            }
        }
        let ba = first_bad_author_exec(&p.authors);
        if ba < p.authors.len() {
            let a = &p.authors[ba];
            match &a.email {
                Some(e) => {
                    let mut m = chars_of("invalid email ");
                    append(&mut m, &chars_of(debug_quote(e.as_str()).as_str()));
                    append(&mut m, &chars_of(" for author "));
                    append(&mut m, &chars_of(debug_quote(a.name.as_str()).as_str()));
                    return Err(validation_error(manifest_dir, m));
                },
                None => {
                    proof {
                        lemma_first_bad_author(p.authors@, 0);
                    }
                    assert(false);
                    return Ok(());
                },
            }
        }
        if !p.license.as_str().is_empty() && !spdx_is_valid(p.license.as_str()) {
            let mut m = chars_of("license ");
            append(&mut m, &chars_of(debug_quote(p.license.as_str()).as_str()));
            append(&mut m, &chars_of(" is not a valid SPDX expression (e.g. \"MIT\", \"GPL-3.0\", \"MIT OR Apache-2.0\")"));
            return Err(validation_error(manifest_dir, m));
        }
        let bu = first_bad_url_exec(&p.urls);
        if bu < p.urls.len() {
            let u = &p.urls[bu];
            let mut m = chars_of("url ");
            append(&mut m, &chars_of(debug_quote(u.url.as_str()).as_str()));
            append(&mut m, &chars_of(" for "));
            append(&mut m, &chars_of(debug_quote(u.name.as_str()).as_str()));
            append(&mut m, &chars_of(" is not a valid URL"));
            return Err(validation_error(manifest_dir, m));
        }
        let bs = first_clear_exec(facts.screenshot_exists.as_slice());
        if bs < p.screenshots.len() {
            let mut m = chars_of("screenshot ");
            append(&mut m, &chars_of(debug_quote(p.screenshots[bs].as_str()).as_str()));
            append(&mut m, &chars_of(" not found"));
            return Err(validation_error(manifest_dir, m));
        }
        let bv = first_bad_variant_exec(&p.variants);
        if bv < p.variants.len() {
            let mut m = chars_of("variant path ");
            append(&mut m, &chars_of(debug_quote(p.variants[bv].path.as_str()).as_str()));
            append(&mut m, &chars_of(" must end in .yml or .yaml"));
            return Err(validation_error(manifest_dir, m));
        }
        let unresolved = dependency_complaints_exec(self, false);
        if unresolved.len() > 0 {
            let mut m = chars_of("unresolved library dependencies: ");
            append(&mut m, &chars_of(debug_strings(&unresolved).as_str()));
            return Err(validation_error(manifest_dir, m));
        }
        let dev_errors = dependency_complaints_exec(self, true);
        if dev_errors.len() > 0 {
            let mut m = chars_of("non-dev items depend on dev libraries: ");
            append(&mut m, &chars_of(debug_strings(&dev_errors).as_str()));
            return Err(validation_error(manifest_dir, m));
        }
        let roots = self.source_roots(manifest_dir);
        let br = first_clear_exec(facts.root_is_dir.as_slice());
        if br < roots.len() {
            proof {
                assert(roots@.map_values(|s: String| s@)[br as int] == roots@[br as int]@);
            }
            let mut m = chars_of("source directory ");
            append(&mut m, &chars_of(debug_quote(roots[br].as_str()).as_str()));
            append(&mut m, &chars_of(" does not exist"));
            return Err(validation_error(manifest_dir, m));
        }
        let items = self.content_items(true);
        let missing = missing_paths_exec(&items, &facts.content_found);
        if missing.len() > 0 {
            let mut m = chars_of("content paths not found: ");
            append(&mut m, &chars_of(debug_paths(&missing).as_str()));
            return Err(validation_error(manifest_dir, m));
        }
        Ok(())
    }
}

proof fn lemma_first_bad_author(a: Seq<Author>, i: int)
    requires
        0 <= i <= a.len(),
    ensures
        i <= first_bad_author(a, i) <= a.len(),
        first_bad_author(a, i) < a.len() ==> (a[first_bad_author(a, i)].email matches Some(e) && !email_valid(e@)),
    decreases a.len() - i,
{
    if i < a.len() {
        lemma_first_bad_author(a, i + 1);
    }
}

} // verus!

verus! {

/// The items of a non-library content group: 1 tools, 2 telemetry,
/// 3 functions, 4 mixes, 5 widgets, 6 sounds, 7 images, 8 files.
pub open spec fn non_library_group(m: &Manifest, g: int) -> Seq<ContentItem> {
    if g == 1 { m.tools@ }
    else if g == 2 { m.telemetry@ }
    else if g == 3 { m.functions@ }
    else if g == 4 { m.mixes@ }
    else if g == 5 { m.widgets@ }
    else if g == 6 { m.sounds@ }
    else if g == 7 { m.images@ }
    else { m.files@ }
}

proof fn lemma_item_complains(item: ContentItemModel, n: int, libs: Seq<ContentItemModel>, d: int)
    requires
        0 <= d < n <= item.depends.len(),
        !has_lib(libs, item.depends[d]),
    ensures
        item_complaints(item, n, libs, false).len() > 0,
    decreases n,
{
    if d < n - 1 {
        lemma_item_complains(item, n - 1, libs, d);
    }
}

proof fn lemma_items_complain(items: Seq<ContentItemModel>, libs: Seq<ContentItemModel>, k: int, d: int)
    requires
        0 <= k < items.len(),
        0 <= d < items[k].depends.len(),
        !has_lib(libs, items[k].depends[d]),
    ensures
        items_complaints(items, libs, false).len() > 0,
    decreases items.len(),
{
    if k == items.len() - 1 {
        lemma_item_complains(items.last(), items.last().depends.len() as int, libs, d);
    } else {
        assert(items.drop_last()[k] == items[k]);
        lemma_items_complain(items.drop_last(), libs, k, d);
    }
}

proof fn lemma_groups_complain(groups: Seq<Seq<ContentItemModel>>, n: int, libs: Seq<ContentItemModel>, g: int)
    requires
        1 <= g <= n < groups.len(),
        items_complaints(groups[g], libs, false).len() > 0,
    ensures
        groups_complaints(groups, n, libs, false).len() > 0,
    decreases n,
{
    if g < n {
        lemma_groups_complain(groups, n - 1, libs, g);
    }
}

/// Every dependency of every tool, telemetry script, function, mix,
/// widget, sound, image and file must name a library: a manifest with one
/// that names no library is refused.
pub proof fn law_unknown_dependency_refused(m: &Manifest, dir: &str, facts: &FsFacts, r: Result<(), ManifestError>, g: int, k: int, d: int)
    requires
        call_ensures(Manifest::validate, (m, dir, facts), r),
        1 <= g <= 8,
        0 <= k < non_library_group(m, g).len(),
        0 <= d < non_library_group(m, g)[k].depends@.len(),
        forall|l: int| 0 <= l < m.libraries@.len()
            ==> #[trigger] m.libraries@[l].name@ != non_library_group(m, g)[k].depends@[d]@,
    ensures
        r matches Err(ManifestError::Validation { .. }),
{
    let groups = content_groups(m);
    let libs = items_view(m.libraries@);
    let item = non_library_group(m, g)[k];
    assert(groups[g] == items_view(non_library_group(m, g)));
    assert(groups[g][k] == item@);
    assert(item@.depends[d] == item.depends@[d]@);
    assert(!has_lib(libs, item@.depends[d])) by {
        if has_lib(libs, item@.depends[d]) {
            let l = choose|l: int| 0 <= l < libs.len() && libs[l].name == item@.depends[d];
            assert(libs[l] == m.libraries@[l]@);
        }
    }
    lemma_items_complain(groups[g], libs, k, d);
    lemma_groups_complain(groups, 8, libs, g);
    assert(dependency_complaints(m, false).len() > 0);
}

} // verus!
