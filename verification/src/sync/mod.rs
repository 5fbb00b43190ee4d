//! Keeping a target directory in step with a package's sources: the first
//! full copy, and the decisions taken for each file-system event after it.
pub mod pending;

use vstd::prelude::*;
use crate::manifest::{ContentItem, Manifest, ManifestError};
use crate::manifest::validate::{first_set, spec_source_roots, strings_view};
use crate::packages::path::PackagePath;
use crate::packages::transfer::{build_exclude, lemma_build_exclude_fits, spec_build_exclude};
use crate::radio::copy::{any_match, default_exclude, file_name, is_excluded, patterns_fit, spec_default_exclude};
use crate::text::{chars_of, path_join, path_join_exec, slice, starts_with, starts_with_exec, string_of, vec_eq};

verus! {

/// One file change that was carried over to the target.
#[derive(Debug)]
pub struct SyncEvent {
    pub op: String,
    pub rel_path: String,
}

/// What the initial sync works on.
pub struct SyncOptions<'a> {
    pub manifest: &'a Manifest,
    pub manifest_dir: &'a str,
    pub target_dir: &'a str,
    pub items: &'a [ContentItem],
}

/// What the watch phase works on.
pub struct WatchOptions<'a> {
    pub manifest: &'a Manifest,
    pub manifest_dir: &'a str,
    pub target_dir: &'a str,
    pub items: &'a [ContentItem],
}

/// The patterns a sync of an item leaves out: the default ones, then the
/// item's own.
pub open spec fn merged_exclude(extra: Seq<Seq<char>>) -> Seq<Seq<char>> {
    spec_default_exclude() + extra
}

/// The default exclude patterns followed by `extra`.
pub fn merge_default_exclude(extra: &[String]) -> (r: Vec<String>)
    ensures
        strings_view(r@) == merged_exclude(strings_view(extra@)),
{
    let mut out = default_exclude();
    let mut i: usize = 0;
    while i < extra.len()
        invariant
            i <= extra.len(),
            strings_view(out@) == spec_default_exclude() + strings_view(extra@).take(i as int),
        decreases extra.len() - i,
    {
        let s = extra[i].clone();
        let ghost before = out@;
        out.push(s);
        proof {
            assert(out@ == before.push(s));
            assert(strings_view(out@) == strings_view(before).push(s@));
            assert(strings_view(extra@).take(i + 1) == strings_view(extra@).take(i as int).push(extra@[i as int]@));
        }
        i += 1;
    }
    proof {
        assert(strings_view(extra@).take(i as int) == strings_view(extra@));
    }
    out
}

/// `rel` is the item's path or lies below it: the item's path is a prefix
/// that ends at a `/` of `rel` or at its end.
pub open spec fn lies_under(rel: Seq<char>, item_path: Seq<char>) -> bool {
    starts_with(rel, item_path) && (rel.len() == item_path.len() || rel[item_path.len() as int] == '/')
}

/// The first item from `i` on that `rel` lies under, or the number of items.
pub open spec fn first_item_under(rel: Seq<char>, items: Seq<ContentItem>, i: int) -> int
    decreases items.len() - i,
{
    if i >= items.len() {
        items.len() as int
    } else if lies_under(rel, items[i].path@) {
        i
    } else {
        first_item_under(rel, items, i + 1)
    }
}

proof fn lemma_first_item_under_bounds(rel: Seq<char>, items: Seq<ContentItem>, i: int)
    requires
        0 <= i <= items.len(),
    ensures
        i <= first_item_under(rel, items, i) <= items.len(),
    decreases items.len() - i,
{
    if i < items.len() && !lies_under(rel, items[i].path@) {
        lemma_first_item_under_bounds(rel, items, i + 1);
    }
}

/// The content item a relative path belongs to: the first whose path is the
/// relative path or one of its parent directories.
pub fn find_manifest_item<'a>(rel_path: &str, items: &'a [ContentItem]) -> (r: Option<&'a ContentItem>)
    ensures
        first_item_under(rel_path@, items@, 0) <= items@.len(),
        first_item_under(rel_path@, items@, 0) < items@.len() ==> (r matches Some(it)
            && *it == items@[first_item_under(rel_path@, items@, 0)]),
        first_item_under(rel_path@, items@, 0) == items@.len() ==> r is None,
{
    proof {
        lemma_first_item_under_bounds(rel_path@, items@, 0);
    }
    let rel = chars_of(rel_path);
    let mut i: usize = 0;
    while i < items.len()
        invariant
            i <= items.len(),
            rel@ == rel_path@,
            first_item_under(rel_path@, items@, 0) == first_item_under(rel_path@, items@, i as int),
        decreases items.len() - i,
    {
        let p = chars_of(items[i].path.as_str());
        if starts_with_exec(&rel, &p) && (rel.len() == p.len() || rel[p.len()] == '/') {
            return Some(&items[i]);
        }
        i += 1;
    }
    None
}

/// `path` relative to `root`, as `Path::strip_prefix` gives it for paths
/// written without `.` or doubled separators: none where `root` is not a
/// leading run of whole components of `path`.
pub open spec fn strip_root(path: Seq<char>, root: Seq<char>) -> Option<Seq<char>> {
    if root.len() == 0 {
        Some(path)
    } else if path == root {
        Some(Seq::<char>::empty())
    } else if root.last() == '/' && starts_with(path, root) {
        Some(path.skip(root.len() as int))
    } else if starts_with(path, root + "/"@) {
        Some(path.skip(root.len() + 1int))
    } else {
        None
    }
}

/// `path` relative to `root`, if `root` leads it.
pub fn strip_root_exec(path: &str, root: &str) -> (r: Option<String>)
    ensures
        match r {
            Some(rel) => strip_root(path@, root@) == Some(rel@),
            None => strip_root(path@, root@) is None,
        },
{
    let p = chars_of(path);
    let mut rt = chars_of(root);
    if rt.len() == 0 {
        return Some(string_of(&p));
    }
    if vec_eq(&p, &rt) {
        return Some(String::new());
    }
    if rt[rt.len() - 1] == '/' && starts_with_exec(&p, &rt) {
        let rest = slice(&p, rt.len(), p.len());
        proof {
            assert(rest@ == path@.skip(root@.len() as int));
        }
        return Some(string_of(&rest));
    }
    rt.push('/');
    proof {
        reveal_strlit("/");
        assert(rt@ == root@ + "/"@);
    }
    if starts_with_exec(&p, &rt) {
        let rest = slice(&p, rt.len(), p.len());
        proof {
            assert(rest@ == path@.skip(root@.len() + 1int));
        }
        return Some(string_of(&rest));
    }
    None
}

/// `root` leads `path`, and what is left of `path` lies under some item.
pub open spec fn root_matches(path: Seq<char>, root: Seq<char>, items: Seq<ContentItem>) -> bool {
    match strip_root(path, root) {
        Some(rel) => first_item_under(rel, items, 0) < items.len(),
        None => false,
    }
}

/// The first source root from `i` on that matches, or the number of roots.
pub open spec fn first_matching_root(path: Seq<char>, roots: Seq<Seq<char>>, items: Seq<ContentItem>, i: int) -> int
    decreases roots.len() - i,
{
    if i >= roots.len() {
        roots.len() as int
    } else if root_matches(path, roots[i], items) {
        i
    } else {
        first_matching_root(path, roots, items, i + 1)
    }
}

/// A file whose name matches one of the patterns is left alone.
pub open spec fn excluded(path: Seq<char>, patterns: Seq<Seq<char>>) -> bool {
    match file_name(path) {
        Some(n) => any_match(patterns, n),
        None => false,
    }
}

/// What the watch phase does about a changed path.
#[derive(Debug)]
pub enum SyncAction {
    /// Copy `rel_path` from `source_root` to `dest`, skipping `exclude`.
    Copy { source_root: String, rel_path: String, dest: String, exclude: Vec<String> },
    /// Delete `dest`, file or directory tree.
    Remove { rel_path: String, dest: String },
    /// Nothing to do.
    Ignore,
}

/// The model of a [`SyncAction`].
pub enum SyncActionModel {
    Copy { source_root: Seq<char>, rel_path: Seq<char>, dest: Seq<char>, exclude: Seq<Seq<char>> },
    Remove { rel_path: Seq<char>, dest: Seq<char> },
    Ignore,
}

impl View for SyncAction {
    type V = SyncActionModel;

    open spec fn view(&self) -> SyncActionModel {
        match self {
            SyncAction::Copy { source_root, rel_path, dest, exclude } => SyncActionModel::Copy {
                source_root: source_root@,
                rel_path: rel_path@,
                dest: dest@,
                exclude: strings_view(exclude@),
            },
            SyncAction::Remove { rel_path, dest } => SyncActionModel::Remove { rel_path: rel_path@, dest: dest@ },
            SyncAction::Ignore => SyncActionModel::Ignore,
        }
    }
}

/// What a change of `path` calls for. The path is matched against the
/// source roots in order; the first root that leads it to a content item
/// decides. An excluded file is left alone; otherwise a path that is now a
/// file is copied, one that no longer exists is removed from the target,
/// and anything else (a directory) is left to its own files' events.
pub open spec fn spec_process_event(
    path: Seq<char>,
    roots: Seq<Seq<char>>,
    items: Seq<ContentItem>,
    target_dir: Seq<char>,
    binary: bool,
    is_file: bool,
    exists: bool,
) -> SyncActionModel {
    let k = first_matching_root(path, roots, items, 0);
    if k >= roots.len() {
        SyncActionModel::Ignore
    } else {
        let rel = strip_root(path, roots[k]).unwrap();
        let item = items[first_item_under(rel, items, 0)];
        let ex = spec_build_exclude(binary, strings_view(item.exclude@));
        let dest = path_join(target_dir, rel);
        if excluded(path, ex) {
            SyncActionModel::Ignore
        } else if is_file {
            SyncActionModel::Copy { source_root: roots[k], rel_path: rel, dest, exclude: ex }
        } else if !exists {
            SyncActionModel::Remove { rel_path: rel, dest }
        } else {
            SyncActionModel::Ignore
        }
    }
}

impl SyncAction {
    /// The event reported for the action: `copy` or `remove` with the
    /// relative path; none for an ignored change.
    pub fn sync_event(&self) -> (r: Option<SyncEvent>)
        ensures
            match self@ {
                SyncActionModel::Copy { rel_path, .. } => r matches Some(e) && e.op@ == "copy"@ && e.rel_path@ == rel_path,
                SyncActionModel::Remove { rel_path, .. } => r matches Some(e) && e.op@ == "remove"@ && e.rel_path@ == rel_path,
                SyncActionModel::Ignore => r is None,
            },
    {
        match self {
            SyncAction::Copy { rel_path, .. } => Some(SyncEvent { op: "copy".to_owned(), rel_path: rel_path.clone() }),
            SyncAction::Remove { rel_path, .. } => Some(SyncEvent { op: "remove".to_owned(), rel_path: rel_path.clone() }),
            SyncAction::Ignore => None,
        }
    }
}

proof fn lemma_first_matching_root_bounds(path: Seq<char>, roots: Seq<Seq<char>>, items: Seq<ContentItem>, i: int)
    requires
        0 <= i <= roots.len(),
    ensures
        i <= first_matching_root(path, roots, items, i) <= roots.len(),
    decreases roots.len() - i,
{
    if i < roots.len() && !root_matches(path, roots[i], items) {
        lemma_first_matching_root_bounds(path, roots, items, i + 1);
    }
}

proof fn lemma_first_matching_root_hit(path: Seq<char>, roots: Seq<Seq<char>>, items: Seq<ContentItem>, i: int)
    requires
        0 <= i <= roots.len(),
        first_matching_root(path, roots, items, i) < roots.len(),
    ensures
        root_matches(path, roots[first_matching_root(path, roots, items, i)], items),
    decreases roots.len() - i,
{
    if i < roots.len() && !root_matches(path, roots[i], items) {
        lemma_first_matching_root_hit(path, roots, items, i + 1);
    }
}

pub(crate) proof fn lemma_first_set_bounds(flags: Seq<bool>, i: int)
    requires
        0 <= i <= flags.len(),
    ensures
        i <= first_set(flags, i) <= flags.len(),
    decreases flags.len() - i,
{
    if i < flags.len() && !flags[i] {
        lemma_first_set_bounds(flags, i + 1);
    }
}

/// Decides what a change of `path` calls for; the caller tells whether the
/// path is now a file and whether it exists at all.
pub fn process_event(path: &str, opts: &WatchOptions, path_is_file: bool, path_exists: bool) -> (r: SyncAction)
    requires
        forall|i: int| 0 <= i < opts.items@.len() ==> patterns_fit(#[trigger] strings_view(opts.items@[i].exclude@)),
    ensures
        r@ == spec_process_event(
            path@,
            spec_source_roots(opts.manifest, opts.manifest_dir@),
            opts.items@,
            opts.target_dir@,
            opts.manifest.package.binary,
            path_is_file,
            path_exists,
        ),
{
    let roots = opts.manifest.source_roots(opts.manifest_dir);
    let ghost rv = strings_view(roots@);
    proof {
        lemma_first_matching_root_bounds(path@, rv, opts.items@, 0);
    }
    let mut i: usize = 0;
    let mut found: Option<(usize, String)> = None;
    while i < roots.len()
        invariant_except_break
            found is None,
            first_matching_root(path@, rv, opts.items@, 0) == first_matching_root(path@, rv, opts.items@, i as int),
        invariant
            i <= roots.len(),
            rv == strings_view(roots@),
            rv == spec_source_roots(opts.manifest, opts.manifest_dir@),
        ensures
            match found {
                Some((k, rel)) => k == first_matching_root(path@, rv, opts.items@, 0) && k < roots.len()
                    && strip_root(path@, rv[k as int]) == Some(rel@),
                None => first_matching_root(path@, rv, opts.items@, 0) == roots.len(),
            },
        decreases roots.len() - i,
    {
        proof {
            assert(rv[i as int] == roots@[i as int]@);
        }
        match strip_root_exec(path, roots[i].as_str()) {
            Some(rel) => {
                if find_manifest_item(rel.as_str(), opts.items).is_some() {
                    found = Some((i, rel));
                    break;
                }
            }
            None => {}
        }
        i += 1;
    }
    let (k, rel) = match found {
        Some(f) => f,
        None => return SyncAction::Ignore,
    };
    proof {
        lemma_first_matching_root_hit(path@, rv, opts.items@, 0);
    }
    let item = match find_manifest_item(rel.as_str(), opts.items) {
        Some(it) => it,
        None => return SyncAction::Ignore,
    };
    let exclude = build_exclude(opts.manifest.package.binary, item);
    proof {
        lemma_first_item_under_bounds(rel@, opts.items@, 0);
        let kk = first_item_under(rel@, opts.items@, 0);
        assert(0 <= kk < opts.items@.len());
        assert(patterns_fit(strings_view(opts.items@[kk].exclude@)));
        assert(strings_view(opts.items@[kk].exclude@) == strings_view(item.exclude@));
        lemma_build_exclude_fits(opts.manifest.package.binary, strings_view(item.exclude@));
        assert(exclude@.map_values(|s: String| s@) == strings_view(exclude@));
    }
    if is_excluded(path, &exclude) {
        return SyncAction::Ignore;
    }
    let dest = path_join_exec(opts.target_dir, rel.as_str());
    if path_is_file {
        proof {
            assert(rv[k as int] == roots@[k as int]@);
        }
        SyncAction::Copy { source_root: roots[k].clone(), rel_path: rel, dest, exclude }
    } else if !path_exists {
        SyncAction::Remove { rel_path: rel, dest }
    } else {
        SyncAction::Ignore
    }
}

/// One copy the initial sync makes: the item's path, from the source root
/// that holds it, to the same path under the target.
#[derive(Debug)]
pub struct ItemCopy {
    pub source_root: String,
    pub path: PackagePath,
    pub exclude: Vec<String>,
}

/// The copy of item `i`, or the error that stops the sync there.
pub open spec fn item_copy_outcome(
    roots: Seq<Seq<char>>,
    binary: bool,
    item: ContentItem,
    root_has_path: Seq<bool>,
    r: Result<ItemCopy, ManifestError>,
) -> bool {
    let k = first_set(root_has_path, 0);
    if k < root_has_path.len() {
        r matches Ok(c) && c.source_root@ == roots[k] && c.path@ == item.path@
            && strings_view(c.exclude@) == spec_build_exclude(binary, strings_view(item.exclude@))
    } else {
        r matches Err(ManifestError::ContentPathNotFound { path }) && path@ == item.path@
    }
}

/// The copies of a first full sync, one per item in order: each from the
/// first source root that holds the item's path (`root_has_path[i][j]`
/// tells whether root `j` holds item `i`), skipping the item's own exclude
/// patterns and, unless the package ships bytecode (`binary`), the default
/// ones; an item that no root holds gives the error
/// at which the sync stops.
pub fn initial_sync(opts: &SyncOptions, root_has_path: &[Vec<bool>]) -> (r: Vec<Result<ItemCopy, ManifestError>>)
    requires
        root_has_path@.len() == opts.items@.len(),
        forall|i: int| 0 <= i < root_has_path@.len() ==> #[trigger] root_has_path@[i]@.len()
            == spec_source_roots(opts.manifest, opts.manifest_dir@).len(),
    ensures
        r@.len() == opts.items@.len(),
        forall|i: int| 0 <= i < r@.len() ==> item_copy_outcome(
            spec_source_roots(opts.manifest, opts.manifest_dir@),
            opts.manifest.package.binary,
            opts.items@[i],
            root_has_path@[i]@,
            #[trigger] r@[i],
        ),
{
    let ghost roots = spec_source_roots(opts.manifest, opts.manifest_dir@);
    let mut out: Vec<Result<ItemCopy, ManifestError>> = Vec::new();
    let mut i: usize = 0;
    while i < opts.items.len()
        invariant
            i <= opts.items.len(),
            root_has_path@.len() == opts.items@.len(),
            roots == spec_source_roots(opts.manifest, opts.manifest_dir@),
            forall|j: int| 0 <= j < root_has_path@.len() ==> #[trigger] root_has_path@[j]@.len() == roots.len(),
            out@.len() == i,
            forall|j: int| 0 <= j < i ==> item_copy_outcome(roots, opts.manifest.package.binary, opts.items@[j], root_has_path@[j]@, #[trigger] out@[j]),
        decreases opts.items.len() - i,
    {
        let item = &opts.items[i];
        let flags = &root_has_path[i];
        proof {
            lemma_first_set_bounds(flags@, 0);
        }
        let outcome = match opts.manifest.resolve_content_path(opts.manifest_dir, &item.path, flags.as_slice()) {
            Ok(root) => Ok(ItemCopy {
                source_root: root,
                path: item.path.clone(),
                exclude: build_exclude(opts.manifest.package.binary, item),
            }),
            Err(e) => Err(e),
        };
        out.push(outcome);
        i += 1;
    }
    out
}

} // verus!
