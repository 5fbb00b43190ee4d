//! Putting a package's content on the SD card: the copies to make, the
//! files they skip, and the bytecode whose timestamps are set afterwards.
use vstd::prelude::*;
use crate::manifest::{copy_strings, items_view, spec_content_items, ContentItemModel, Manifest};
use crate::manifest::validate::{first_set, spec_source_roots, strings_view};
use crate::packages::PackageError;
use crate::packages::path::PackagePath;
use crate::radio::copy::{patterns_fit, spec_default_exclude, GLOB_PATTERN_LIMIT};
use crate::sync::{merge_default_exclude, ItemCopy};
use crate::text::{chars_of, ends_with, ends_with_exec, slice, string_of, vec_eq};

verus! {

/// The patterns a copy of an item skips: only the item's own for a package
/// that ships bytecode, else the default ones too.
pub open spec fn spec_build_exclude(binary: bool, item_exclude: Seq<Seq<char>>) -> Seq<Seq<char>> {
    if binary { item_exclude } else { spec_default_exclude() + item_exclude }
}

/// The patterns a copy skips are short enough to match with when the
/// item's own are.
pub proof fn lemma_build_exclude_fits(binary: bool, item_exclude: Seq<Seq<char>>)
    requires
        patterns_fit(item_exclude),
    ensures
        patterns_fit(spec_build_exclude(binary, item_exclude)),
{
    reveal_strlit("*.luac");
    let all = spec_build_exclude(binary, item_exclude);
    assert forall|i: int| 0 <= i < all.len() implies #[trigger] all[i].len() <= GLOB_PATTERN_LIMIT by {
        if !binary && i == 0 {
            assert(all[i] == "*.luac"@);
        } else if !binary {
            assert(all[i] == item_exclude[i - 1]);
        }
    }
}

/// The patterns a copy of `item` skips.
pub fn build_exclude(binary: bool, item: &crate::manifest::ContentItem) -> (r: Vec<String>)
    ensures
        strings_view(r@) == spec_build_exclude(binary, strings_view(item.exclude@)),
{
    if binary {
        copy_strings(&item.exclude)
    } else {
        merge_default_exclude(&item.exclude)
    }
}

/// The copy of a content item onto the SD card, or the error that stops
/// the transfer there.
pub open spec fn transfer_outcome(
    roots: Seq<Seq<char>>,
    binary: bool,
    item: ContentItemModel,
    root_has_path: Seq<bool>,
    r: Result<ItemCopy, PackageError>,
) -> bool {
    let k = first_set(root_has_path, 0);
    if k < root_has_path.len() {
        r matches Ok(c) && c.source_root@ == roots[k] && c.path@ == item.path
            && strings_view(c.exclude@) == spec_build_exclude(binary, item.exclude)
    } else {
        r matches Err(PackageError::ContentResolve { path, source: crate::manifest::ManifestError::ContentPathNotFound { path: p } })
            && path@ == item.path && p@ == item.path
    }
}

/// The copies that put a package's content items on the SD card, in order,
/// each from the first source root that holds it (`root_has_path[i][j]`
/// tells whether root `j` holds item `i`); an item no root holds gives the
/// error at which the transfer stops.
pub fn copy_content_items(m: &Manifest, manifest_dir: &str, include_dev: bool, root_has_path: &[Vec<bool>])
    -> (r: Vec<Result<ItemCopy, PackageError>>)
    requires
        root_has_path@.len() == spec_content_items(m, include_dev).len(),
        forall|i: int| 0 <= i < root_has_path@.len() ==> #[trigger] root_has_path@[i]@.len()
            == spec_source_roots(m, manifest_dir@).len(),
    ensures
        r@.len() == spec_content_items(m, include_dev).len(),
        forall|i: int| 0 <= i < r@.len() ==> transfer_outcome(
            spec_source_roots(m, manifest_dir@),
            m.package.binary,
            spec_content_items(m, include_dev)[i],
            root_has_path@[i]@,
            #[trigger] r@[i],
        ),
{
    let items = m.content_items(include_dev);
    let ghost roots = spec_source_roots(m, manifest_dir@);
    let mut out: Vec<Result<ItemCopy, PackageError>> = Vec::new();
    let mut i: usize = 0;
    while i < items.len()
        invariant
            i <= items.len(),
            items@.len() == root_has_path@.len(),
            items_view(items@) == spec_content_items(m, include_dev),
            roots == spec_source_roots(m, manifest_dir@),
            forall|j: int| 0 <= j < root_has_path@.len() ==> #[trigger] root_has_path@[j]@.len() == roots.len(),
            out@.len() == i,
            forall|j: int| 0 <= j < i ==> transfer_outcome(roots, m.package.binary,
                spec_content_items(m, include_dev)[j], root_has_path@[j]@, #[trigger] out@[j]),
        decreases items.len() - i,
    {
        proof {
            assert(items_view(items@)[i as int] == items@[i as int]@);
        }
        let item = &items[i];
        let outcome = match m.resolve_content_path(manifest_dir, &item.path, root_has_path[i].as_slice()) {
            Ok(root) => Ok(ItemCopy {
                source_root: root,
                path: item.path.clone(),
                exclude: build_exclude(m.package.binary, item),
            }),
            Err(e) => Err(PackageError::ContentResolve { path: item.path.clone(), source: e }),
        };
        proof {
            crate::sync::lemma_first_set_bounds(root_has_path@[i as int]@, 0);
        }
        out.push(outcome);
        i += 1;
    }
    out
}

/// The bytecode files among `files` whose Lua source was copied too, each
/// as (source, bytecode), in the order of `files`.
pub open spec fn luac_pairs(files: Seq<Seq<char>>, all: Seq<Seq<char>>) -> Seq<(Seq<char>, Seq<char>)>
    decreases files.len(),
{
    if files.len() == 0 {
        Seq::empty()
    } else {
        let rest = luac_pairs(files.drop_last(), all);
        let f = files.last();
        if ends_with(f, ".luac"@) && all.contains(f.drop_last()) { rest.push((f.drop_last(), f)) } else { rest }
    }
}

/// The views of a list of paths.
pub open spec fn paths_view(v: Seq<PackagePath>) -> Seq<Seq<char>> {
    v.map_values(|p: PackagePath| p@)
}

fn contains_path(files: &[PackagePath], s: &Vec<char>) -> (r: bool)
    ensures
        r == paths_view(files@).contains(s@),
{
    let mut i: usize = 0;
    while i < files.len()
        invariant
            i <= files.len(),
            forall|j: int| 0 <= j < i ==> #[trigger] paths_view(files@)[j] != s@,
        decreases files.len() - i,
    {
        if vec_eq(&chars_of(files[i].as_str()), s) {
            assert(paths_view(files@)[i as int] == s@);
            return true;
        }
        i += 1;
    }
    false
}

/// The bytecode files that get their source's timestamp after a copy, so
/// the radio does not think the source is newer: each copied `.luac` whose
/// `.lua` was copied as well.
pub fn luac_mtime_pairs(files: &[PackagePath]) -> (r: Vec<(String, String)>)
    ensures
        r@.map_values(|p: (String, String)| (p.0@, p.1@)) == luac_pairs(paths_view(files@), paths_view(files@)),
{
    let ghost all = paths_view(files@);
    let mut out: Vec<(String, String)> = Vec::new();
    let mut i: usize = 0;
    proof {
        reveal_strlit(".luac");
    }
    while i < files.len()
        invariant
            i <= files.len(),
            all == paths_view(files@),
            out@.map_values(|p: (String, String)| (p.0@, p.1@)) == luac_pairs(all.take(i as int), all),
        decreases files.len() - i,
    {
        let name = chars_of(files[i].as_str());
        proof {
            assert(all.take(i + 1).drop_last() == all.take(i as int));
            assert(all.take(i + 1).last() == all[i as int]);
        }
        if ends_with_exec(&name, &chars_of(".luac")) {
            proof {
                reveal_strlit(".luac");
            }
            let src = slice(&name, 0, name.len() - 1);
            assert(src@ == name@.drop_last());
            if contains_path(files, &src) {
                let pair = (string_of(&src), string_of(&name));
                let ghost before = out@;
                out.push(pair);
                proof {
                    assert(out@.map_values(|p: (String, String)| (p.0@, p.1@))
                        == before.map_values(|p: (String, String)| (p.0@, p.1@)).push((src@, name@)));
                }
            }
        }
        i += 1;
    }
    proof {
        assert(all.take(i as int) == all);
    }
    out
}

} // verus!

verus! {

/// The sum of per-item file counts.
pub open spec fn sum_counts(counts: Seq<usize>) -> nat
    decreases counts.len(),
{
    if counts.len() == 0 {
        0
    } else {
        sum_counts(counts.drop_last()) + counts.last() as nat
    }
}

proof fn lemma_sum_counts_prefix(counts: Seq<usize>, i: int)
    requires
        0 <= i <= counts.len(),
    ensures
        sum_counts(counts.take(i)) <= sum_counts(counts),
    decreases counts.len() - i,
{
    if i < counts.len() {
        lemma_sum_counts_prefix(counts, i + 1);
        assert(counts.take(i + 1).drop_last() == counts.take(i));
    } else {
        assert(counts.take(i) == counts);
    }
}

/// The number of files a transfer copies, from the count of each content
/// item (an item whose content is not found counts none).
pub fn total_of(counts: &[usize]) -> (r: usize)
    requires
        sum_counts(counts@) <= usize::MAX,
    ensures
        r == sum_counts(counts@),
{
    let mut total: usize = 0;
    let mut i: usize = 0;
    while i < counts.len()
        invariant
            i <= counts@.len(),
            sum_counts(counts@) <= usize::MAX,
            total == sum_counts(counts@.take(i as int)),
        decreases counts.len() - i,
    {
        proof {
            assert(counts@.take(i + 1).drop_last() == counts@.take(i as int));
            lemma_sum_counts_prefix(counts@, i + 1);
        }
        total = total + counts[i];
        i += 1;
    }
    proof {
        assert(counts@.take(i as int) == counts@);
    }
    total
}

} // verus!
