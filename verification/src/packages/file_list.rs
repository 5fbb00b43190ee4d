//! The per-package list of files installed on the SD card, kept so that a
//! package can be removed cleanly.
use vstd::prelude::*;
use super::path::PackagePath;
use crate::manifest::{items_view, spec_content_items, ContentItemModel, Manifest};
use crate::text::{concat, path_join, path_join_exec, replace_char, split_char, split_char_exec, string_of};

verus! {

/// The file name of each package's list.
pub open spec fn list_file_name() -> Seq<char> {
    "files.list"@
}

/// The files (and trailing-slash directory entries) a package installed.
pub struct PackageFileList {
    id: String,
    files: Vec<PackagePath>,
}

impl PackageFileList {
    pub closed spec fn spec_id(&self) -> Seq<char> {
        self.id@
    }

    pub closed spec fn spec_files(&self) -> Seq<PackagePath> {
        self.files@
    }

    /// A list for package `id` holding `files`.
    pub fn new(id: String, files: Vec<PackagePath>) -> (r: PackageFileList)
        ensures
            r.spec_id() == id@,
            r.spec_files() == files@,
    {
        PackageFileList { id, files }
    }

    /// The package id.
    pub fn id(&self) -> (r: &str)
        ensures
            r@ == self.spec_id(),
    {
        self.id.as_str()
    }

    /// The listed files, in order.
    pub fn files(&self) -> (r: &[PackagePath])
        ensures
            r@ == self.spec_files(),
    {
        self.files.as_slice()
    }
}

/// `root` followed by each `/`-separated segment of `segs`, in order.
pub open spec fn push_segments(root: Seq<char>, segs: Seq<Seq<char>>) -> Seq<char>
    decreases segs.len(),
{
    if segs.len() == 0 {
        root
    } else {
        path_join(push_segments(root, segs.drop_last()), segs.last())
    }
}

/// The directory of a package's list: the file list root followed by the
/// segments of the id (`github.com/Org/Repo` gives three levels).
pub open spec fn spec_package_dir(root: Seq<char>, id: Seq<char>) -> Seq<char> {
    push_segments(root, split_char(id, '/'))
}

/// The directory that holds a package's list.
pub fn package_dir(file_list_root: &str, id: &str) -> (r: String)
    ensures
        r@ == spec_package_dir(file_list_root@, id@),
{
    let segs = split_char_exec(&crate::text::chars_of(id), '/');
    let ghost sv = segs@.map_values(|v: Vec<char>| v@);
    let mut p = crate::text::owned(file_list_root);
    let mut i: usize = 0;
    while i < segs.len()
        invariant
            i <= segs.len(),
            sv == segs@.map_values(|v: Vec<char>| v@),
            p@ == push_segments(file_list_root@, sv.take(i as int)),
        decreases segs.len() - i,
    {
        proof {
            assert(sv.take(i + 1).drop_last() == sv.take(i as int));
            assert(sv.take(i + 1).last() == segs@[i as int]@);
        }
        let seg = string_of(&segs[i]);
        p = path_join_exec(p.as_str(), seg.as_str());
        i += 1;
    }
    proof {
        assert(sv.take(i as int) == sv);
    }
    p
}

/// The path of a package's list file.
pub fn list_path(file_list_root: &str, id: &str) -> (r: String)
    ensures
        r@ == path_join(spec_package_dir(file_list_root@, id@), list_file_name()),
{
    let dir = package_dir(file_list_root, id);
    path_join_exec(dir.as_str(), "files.list")
}

/// The directory entries a package's list records after its files: for
/// each content item found to be a directory on the card, in order, its
/// path with a trailing `/`.
pub open spec fn dir_entries(items: Seq<ContentItemModel>, is_dir: Seq<bool>) -> Seq<Seq<char>>
    decreases items.len(),
{
    if items.len() == 0 {
        Seq::empty()
    } else {
        let rest = dir_entries(items.drop_last(), is_dir);
        if is_dir[items.len() - 1] {
            rest.push(replace_char(items.last().path + "/"@, '\\', '/'))
        } else {
            rest
        }
    }
}

/// The list an install or update records for package `id`: the files it
/// copied, then a directory entry for each content item of `m` that
/// `item_is_dir` marks as a directory on the card.
pub fn package_file_list(
    id: String,
    m: &Manifest,
    include_dev: bool,
    item_is_dir: &[bool],
    copied: Vec<PackagePath>,
) -> (r: PackageFileList)
    requires
        item_is_dir@.len() == spec_content_items(m, include_dev).len(),
    ensures
        r.spec_id() == id@,
        r.spec_files().map_values(|p: PackagePath| p@) == copied@.map_values(|p: PackagePath| p@)
            + dir_entries(spec_content_items(m, include_dev), item_is_dir@),
{
    let items = m.content_items(include_dev);
    let ghost iv = items_view(items@);
    let ghost base = copied@.map_values(|p: PackagePath| p@);
    let mut files = copied;
    let mut i: usize = 0;
    while i < items.len()
        invariant
            i <= items.len(),
            iv == items_view(items@),
            iv == spec_content_items(m, include_dev),
            item_is_dir@.len() == items.len(),
            files@.map_values(|p: PackagePath| p@) == base + dir_entries(iv.take(i as int), item_is_dir@),
        decreases items.len() - i,
    {
        proof {
            assert(iv.take(i + 1).drop_last() == iv.take(i as int));
            assert(iv.take(i + 1).last() == items@[i as int]@);
        }
        if item_is_dir[i] {
            let entry = concat(items[i].path.as_str(), "/");
            let p = PackagePath::new(entry.as_str());
            let ghost before = files@;
            files.push(p);
            proof {
                assert(files@.map_values(|p: PackagePath| p@) == before.map_values(|p: PackagePath| p@).push(p@));
            }
        }
        i += 1;
    }
    proof {
        assert(iv.take(i as int) == iv);
    }
    PackageFileList { id, files }
}

} // verus!
