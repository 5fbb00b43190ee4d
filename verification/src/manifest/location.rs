//! Where in a checkout a package's manifest is found.
use vstd::prelude::*;
use crate::text::{chars_of, ends_with, ends_with_exec, lemma_rfind_bounds, path_join, path_join_exec, rfind_char, rfind_char_exec, slice, string_of};

verus! {

/// Where a manifest is read from: an explicit manifest file, or the
/// standard manifest file of `manifest_dir`; either way `manifest_dir` is
/// the directory the manifest's paths are relative to.
#[derive(Debug)]
pub struct ManifestLocation {
    pub manifest_file: Option<String>,
    pub manifest_dir: String,
}

/// `Path::parent` for a path without `.` components or doubled separators:
/// everything before the last `/` (`/` itself for a top-level entry), the
/// empty path for a bare name, none for the empty path.
pub open spec fn parent_dir(p: Seq<char>) -> Option<Seq<char>> {
    match rfind_char(p, '/') {
        Some(i) => if i == 0 { Some("/"@) } else { Some(p.take(i)) },
        None => if p.len() == 0 { None } else { Some(Seq::<char>::empty()) },
    }
}

/// A sub-path that names a manifest file rather than a directory.
pub open spec fn names_manifest_file(sub_path: Seq<char>) -> bool {
    ends_with(sub_path, ".yml"@) || ends_with(sub_path, ".yaml"@)
}

/// Where the manifest of `dir` is for a sub-path: `dir` itself for an empty
/// sub-path; the named file for a `.yml`/`.yaml` sub-path, with its parent
/// as the manifest directory; otherwise the sub-directory.
pub open spec fn spec_locate_manifest(dir: Seq<char>, sub_path: Seq<char>) -> (Option<Seq<char>>, Seq<char>) {
    if sub_path.len() == 0 {
        (None, dir)
    } else if names_manifest_file(sub_path) {
        let path = path_join(dir, sub_path);
        (Some(path), match parent_dir(path) { Some(d) => d, None => dir })
    } else {
        (None, path_join(dir, sub_path))
    }
}

fn parent_dir_exec(p: &str) -> (r: Option<String>)
    ensures
        match r {
            Some(d) => parent_dir(p@) == Some(d@),
            None => parent_dir(p@) is None,
        },
{
    let v = chars_of(p);
    proof {
        lemma_rfind_bounds(p@, '/');
    }
    match rfind_char_exec(&v, '/') {
        Some(i) => {
            if i == 0 {
                Some("/".to_owned())
            } else {
                let d = slice(&v, 0, i);
                assert(d@ == p@.take(i as int));
                Some(string_of(&d))
            }
        }
        None => {
            if v.len() == 0 {
                None
            } else {
                Some(String::new())
            }
        }
    }
}

/// Locates the manifest of the checkout in `dir` for `sub_path`.
pub fn locate_manifest(dir: &str, sub_path: &str) -> (r: ManifestLocation)
    ensures
        (match r.manifest_file {
            Some(f) => Some(f@),
            None => None::<Seq<char>>,
        }, r.manifest_dir@) == spec_locate_manifest(dir@, sub_path@),
{
    let sv = chars_of(sub_path);
    if sv.len() == 0 {
        return ManifestLocation { manifest_file: None, manifest_dir: dir.to_owned() };
    }
    if ends_with_exec(&sv, &chars_of(".yml")) || ends_with_exec(&sv, &chars_of(".yaml")) {
        let path = path_join_exec(dir, sub_path);
        let mdir = match parent_dir_exec(path.as_str()) {
            Some(d) => d,
            None => dir.to_owned(),
        };
        return ManifestLocation { manifest_file: Some(path), manifest_dir: mdir };
    }
    ManifestLocation { manifest_file: None, manifest_dir: path_join_exec(dir, sub_path) }
}

} // verus!
