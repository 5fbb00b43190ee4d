//! The simulator's SD card: where it lives, the directories it starts
//! with, and the copies that put a package on it.
use vstd::prelude::*;
use crate::error::SimulatorError;
use crate::manifest::{copy_strings, items_view, spec_content_items, ContentItemModel, Manifest};
use crate::manifest::validate::{first_set, spec_source_roots, strings_view};
use crate::packages::path::PackagePath;
use crate::source::resolve::user_cache_dir;
use crate::sync::{initial_sync, item_copy_outcome, ItemCopy, SyncOptions};
use crate::packages::transfer::spec_build_exclude;
use crate::text::{concat, debug_quote, debug_quoted, path_join, path_join_exec};

verus! {

/// The simulator's directory under a user cache directory.
pub open spec fn simulator_dir(base: Seq<char>) -> Seq<char> {
    path_join(path_join(base, "edgetx-cli"@), "simulator"@)
}

/// A radio's SD card directory under a user cache directory.
pub open spec fn spec_sd_card_path(base: Seq<char>, radio_key: Seq<char>) -> Seq<char> {
    path_join(path_join(simulator_dir(base), radio_key), "sdcard"@)
}

/// A radio's settings directory under a user cache directory.
pub open spec fn spec_settings_path(base: Seq<char>, radio_key: Seq<char>) -> Seq<char> {
    path_join(path_join(simulator_dir(base), radio_key), "settings"@)
}

/// The SD card directory of a radio under the user cache directory `base`.
pub fn sd_card_path_under(base: &str, radio_key: &str) -> (r: String)
    ensures
        r@ == spec_sd_card_path(base@, radio_key@),
{
    let sim = path_join_exec(path_join_exec(base, "edgetx-cli").as_str(), "simulator");
    path_join_exec(path_join_exec(sim.as_str(), radio_key).as_str(), "sdcard")
}

/// The settings directory of a radio under the user cache directory `base`.
pub fn settings_path_under(base: &str, radio_key: &str) -> (r: String)
    ensures
        r@ == spec_settings_path(base@, radio_key@),
{
    let sim = path_join_exec(path_join_exec(base, "edgetx-cli").as_str(), "simulator");
    path_join_exec(path_join_exec(sim.as_str(), radio_key).as_str(), "settings")
}

/// The error when this user has no cache directory.
pub open spec fn no_cache_dir(e: SimulatorError) -> bool {
    e matches SimulatorError::Runtime(m) && m@ == "cannot determine cache directory"@
}

/// The default SD card directory for a radio.
pub fn sd_card_path(radio_key: &str) -> (r: Result<String, SimulatorError>)
    ensures
        match r {
            Ok(p) => exists|base: Seq<char>| p@ == #[trigger] spec_sd_card_path(base, radio_key@),
            Err(e) => no_cache_dir(e),
        },
{
    match user_cache_dir() {
        Some(base) => Ok(sd_card_path_under(base.as_str(), radio_key)),
        None => Err(SimulatorError::Runtime("cannot determine cache directory".to_owned())),
    }
}

/// The default settings directory for a radio.
pub fn settings_path(radio_key: &str) -> (r: Result<String, SimulatorError>)
    ensures
        match r {
            Ok(p) => exists|base: Seq<char>| p@ == #[trigger] spec_settings_path(base, radio_key@),
            Err(e) => no_cache_dir(e),
        },
{
    match user_cache_dir() {
        Some(base) => Ok(settings_path_under(base.as_str(), radio_key)),
        None => Err(SimulatorError::Runtime("cannot determine cache directory".to_owned())),
    }
}

/// The directories a fresh SD card is given.
pub open spec fn spec_sdcard_dirs() -> Seq<Seq<char>> {
    seq![
        "RADIO"@,
        "MODELS"@,
        "SCRIPTS/TOOLS"@,
        "SCRIPTS/TELEMETRY"@,
        "SCRIPTS/FUNCTIONS"@,
        "SCRIPTS/MIXES"@,
        "SCRIPTS/WIDGETS"@,
        "SOUNDS"@,
        "IMAGES"@,
    ]
}

/// The directories a fresh SD card is given, in the order they are made.
pub fn sdcard_dirs() -> (r: Vec<String>)
    ensures
        strings_view(r@) == spec_sdcard_dirs(),
{
    let mut v: Vec<String> = Vec::new();
    v.push("RADIO".to_owned());
    v.push("MODELS".to_owned());
    v.push("SCRIPTS/TOOLS".to_owned());
    v.push("SCRIPTS/TELEMETRY".to_owned());
    v.push("SCRIPTS/FUNCTIONS".to_owned());
    v.push("SCRIPTS/MIXES".to_owned());
    v.push("SCRIPTS/WIDGETS".to_owned());
    v.push("SOUNDS".to_owned());
    v.push("IMAGES".to_owned());
    assert(strings_view(v@) =~= spec_sdcard_dirs());
    v
}

/// What the simulator reports when a content path is in no source root.
pub open spec fn resolve_failure(path: Seq<char>) -> Seq<char> {
    "resolving "@ + path + ": content path PackagePath("@ + debug_quoted(path) + ") not found in any source root"@
}

fn resolve_failure_exec(path: &PackagePath) -> (r: String)
    ensures
        r@ == resolve_failure(path@),
{
    let a = concat("resolving ", path.as_str());
    let b = concat(a.as_str(), ": content path PackagePath(");
    let c = concat(b.as_str(), debug_quote(path.as_str()).as_str());
    concat(c.as_str(), ") not found in any source root")
}

/// The copy of content item `item`, or the error that stops the install
/// there.
pub open spec fn install_outcome(
    roots: Seq<Seq<char>>,
    binary: bool,
    item: ContentItemModel,
    root_has_path: Seq<bool>,
    r: Result<ItemCopy, SimulatorError>,
) -> bool {
    let k = first_set(root_has_path, 0);
    if k < root_has_path.len() {
        r matches Ok(c) && c.source_root@ == roots[k] && c.path@ == item.path
            && strings_view(c.exclude@) == spec_build_exclude(binary, item.exclude)
    } else {
        r matches Err(SimulatorError::Runtime(m)) && m@ == resolve_failure(item.path)
    }
}

/// The copies that put a package on the simulator's SD card: every content
/// item, development ones included, in order, each from the first source
/// root that holds it (`root_has_path[i][j]` tells whether root `j` holds
/// item `i`); an item that no root holds gives the error at which the
/// install stops.
pub fn install_package(m: &Manifest, manifest_dir: &str, root_has_path: &[Vec<bool>])
    -> (r: Vec<Result<ItemCopy, SimulatorError>>)
    requires
        root_has_path@.len() == spec_content_items(m, true).len(),
        forall|i: int| 0 <= i < root_has_path@.len() ==> #[trigger] root_has_path@[i]@.len()
            == spec_source_roots(m, manifest_dir@).len(),
    ensures
        r@.len() == spec_content_items(m, true).len(),
        forall|i: int| 0 <= i < r@.len() ==> install_outcome(
            spec_source_roots(m, manifest_dir@),
            m.package.binary,
            spec_content_items(m, true)[i],
            root_has_path@[i]@,
            #[trigger] r@[i],
        ),
{
    let items = m.content_items(true);
    let opts = SyncOptions { manifest: m, manifest_dir, target_dir: "", items: items.as_slice() };
    let planned = initial_sync(&opts, root_has_path);
    let ghost roots = spec_source_roots(m, manifest_dir@);
    let mut out: Vec<Result<ItemCopy, SimulatorError>> = Vec::new();
    let mut i: usize = 0;
    while i < items.len()
        invariant
            i <= items.len(),
            items@.len() == planned@.len(),
            items@.len() == root_has_path@.len(),
            items_view(items@) == spec_content_items(m, true),
            roots == spec_source_roots(m, manifest_dir@),
            forall|j: int| 0 <= j < planned@.len() ==> item_copy_outcome(roots, m.package.binary, items@[j], root_has_path@[j]@, #[trigger] planned@[j]),
            out@.len() == i,
            forall|j: int| 0 <= j < i ==> install_outcome(roots, m.package.binary, spec_content_items(m, true)[j], root_has_path@[j]@, #[trigger] out@[j]),
        decreases items.len() - i,
    {
        proof {
            assert(items_view(items@)[i as int] == items@[i as int]@);
        }
        let outcome = match &planned[i] {
            Ok(c) => Ok(ItemCopy {
                source_root: c.source_root.clone(),
                path: c.path.clone(),
                exclude: copy_strings(&c.exclude),
            }),
            Err(_) => Err(SimulatorError::Runtime(resolve_failure_exec(&items[i].path))),
        };
        out.push(outcome);
        i += 1;
    }
    out
}

} // verus!
