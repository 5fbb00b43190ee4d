//! Content groups by their YAML key.
use vstd::prelude::*;
use super::{ContentItem, Manifest};
use crate::text::str_eq;

verus! {

/// The content items under a YAML key; an unknown key gives `files`.
pub open spec fn spec_items_for_key(m: &Manifest, key: Seq<char>) -> Seq<ContentItem> {
    if key == "libraries"@ {
        m.libraries@
    } else if key == "tools"@ {
        m.tools@
    } else if key == "telemetry"@ {
        m.telemetry@
    } else if key == "functions"@ {
        m.functions@
    } else if key == "mixes"@ {
        m.mixes@
    } else if key == "widgets"@ {
        m.widgets@
    } else if key == "sounds"@ {
        m.sounds@
    } else if key == "images"@ {
        m.images@
    } else {
        m.files@
    }
}

/// The content items under a YAML key (`libraries`, `tools`, ...); any
/// other key gives the `files` group.
pub fn items_for_key<'a>(manifest: &'a Manifest, yaml_key: &str) -> (r: &'a Vec<ContentItem>)
    ensures
        r@ == spec_items_for_key(manifest, yaml_key@),
{
    if str_eq(yaml_key, "libraries") {
        &manifest.libraries
    } else if str_eq(yaml_key, "tools") {
        &manifest.tools
    } else if str_eq(yaml_key, "telemetry") {
        &manifest.telemetry
    } else if str_eq(yaml_key, "functions") {
        &manifest.functions
    } else if str_eq(yaml_key, "mixes") {
        &manifest.mixes
    } else if str_eq(yaml_key, "widgets") {
        &manifest.widgets
    } else if str_eq(yaml_key, "sounds") {
        &manifest.sounds
    } else if str_eq(yaml_key, "images") {
        &manifest.images
    } else {
        &manifest.files
    }
}

} // verus!
