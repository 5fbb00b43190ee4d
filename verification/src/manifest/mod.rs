//! The package manifest (`edgetx.yml`): its model, radio matching, content
//! listing and validation.
pub mod content;
pub mod location;
pub mod validate;


use vstd::prelude::*;
use crate::packages::path::PackagePath;
use crate::text::{
    append, chars_of, debug_quote, debug_quoted, ends_with, ends_with_exec, split_char,
    split_char_exec, string_of,
};

verus! {

/// The manifest's file name.
pub const FILE_NAME: &'static str = "edgetx.yml";

/// Errors of reading or checking a package manifest.
#[derive(Debug)]
pub enum ManifestError {
    Read { path: String, message: String },
    Parse { path: String, message: String },
    Validation { path: String, message: String },
    ContentPathNotFound { path: PackagePath },
    Other(String),
}

/// A YAML field that holds either a single string or a list of strings.
#[derive(Debug, Clone)]
pub struct StringOrSlice(pub Vec<String>);

/// Author of a package.
#[derive(Debug, Clone)]
pub struct Author {
    pub name: String,
    pub email: Option<String>,
}

/// A named URL entry (homepage, repository, discord, ...).
#[derive(Debug, Clone)]
pub struct UrlEntry {
    pub name: String,
    pub url: String,
}

/// The `package:` section of a manifest.
#[derive(Debug, Clone)]
pub struct Package {
    pub id: String,
    pub name: String,
    pub description: String,
    pub authors: Vec<Author>,
    pub urls: Vec<UrlEntry>,
    pub screenshots: Vec<String>,
    pub keywords: Vec<String>,
    pub license: String,
    pub source_dir: StringOrSlice,
    pub binary: bool,
    pub min_edgetx_version: String,
    pub capabilities: Option<RadioCapabilitiesFilter>,
    pub variants: Vec<Variant>,
}

impl Package {
    /// The human-friendly name, or the id when no name is given.
    pub fn display_name(&self) -> (r: &str)
        ensures
            r@ == if self.name@.len() == 0 { self.id@ } else { self.name@ },
    {
        if self.name.as_str().is_empty() {
            self.id.as_str()
        } else {
            self.name.as_str()
        }
    }
}

/// Display type: black-and-white or color LCD.
#[derive(Debug, Clone, Copy, PartialEq, Eq, Structural)]
pub enum DisplayType {
    Bw,
    ColorLcd,
}

impl DisplayType {
    pub open spec fn spec_name(self) -> Seq<char> {
        match self {
            DisplayType::Bw => "bw"@,
            DisplayType::ColorLcd => "colorlcd"@,
        }
    }

    /// `bw` or `colorlcd`.
    pub fn to_string(&self) -> (r: String)
        ensures
            r@ == self.spec_name(),
    {
        match self {
            DisplayType::Bw => "bw".to_owned(),
            DisplayType::ColorLcd => "colorlcd".to_owned(),
        }
    }
}

/// Display resolution, e.g. 480x272.
#[derive(Debug, Clone, Copy, PartialEq, Eq, Structural)]
pub struct Resolution {
    pub width: u32,
    pub height: u32,
}

/// What `u32`'s `from_str` accepts: an optional `+`, then one or more ASCII
/// digits whose value fits in 32 bits.
pub open spec fn spec_parse_u32(s: Seq<char>) -> Option<u32> {
    match crate::text::parse_unsigned(s) {
        Some(n) => if n <= u32::MAX { Some(n as u32) } else { None },
        None => None,
    }
}

/// How a resolution reads: `WIDTHxHEIGHT`; the error is the message.
pub open spec fn spec_parse_resolution(s: Seq<char>) -> Result<Resolution, Seq<char>> {
    let parts = split_char(s, 'x');
    if parts.len() != 2 {
        Err("resolution "@ + debug_quoted(s) + " must be in WIDTHxHEIGHT format"@)
    } else if spec_parse_u32(parts[0]) is None {
        Err("invalid width in resolution "@ + debug_quoted(s))
    } else if spec_parse_u32(parts[1]) is None {
        Err("invalid height in resolution "@ + debug_quoted(s))
    } else {
        Ok(Resolution { width: spec_parse_u32(parts[0])->0, height: spec_parse_u32(parts[1])->0 })
    }
}

/// Parses an unsigned 32-bit decimal number as `u32::from_str` does.
pub fn parse_u32(s: &Vec<char>) -> (r: Option<u32>)
    ensures
        r == spec_parse_u32(s@),
{
    match crate::text::parse_unsigned_bounded(s, 4294967295) {
        Some(v) => Some(v as u32),
        None => None,
    }
}

impl Resolution {
    /// Parses `WIDTHxHEIGHT`.
    pub fn parse(s: &str) -> (r: Result<Resolution, String>)
        ensures
            match spec_parse_resolution(s@) {
                Ok(v) => r == Ok::<Resolution, String>(v),
                Err(m) => r matches Err(e) && e@ == m,
            },
    {
        let parts = split_char_exec(&chars_of(s), 'x');
        let ghost pv = parts@.map_values(|v: Vec<char>| v@);
        if parts.len() != 2 {
            let mut m = chars_of("resolution ");
            append(&mut m, &chars_of(debug_quote(s).as_str()));
            append(&mut m, &chars_of(" must be in WIDTHxHEIGHT format"));
            return Err(string_of(&m));
        }
        assert(pv[0] == parts@[0]@ && pv[1] == parts@[1]@);
        let w = parse_u32(&parts[0]);
        match w {
            None => {
                let mut m = chars_of("invalid width in resolution ");
                append(&mut m, &chars_of(debug_quote(s).as_str()));
                return Err(string_of(&m));
            },
            Some(width) => {
                let h = parse_u32(&parts[1]);
                match h {
                    None => {
                        let mut m = chars_of("invalid height in resolution ");
                        append(&mut m, &chars_of(debug_quote(s).as_str()));
                        return Err(string_of(&m));
                    },
                    Some(height) => Ok(Resolution { width, height }),
                }
            },
        }
    }

    /// `WIDTHxHEIGHT` in decimal.
    pub fn to_string(&self) -> (r: String)
        ensures
            r@ == crate::text::decimal(self.width as nat) + "x"@ + crate::text::decimal(self.height as nat),
    {
        let mut v = crate::text::decimal_exec(self.width as u64);
        append(&mut v, &chars_of("x"));
        append(&mut v, &crate::text::decimal_exec(self.height as u64));
        string_of(&v)
    }
}

/// Display compatibility filter; an absent field means "any".
#[derive(Debug, Clone, Copy)]
pub struct DisplayFilter {
    pub display_type: Option<DisplayType>,
    pub resolution: Option<Resolution>,
    /// Whether a touchscreen is required.
    pub touch: Option<bool>,
}

/// A radio's display hardware.
#[derive(Debug, Clone, Copy)]
pub struct DisplayCapabilities {
    pub width: u32,
    pub height: u32,
    pub color: bool,
    pub touch: Option<bool>,
}

/// A radio's hardware capabilities, built from the catalog and the SD card.
#[derive(Debug, Clone, Copy)]
pub struct RadioCapabilities {
    pub display: DisplayCapabilities,
}

/// What a package or variant requires of a radio.
#[derive(Debug, Clone, Copy)]
pub struct RadioCapabilitiesFilter {
    pub display: Option<DisplayFilter>,
}

/// A display filter accepts a display: the type agrees with its color, the
/// resolution is the same, and a required touchscreen is not known absent.
pub open spec fn display_matches(f: DisplayFilter, d: DisplayCapabilities) -> bool {
    &&& (f.display_type matches Some(t) ==> ((t == DisplayType::ColorLcd) == d.color))
    &&& (f.resolution matches Some(res) ==> (res.width == d.width && res.height == d.height))
    &&& (f.touch == Some(true) ==> d.touch != Some(false))
}

/// How specific a display filter is: type 1, resolution 2, touch 1.
pub open spec fn display_specificity(f: DisplayFilter) -> nat {
    (if f.display_type is Some { 1nat } else { 0 })
        + (if f.resolution is Some { 2nat } else { 0 })
        + (if f.touch is Some { 1nat } else { 0 })
}

pub open spec fn filter_matches(f: RadioCapabilitiesFilter, r: RadioCapabilities) -> bool {
    f.display matches Some(df) ==> display_matches(df, r.display)
}

pub open spec fn filter_specificity(f: RadioCapabilitiesFilter) -> nat {
    match f.display {
        Some(df) => display_specificity(df),
        None => 0,
    }
}

impl DisplayFilter {
    /// Whether the filter accepts the display.
    pub fn matches(&self, display: &DisplayCapabilities) -> (r: bool)
        ensures
            r == display_matches(*self, *display),
    {
        if let Some(dt) = self.display_type {
            let want_color = match dt {
                DisplayType::ColorLcd => true,
                DisplayType::Bw => false,
            };
            if want_color != display.color {
                return false;
            }
        }
        if let Some(res) = self.resolution {
            if res.width != display.width || res.height != display.height {
                return false;
            }
        }
        if let Some(true) = self.touch {
            if let Some(false) = display.touch {
                return false;
            }
        }
        true
    }

    /// How specific the filter is (higher is more specific).
    fn specificity(&self) -> (r: u8)
        ensures
            r == display_specificity(*self),
    {
        let mut s: u8 = 0;
        if self.display_type.is_some() {
            s += 1;
        }
        if self.resolution.is_some() {
            s += 2;
        }
        if self.touch.is_some() {
            s += 1;
        }
        s
    }

    /// The filter as a list: type, resolution, `touch` when required.
    pub fn to_string(&self) -> (r: String)
        ensures
            r@ == crate::text::join(display_filter_parts(*self), ", "@),
    {
        let mut parts: Vec<Vec<char>> = Vec::new();
        if let Some(dt) = self.display_type {
            parts.push(chars_of(dt.to_string().as_str()));
        }
        if let Some(res) = self.resolution {
            parts.push(chars_of(res.to_string().as_str()));
        }
        if self.touch == Some(true) {
            parts.push(chars_of("touch"));
        }
        proof {
            assert(parts@.map_values(|v: Vec<char>| v@) == display_filter_parts(*self));
        }
        string_of(&crate::text::join_exec(&parts, &chars_of(", ")))
    }
}

/// The parts of a display filter's text.
pub open spec fn display_filter_parts(f: DisplayFilter) -> Seq<Seq<char>> {
    let a: Seq<Seq<char>> = match f.display_type {
        Some(t) => seq![t.spec_name()],
        None => Seq::empty(),
    };
    let b = match f.resolution {
        Some(res) => a.push(crate::text::decimal(res.width as nat) + "x"@ + crate::text::decimal(res.height as nat)),
        None => a,
    };
    if f.touch == Some(true) { b.push("touch"@) } else { b }
}

impl RadioCapabilitiesFilter {
    /// Whether every sub-filter accepts the radio.
    pub fn matches(&self, radio: &RadioCapabilities) -> (r: bool)
        ensures
            r == filter_matches(*self, *radio),
    {
        match &self.display {
            Some(df) => df.matches(&radio.display),
            None => true,
        }
    }

    /// How specific the filter is (higher is more specific).
    pub fn specificity(&self) -> (r: u8)
        ensures
            r == filter_specificity(*self),
    {
        match &self.display {
            Some(df) => df.specificity(),
            None => 0,
        }
    }
}

/// A variant: another manifest file for particular radio capabilities.
#[derive(Debug, Clone)]
pub struct Variant {
    /// Relative path to the variant manifest file (e.g. "edgetx.bw128x64.yml").
    pub path: String,
    /// The capabilities this variant targets.
    pub capabilities: RadioCapabilitiesFilter,
}

/// One script, widget, sound or other item of a package.
#[derive(Debug)]
pub struct ContentItem {
    pub name: String,
    pub path: PackagePath,
    pub depends: Vec<String>,
    pub exclude: Vec<String>,
    pub dev: bool,
}

/// The model of a [`ContentItem`].
pub struct ContentItemModel {
    pub name: Seq<char>,
    pub path: Seq<char>,
    pub depends: Seq<Seq<char>>,
    pub exclude: Seq<Seq<char>>,
    pub dev: bool,
}

impl View for ContentItem {
    type V = ContentItemModel;

    open spec fn view(&self) -> ContentItemModel {
        ContentItemModel {
            name: self.name@,
            path: self.path@,
            depends: self.depends@.map_values(|s: String| s@),
            exclude: self.exclude@.map_values(|s: String| s@),
            dev: self.dev,
        }
    }
}

/// A copy of a list of strings.
pub fn copy_strings(v: &Vec<String>) -> (r: Vec<String>)
    ensures
        r@.map_values(|s: String| s@) == v@.map_values(|s: String| s@),
{
    let mut out: Vec<String> = Vec::new();
    let mut i: usize = 0;
    while i < v.len()
        invariant
            i <= v.len(),
            out@.map_values(|s: String| s@) == v@.map_values(|s: String| s@).take(i as int),
        decreases v.len() - i,
    {
        let c = v[i].clone();
        let ghost before = out@;
        out.push(c);
        proof {
            assert(out@ == before.push(c));
            assert(v@.map_values(|s: String| s@).take(i + 1) == v@.map_values(|s: String| s@).take(i as int).push(v@[i as int]@));
        }
        i += 1;
    }
    proof {
        assert(v@.map_values(|s: String| s@).take(i as int) == v@.map_values(|s: String| s@));
    }
    out
}

impl Clone for ContentItem {
    fn clone(&self) -> (r: ContentItem)
        ensures
            r@ == self@,
    {
        ContentItem {
            name: self.name.clone(),
            path: self.path.clone(),
            depends: copy_strings(&self.depends),
            exclude: copy_strings(&self.exclude),
            dev: self.dev,
        }
    }
}

/// A package manifest.
#[derive(Debug, Clone)]
pub struct Manifest {
    pub package: Package,
    pub libraries: Vec<ContentItem>,
    pub tools: Vec<ContentItem>,
    pub telemetry: Vec<ContentItem>,
    pub functions: Vec<ContentItem>,
    pub mixes: Vec<ContentItem>,
    pub widgets: Vec<ContentItem>,
    pub sounds: Vec<ContentItem>,
    pub images: Vec<ContentItem>,
    pub files: Vec<ContentItem>,
}

/// The models of a list of content items.
pub open spec fn items_view(v: Seq<ContentItem>) -> Seq<ContentItemModel> {
    v.map_values(|c: ContentItem| c@)
}

/// The items kept by a listing: all of them, or only those not marked dev.
pub open spec fn keep_dev(items: Seq<ContentItemModel>, include_dev: bool) -> Seq<ContentItemModel>
    decreases items.len(),
{
    if items.len() == 0 {
        items
    } else {
        let rest = keep_dev(items.drop_last(), include_dev);
        if include_dev || !items.last().dev { rest.push(items.last()) } else { rest }
    }
}

/// The item groups of a manifest, libraries first, in listing order.
pub open spec fn content_groups(m: &Manifest) -> Seq<Seq<ContentItemModel>> {
    seq![
        items_view(m.libraries@), items_view(m.tools@), items_view(m.telemetry@),
        items_view(m.functions@), items_view(m.mixes@), items_view(m.widgets@),
        items_view(m.sounds@), items_view(m.images@), items_view(m.files@),
    ]
}

/// The items of the first `n` groups, each group filtered for dev items.
pub open spec fn listed_items(groups: Seq<Seq<ContentItemModel>>, n: int, include_dev: bool) -> Seq<ContentItemModel>
    decreases n,
{
    if n <= 0 {
        Seq::empty()
    } else {
        listed_items(groups, n - 1, include_dev) + keep_dev(groups[n - 1], include_dev)
    }
}

/// The content items of a manifest, libraries first, without dev items
/// unless asked for.
pub open spec fn spec_content_items(m: &Manifest, include_dev: bool) -> Seq<ContentItemModel> {
    listed_items(content_groups(m), 9, include_dev)
}

/// Whether variant `i` is the one chosen for `radio`: it matches, no
/// matching variant is more specific, and none after it is as specific.
pub open spec fn is_selected_variant(vs: Seq<Variant>, radio: RadioCapabilities, i: int) -> bool {
    &&& 0 <= i < vs.len()
    &&& filter_matches(vs[i].capabilities, radio)
    &&& forall|j: int| 0 <= j < vs.len() && filter_matches(vs[j].capabilities, radio)
        ==> filter_specificity(vs[j].capabilities) <= filter_specificity(vs[i].capabilities)
    &&& forall|j: int| i < j < vs.len() && filter_matches(vs[j].capabilities, radio)
        ==> filter_specificity(vs[j].capabilities) < filter_specificity(vs[i].capabilities)
}

/// Appends the items of `group` that a listing keeps.
fn push_group(out: &mut Vec<ContentItem>, group: &Vec<ContentItem>, include_dev: bool)
    ensures
        items_view(final(out)@) == items_view(old(out)@) + keep_dev(items_view(group@), include_dev),
{
    let ghost base = items_view(out@);
    let mut i: usize = 0;
    while i < group.len()
        invariant
            i <= group.len(),
            items_view(out@) == base + keep_dev(items_view(group@).take(i as int), include_dev),
            base == items_view(old(out)@),
        decreases group.len() - i,
    {
        proof {
            let g = items_view(group@);
            assert(g.take(i + 1).drop_last() == g.take(i as int));
            assert(g.take(i + 1).last() == group@[i as int]@);
        }
        if include_dev || !group[i].dev {
            let c = group[i].clone();
            let ghost before = out@;
            out.push(c);
            proof {
                assert(out@ == before.push(c));
                assert(items_view(out@) == items_view(before).push(c@));
            }
        }
        i += 1;
    }
    proof {
        assert(items_view(group@).take(i as int) == items_view(group@));
    }
}

impl Manifest {
    /// Whether the manifest declares variants.
    pub fn has_variants(&self) -> (r: bool)
        ensures
            r == (self.package.variants@.len() > 0),
    {
        self.package.variants.len() > 0
    }

    /// The best variant for a radio: among the matching variants, the most
    /// specific one (the last of those equally specific); `None` when no
    /// variant matches.
    pub fn select_variant(&self, radio: &RadioCapabilities) -> (r: Option<&Variant>)
        ensures
            match r {
                Some(v) => exists|i: int| is_selected_variant(self.package.variants@, *radio, i)
                    && *v == self.package.variants@[i],
                None => forall|j: int| 0 <= j < self.package.variants@.len()
                    ==> !filter_matches(#[trigger] self.package.variants@[j].capabilities, *radio),
            },
    {
        let vs = &self.package.variants;
        let mut best: Option<usize> = None;
        let mut best_spec: u8 = 0;
        let mut i: usize = 0;
        while i < vs.len()
            invariant
                i <= vs.len(),
                match best {
                    Some(b) => b < i && filter_matches(vs@[b as int].capabilities, *radio)
                        && best_spec == filter_specificity(vs@[b as int].capabilities)
                        && (forall|j: int| 0 <= j < i && filter_matches(vs@[j].capabilities, *radio)
                            ==> filter_specificity(vs@[j].capabilities) <= best_spec)
                        && (forall|j: int| b < j < i && filter_matches(vs@[j].capabilities, *radio)
                            ==> filter_specificity(vs@[j].capabilities) < best_spec),
                    None => forall|j: int| 0 <= j < i ==> !filter_matches(#[trigger] vs@[j].capabilities, *radio),
                },
            decreases vs.len() - i,
        {
            if vs[i].capabilities.matches(radio) {
                let s = vs[i].capabilities.specificity();
                match best {
                    None => {
                        best = Some(i);
                        best_spec = s;
                    },
                    Some(_) => {
                        if s >= best_spec {
                            best = Some(i);
                            best_spec = s;
                        }
                    },
                }
            }
            i += 1;
        }
        match best {
            Some(b) => {
                assert(is_selected_variant(vs@, *radio, b as int));
                Some(&vs[b])
            },
            None => None,
        }
    }

    /// The content items, libraries first; dev items only when asked for.
    pub fn content_items(&self, include_dev: bool) -> (r: Vec<ContentItem>)
        ensures
            items_view(r@) == spec_content_items(self, include_dev),
    {
        let mut items: Vec<ContentItem> = Vec::new();
        let ghost groups = content_groups(self);
        assert(listed_items(groups, 0, include_dev) == Seq::<ContentItemModel>::empty());
        assert(groups[0] == items_view(self.libraries@));
        push_group(&mut items, &self.libraries, include_dev);
        assert(items_view(items@) == Seq::<ContentItemModel>::empty() + keep_dev(groups[0], include_dev));
        assert(items_view(items@) == listed_items(groups, 1, include_dev));
        push_group(&mut items, &self.tools, include_dev);
        assert(items_view(items@) == listed_items(groups, 2, include_dev));
        push_group(&mut items, &self.telemetry, include_dev);
        assert(items_view(items@) == listed_items(groups, 3, include_dev));
        push_group(&mut items, &self.functions, include_dev);
        assert(items_view(items@) == listed_items(groups, 4, include_dev));
        push_group(&mut items, &self.mixes, include_dev);
        assert(items_view(items@) == listed_items(groups, 5, include_dev));
        push_group(&mut items, &self.widgets, include_dev);
        assert(items_view(items@) == listed_items(groups, 6, include_dev));
        push_group(&mut items, &self.sounds, include_dev);
        assert(items_view(items@) == listed_items(groups, 7, include_dev));
        push_group(&mut items, &self.images, include_dev);
        assert(items_view(items@) == listed_items(groups, 8, include_dev));
        push_group(&mut items, &self.files, include_dev);
        items
    }

    /// The content paths, libraries first; dev items only when asked for.
    pub fn all_paths(&self, include_dev: bool) -> (r: Vec<PackagePath>)
        ensures
            r@.map_values(|p: PackagePath| p@) == spec_content_items(self, include_dev).map_values(|c: ContentItemModel| c.path),
    {
        let items = self.content_items(include_dev);
        let ghost iv = items_view(items@);
        let mut out: Vec<PackagePath> = Vec::new();
        let mut i: usize = 0;
        while i < items.len()
            invariant
                i <= items.len(),
                iv == items_view(items@),
                out@.map_values(|p: PackagePath| p@) == iv.map_values(|c: ContentItemModel| c.path).take(i as int),
            decreases items.len() - i,
        {
            let p = items[i].path.clone();
            let ghost before = out@;
            out.push(p);
            proof {
                assert(out@ == before.push(p));
                assert(iv[i as int] == items@[i as int]@);
                assert(iv.map_values(|c: ContentItemModel| c.path).take(i + 1)
                    == iv.map_values(|c: ContentItemModel| c.path).take(i as int).push(iv[i as int].path));
            }
            i += 1;
        }
        proof {
            assert(iv.map_values(|c: ContentItemModel| c.path).take(i as int) == iv.map_values(|c: ContentItemModel| c.path));
        }
        out
    }
}

} // verus!

verus! {

/// A display filter accepts a display exactly when each part it sets
/// agrees: the display type fixes whether the display has color, a
/// resolution must equal both the width and the height, and a required
/// touchscreen rules out a display known to have none.
pub proof fn law_display_filter_accepts(f: DisplayFilter, d: DisplayCapabilities, r: bool)
    requires
        call_ensures(DisplayFilter::matches, (&f, &d), r),
    ensures
        f.resolution matches Some(res) && (res.width != d.width || res.height != d.height) ==> !r,
        f.display_type == Some(DisplayType::ColorLcd) && !d.color ==> !r,
        f.display_type == Some(DisplayType::Bw) && d.color ==> !r,
        f.touch == Some(true) && d.touch == Some(false) ==> !r,
        (f.display_type matches Some(t) ==> (t == DisplayType::ColorLcd) == d.color)
            && (f.resolution matches Some(res) ==> res.width == d.width && res.height == d.height)
            && !(f.touch == Some(true) && d.touch == Some(false)) ==> r,
{
}

/// The variant chosen for a radio fits its display: a resolution the
/// variant asks for is the display's own width and height, and a display
/// type it asks for agrees with whether the display has color.
pub proof fn law_selected_variant_fits(m: &Manifest, radio: &RadioCapabilities, r: Option<&Variant>)
    requires
        call_ensures(Manifest::select_variant, (m, radio), r),
    ensures
        r matches Some(v) ==> (v.capabilities.display matches Some(f) ==> (
            (f.resolution matches Some(res) ==> res.width == radio.display.width && res.height == radio.display.height)
            && (f.display_type matches Some(t) ==> (t == DisplayType::ColorLcd) == radio.display.color))),
{
}

} // verus!
