//! The simulator's radio catalog: radio models and how a user names one.
use vstd::prelude::*;
use crate::error::SimulatorError;
use crate::text::{lowercase, to_lowercase};
use crate::text::{
    append, chars_of, find, find_exec, join, join_exec, remove_chars, replace_char,
    replace_char_exec, str_eq, string_of, trim_end_matches, trim_end_matches_exec, vec_eq,
};

verus! {

/// A radio model of the simulator catalog.
#[derive(Debug, Clone)]
pub struct RadioDef {
    pub name: String,
    pub wasm: String,
    pub display: DisplayDef,
    pub inputs: Vec<InputDef>,
    pub switches: Vec<SwitchDef>,
    pub trims: Vec<TrimDef>,
    pub keys: Vec<KeyDef>,
}

/// A radio's display: width, height and bits per pixel.
#[derive(Debug, Clone, Copy)]
pub struct DisplayDef {
    pub w: i32,
    pub h: i32,
    pub depth: i32,
}

impl DisplayDef {
    /// A display of 16 or more bits per pixel is a color display.
    pub fn is_color(&self) -> (r: bool)
        ensures
            r == (self.depth >= 16),
    {
        self.depth >= 16
    }
}

#[derive(Debug, Clone, Copy, PartialEq, Eq, Structural)]
pub enum InputType {
    Stick,
    Flex,
    Unknown,
}

#[derive(Debug, Clone, Copy, PartialEq, Eq, Structural)]
pub enum InputDefault {
    Pot,
    PotCenter,
    Multipos,
    Slider,
    AxisX,
    AxisY,
    /// `NONE` in the catalog.
    NoDefault,
    Unknown,
}

#[derive(Debug, Clone, Copy, PartialEq, Eq, Structural)]
pub enum SwitchType {
    TwoPos,
    ThreePos,
    Unknown,
}

#[derive(Debug, Clone, Copy, PartialEq, Eq, Structural)]
pub enum SwitchDefault {
    TwoPos,
    ThreePos,
    Toggle,
    /// `NONE` in the catalog.
    NoDefault,
    Unknown,
}

#[derive(Debug, Clone, Copy, PartialEq, Eq, Structural)]
pub enum KeySide {
    Left,
    Right,
    Unknown,
}

impl InputType {
    /// The catalog's name for an input type; any other name is `Unknown`.
    pub open spec fn spec_from_name(s: Seq<char>) -> InputType {
        if s == "STICK"@ { InputType::Stick } else if s == "FLEX"@ { InputType::Flex } else { InputType::Unknown }
    }

    /// Reads an input type from the catalog.
    pub fn from_name(s: &str) -> (r: InputType)
        ensures
            r == InputType::spec_from_name(s@),
    {
        if str_eq(s, "STICK") { InputType::Stick } else if str_eq(s, "FLEX") { InputType::Flex } else { InputType::Unknown }
    }
}

impl Default for InputType {
    fn default() -> (r: InputType)
        ensures
            r == InputType::Unknown,
    {
        InputType::Unknown
    }
}

impl InputDefault {
    /// The catalog's name for an input's rest position; any other name is
    /// `Unknown`.
    pub open spec fn spec_from_name(s: Seq<char>) -> InputDefault {
        if s == "POT"@ {
            InputDefault::Pot
        } else if s == "POT_CENTER"@ {
            InputDefault::PotCenter
        } else if s == "MULTIPOS"@ {
            InputDefault::Multipos
        } else if s == "SLIDER"@ {
            InputDefault::Slider
        } else if s == "AXIS_X"@ {
            InputDefault::AxisX
        } else if s == "AXIS_Y"@ {
            InputDefault::AxisY
        } else if s == "NONE"@ {
            InputDefault::NoDefault
        } else {
            InputDefault::Unknown
        }
    }

    /// Reads an input's rest position from the catalog.
    pub fn from_name(s: &str) -> (r: InputDefault)
        ensures
            r == InputDefault::spec_from_name(s@),
    {
        if str_eq(s, "POT") {
            InputDefault::Pot
        } else if str_eq(s, "POT_CENTER") {
            InputDefault::PotCenter
        } else if str_eq(s, "MULTIPOS") {
            InputDefault::Multipos
        } else if str_eq(s, "SLIDER") {
            InputDefault::Slider
        } else if str_eq(s, "AXIS_X") {
            InputDefault::AxisX
        } else if str_eq(s, "AXIS_Y") {
            InputDefault::AxisY
        } else if str_eq(s, "NONE") {
            InputDefault::NoDefault
        } else {
            InputDefault::Unknown
        }
    }
}

impl Default for InputDefault {
    fn default() -> (r: InputDefault)
        ensures
            r == InputDefault::Unknown,
    {
        InputDefault::Unknown
    }
}

impl SwitchType {
    /// The catalog's name for a switch type (`3pos` is read as `3POS`); any
    /// other name is `Unknown`.
    pub open spec fn spec_from_name(s: Seq<char>) -> SwitchType {
        if s == "2POS"@ {
            SwitchType::TwoPos
        } else if s == "3POS"@ || s == "3pos"@ {
            SwitchType::ThreePos
        } else {
            SwitchType::Unknown
        }
    }

    /// Reads a switch type from the catalog.
    pub fn from_name(s: &str) -> (r: SwitchType)
        ensures
            r == SwitchType::spec_from_name(s@),
    {
        if str_eq(s, "2POS") {
            SwitchType::TwoPos
        } else if str_eq(s, "3POS") || str_eq(s, "3pos") {
            SwitchType::ThreePos
        } else {
            SwitchType::Unknown
        }
    }
}

impl Default for SwitchType {
    fn default() -> (r: SwitchType)
        ensures
            r == SwitchType::Unknown,
    {
        SwitchType::Unknown
    }
}

impl SwitchDefault {
    /// The catalog's name for a switch's rest position; any other name is
    /// `Unknown`.
    pub open spec fn spec_from_name(s: Seq<char>) -> SwitchDefault {
        if s == "2POS"@ {
            SwitchDefault::TwoPos
        } else if s == "3POS"@ {
            SwitchDefault::ThreePos
        } else if s == "TOGGLE"@ {
            SwitchDefault::Toggle
        } else if s == "NONE"@ {
            SwitchDefault::NoDefault
        } else {
            SwitchDefault::Unknown
        }
    }

    /// Reads a switch's rest position from the catalog.
    pub fn from_name(s: &str) -> (r: SwitchDefault)
        ensures
            r == SwitchDefault::spec_from_name(s@),
    {
        if str_eq(s, "2POS") {
            SwitchDefault::TwoPos
        } else if str_eq(s, "3POS") {
            SwitchDefault::ThreePos
        } else if str_eq(s, "TOGGLE") {
            SwitchDefault::Toggle
        } else if str_eq(s, "NONE") {
            SwitchDefault::NoDefault
        } else {
            SwitchDefault::Unknown
        }
    }
}

impl Default for SwitchDefault {
    fn default() -> (r: SwitchDefault)
        ensures
            r == SwitchDefault::Unknown,
    {
        SwitchDefault::Unknown
    }
}

impl KeySide {
    /// The catalog's name for a key's side (`L` or `R`); any other name is
    /// `Unknown`.
    pub open spec fn spec_from_name(s: Seq<char>) -> KeySide {
        if s == "L"@ { KeySide::Left } else if s == "R"@ { KeySide::Right } else { KeySide::Unknown }
    }

    /// Reads a key's side from the catalog.
    pub fn from_name(s: &str) -> (r: KeySide)
        ensures
            r == KeySide::spec_from_name(s@),
    {
        if str_eq(s, "L") { KeySide::Left } else if str_eq(s, "R") { KeySide::Right } else { KeySide::Unknown }
    }
}

impl Default for KeySide {
    fn default() -> (r: KeySide)
        ensures
            r == KeySide::Unknown,
    {
        KeySide::Unknown
    }
}

#[derive(Debug, Clone)]
pub struct InputDef {
    pub name: String,
    pub input_type: InputType,
    pub label: String,
    pub default: InputDefault,
}

#[derive(Debug, Clone)]
pub struct SwitchDef {
    pub name: String,
    pub switch_type: SwitchType,
    pub default: SwitchDefault,
}

#[derive(Debug, Clone)]
pub struct TrimDef {
    pub name: String,
}

#[derive(Debug, Clone)]
pub struct KeyDef {
    pub key: String,
    pub label: String,
    pub side: KeySide,
}

/// The URL-safe slug of a radio name: lower case, spaces as dashes,
/// parentheses dropped.
pub open spec fn radio_key(name: Seq<char>) -> Seq<char> {
    remove_chars(replace_char(lowercase(name), ' ', '-'), seq!['(', ')'])
}

fn remove_parens(s: &Vec<char>) -> (r: Vec<char>)
    ensures
        r@ == remove_chars(s@, seq!['(', ')']),
{
    let mut out: Vec<char> = Vec::new();
    let mut i: usize = 0;
    while i < s.len()
        invariant
            i <= s.len(),
            out@ == remove_chars(s@.take(i as int), seq!['(', ')']),
        decreases s.len() - i,
    {
        proof {
            assert(s@.take(i + 1).drop_last() == s@.take(i as int));
            assert(s@.take(i + 1).last() == s@[i as int]);
            assert(seq!['(', ')'].contains(s@[i as int]) <==> (s@[i as int] == '(' || s@[i as int] == ')')) by {
                if s@[i as int] == ')' {
                    assert(seq!['(', ')'][1] == ')');
                }
            }
        }
        let c = s[i];
        if c != '(' && c != ')' {
            out.push(c);
        }
        i += 1;
    }
    assert(s@.take(s.len() as int) == s@);
    out
}

impl RadioDef {
    /// The URL-safe slug of the radio name.
    pub fn key(&self) -> (r: String)
        ensures
            r@ == radio_key(self.name@),
    {
        let lower = chars_of(to_lowercase(self.name.as_str()).as_str());
        let dashed = replace_char_exec(&lower, ' ', '-');
        string_of(&remove_parens(&dashed))
    }
}

/// The three names a radio answers to: its lower-case name (`kind` 0), its
/// slug (1), and its lower-case WASM file name without `.wasm` (2).
pub open spec fn radio_label(r: RadioDef, kind: int) -> Seq<char> {
    if kind == 0 {
        lowercase(r.name@)
    } else if kind == 1 {
        radio_key(r.name@)
    } else {
        lowercase(trim_end_matches(r.wasm@, ".wasm"@))
    }
}

/// The first radio from `i` on whose label of the given kind is `q`.
pub open spec fn first_labelled(cat: Seq<RadioDef>, q: Seq<char>, kind: int, i: int) -> int
    decreases cat.len() - i,
{
    if i >= cat.len() {
        cat.len() as int
    } else if radio_label(cat[i], kind) == q {
        i
    } else {
        first_labelled(cat, q, kind, i + 1)
    }
}

/// The radios whose lower-case name contains `q`, in catalog order.
pub open spec fn name_contains(cat: Seq<RadioDef>, q: Seq<char>) -> Seq<RadioDef>
    decreases cat.len(),
{
    if cat.len() == 0 {
        cat
    } else {
        let rest = name_contains(cat.drop_last(), q);
        if find(lowercase(cat.last().name@), q) is Some { rest.push(cat.last()) } else { rest }
    }
}

/// Which radio a query names: by name, slug or WASM file (case-insensitive),
/// in that order; else the only radio whose name contains the query.
/// `Err(None)`: no radio; `Err(Some(names))`: several, with their names.
pub open spec fn spec_find_radio(cat: Seq<RadioDef>, query: Seq<char>) -> Result<RadioDef, Option<Seq<char>>> {
    let q = lowercase(query);
    if first_labelled(cat, q, 0, 0) < cat.len() {
        Ok(cat[first_labelled(cat, q, 0, 0)])
    } else if first_labelled(cat, q, 1, 0) < cat.len() {
        Ok(cat[first_labelled(cat, q, 1, 0)])
    } else if first_labelled(cat, q, 2, 0) < cat.len() {
        Ok(cat[first_labelled(cat, q, 2, 0)])
    } else {
        let m = name_contains(cat, q);
        if m.len() == 0 {
            Err(None)
        } else if m.len() == 1 {
            Ok(m[0])
        } else {
            Err(Some(join(m.map_values(|r: RadioDef| r.name@), ", "@)))
        }
    }
}

fn label_exec(r: &RadioDef, kind: u8) -> (l: Vec<char>)
    requires
        kind <= 2,
    ensures
        l@ == radio_label(*r, kind as int),
{
    if kind == 0 {
        chars_of(to_lowercase(r.name.as_str()).as_str())
    } else if kind == 1 {
        chars_of(r.key().as_str())
    } else {
        let t = trim_end_matches_exec(&chars_of(r.wasm.as_str()), &chars_of(".wasm"));
        chars_of(to_lowercase(string_of(&t).as_str()).as_str())
    }
}

fn first_labelled_exec(cat: &[RadioDef], q: &Vec<char>, kind: u8) -> (r: usize)
    requires
        kind <= 2,
    ensures
        r == first_labelled(cat@, q@, kind as int, 0),
        r <= cat@.len(),
{
    let mut i: usize = 0;
    while i < cat.len()
        invariant
            i <= cat.len(),
            kind <= 2,
            first_labelled(cat@, q@, kind as int, 0) == first_labelled(cat@, q@, kind as int, i as int),
        decreases cat.len() - i,
    {
        let l = label_exec(&cat[i], kind);
        if vec_eq(&l, q) {
            return i;
        }
        i += 1;
    }
    i
}

/// Finds a radio by name, slug or WASM file name (case-insensitive), or as
/// the only radio whose name contains the query.
pub fn find_radio<'a>(catalog: &'a [RadioDef], query: &str) -> (r: Result<&'a RadioDef, SimulatorError>)
    ensures
        match spec_find_radio(catalog@, query@) {
            Ok(radio) => r matches Ok(found) && *found == radio,
            Err(None) => r matches Err(SimulatorError::RadioNotFound(q)) && q@ == query@,
            Err(Some(names)) => r matches Err(SimulatorError::AmbiguousRadio { query: q, matches })
                && q@ == query@ && matches@ == names,
        },
{
    let q = chars_of(to_lowercase(query).as_str());
    let k = first_labelled_exec(catalog, &q, 0);
    if k < catalog.len() {
        return Ok(&catalog[k]);
    }
    let k = first_labelled_exec(catalog, &q, 1);
    if k < catalog.len() {
        return Ok(&catalog[k]);
    }
    let k = first_labelled_exec(catalog, &q, 2);
    if k < catalog.len() {
        return Ok(&catalog[k]);
    }
    let mut matches: Vec<&'a RadioDef> = Vec::new();
    let mut i: usize = 0;
    while i < catalog.len()
        invariant
            i <= catalog.len(),
            matches@.map_values(|p: &RadioDef| *p) == name_contains(catalog@.take(i as int), q@),
        decreases catalog.len() - i,
    {
        proof {
            assert(catalog@.take(i + 1).drop_last() == catalog@.take(i as int));
            assert(catalog@.take(i + 1).last() == catalog@[i as int]);
        }
        let lower = chars_of(to_lowercase(catalog[i].name.as_str()).as_str());
        if find_exec(&lower, &q).is_some() {
            matches.push(&catalog[i]);
        }
        i += 1;
    }
    proof {
        assert(catalog@.take(i as int) == catalog@);
        assert(matches@.map_values(|p: &RadioDef| *p).len() == matches@.len());
    }
    if matches.len() == 0 {
        return Err(SimulatorError::RadioNotFound(query.to_owned()));
    }
    if matches.len() == 1 {
        proof {
            assert(matches@.map_values(|p: &RadioDef| *p)[0] == *matches@[0]);
        }
        return Ok(matches[0]);
    }
    let mut names: Vec<Vec<char>> = Vec::new();
    let mut j: usize = 0;
    let ghost mv = matches@.map_values(|p: &RadioDef| *p);
    while j < matches.len()
        invariant
            j <= matches.len(),
            mv == matches@.map_values(|p: &RadioDef| *p),
            names@.map_values(|v: Vec<char>| v@) == mv.map_values(|r: RadioDef| r.name@).take(j as int),
        decreases matches.len() - j,
    {
        let n = chars_of(matches[j].name.as_str());
        let ghost before = names@;
        names.push(n);
        proof {
            assert(names@ == before.push(n));
            assert(mv[j as int] == *matches@[j as int]);
            assert(mv.map_values(|r: RadioDef| r.name@).take(j + 1)
                == mv.map_values(|r: RadioDef| r.name@).take(j as int).push(mv[j as int].name@));
        }
        j += 1;
    }
    proof {
        assert(mv.map_values(|r: RadioDef| r.name@).take(j as int) == mv.map_values(|r: RadioDef| r.name@));
    }
    let joined = join_exec(&names, &chars_of(", "));
    Err(SimulatorError::AmbiguousRadio { query: query.to_owned(), matches: string_of(&joined) })
}

/// A file is a WebAssembly module when its first four bytes are the
/// magic `\0asm`.
pub open spec fn has_wasm_magic(header: Seq<u8>) -> bool {
    header.len() >= 4 && header[0] == 0u8 && header[1] == 0x61u8 && header[2] == 0x73u8 && header[3] == 0x6du8
}

/// Whether a file whose first bytes are `header` (as many as could be read,
/// up to four) is a WebAssembly module.
pub fn is_valid_wasm(header: &[u8]) -> (r: bool)
    ensures
        r == has_wasm_magic(header@),
{
    header.len() >= 4 && header[0] == 0u8 && header[1] == 0x61u8 && header[2] == 0x73u8 && header[3] == 0x6du8
}

} // verus!
