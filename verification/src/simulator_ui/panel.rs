//! What the simulator window shows of a radio: which keys, switches,
//! sliders and pots go where, and the states its controls start in.
use vstd::prelude::*;
use crate::radio_catalog::{
    InputDef, InputDefault, InputType, KeyDef, KeySide, SwitchDef, SwitchDefault, SwitchType,
};
use crate::text::{
    chars_of, ends_with_char, remove_chars, slice, starts_with, starts_with_char, starts_with_exec, string_of,
    to_uppercase, trim_ws, trim_ws_exec, uppercase,
};

verus! {

/// The positions below `n`, in order, at which `f` holds.
pub open spec fn positions(n: nat, f: spec_fn(int) -> bool) -> Seq<usize>
    decreases n,
{
    if n == 0 {
        Seq::empty()
    } else if f(n - 1) {
        positions((n - 1) as nat, f).push((n - 1) as usize)
    } else {
        positions((n - 1) as nat, f)
    }
}

/// Whether a key sits right of the screen (every other key sits left).
pub open spec fn key_on_right(k: KeyDef) -> bool {
    k.side == KeySide::Right
}

/// The keys left of the screen and the keys right of it, by position in
/// the radio's key list.
pub fn key_columns(keys: &Vec<KeyDef>) -> (r: (Vec<usize>, Vec<usize>))
    ensures
        r.0@ == positions(keys@.len(), |j: int| !key_on_right(keys@[j])),
        r.1@ == positions(keys@.len(), |j: int| key_on_right(keys@[j])),
{
    let mut left: Vec<usize> = Vec::new();
    let mut right: Vec<usize> = Vec::new();
    let mut i: usize = 0;
    while i < keys.len()
        invariant
            i <= keys.len(),
            left@ == positions(i as nat, |j: int| !key_on_right(keys@[j])),
            right@ == positions(i as nat, |j: int| key_on_right(keys@[j])),
        decreases keys.len() - i,
    {
        if keys[i].side == KeySide::Right {
            right.push(i);
        } else {
            left.push(i);
        }
        i += 1;
    }
    (left, right)
}

/// Whether the window shows a switch at all (one without a rest position
/// is not fitted).
pub open spec fn switch_fitted(sw: SwitchDef) -> bool {
    sw.default != SwitchDefault::NoDefault
}

/// Whether a switch is one of the customisable push buttons, named `SW..`.
pub open spec fn is_custom_switch(sw: SwitchDef) -> bool {
    starts_with(sw.name@, "SW"@)
}

/// The toggle switches the window shows, by position in the radio's
/// switch list.
pub open spec fn toggle_switches(switches: Seq<SwitchDef>) -> Seq<usize> {
    positions(switches.len(), |j: int| switch_fitted(switches[j]) && !is_custom_switch(switches[j]))
}

/// The push buttons the window shows, by position in the radio's switch
/// list.
pub open spec fn push_switches(switches: Seq<SwitchDef>) -> Seq<usize> {
    positions(switches.len(), |j: int| switch_fitted(switches[j]) && is_custom_switch(switches[j]))
}

/// Where the window puts a radio's switches.
#[derive(Debug)]
pub struct SwitchColumns {
    /// The first half of the toggle switches, left of the sticks.
    pub left: Vec<usize>,
    /// The other toggle switches, right of the sticks.
    pub right: Vec<usize>,
    /// The push buttons, in a row of their own.
    pub custom: Vec<usize>,
}

/// Splits the toggle switches into a left and a right column (the left one
/// gets the smaller half) and lists the push buttons.
pub fn switch_columns(switches: &Vec<SwitchDef>) -> (r: SwitchColumns)
    ensures
        ({
            let t = toggle_switches(switches@);
            &&& r.left@ == t.take((t.len() / 2) as int)
            &&& r.right@ == t.skip((t.len() / 2) as int)
        }),
        r.custom@ == push_switches(switches@),
{
    let sw_prefix = chars_of("SW");
    let mut toggles: Vec<usize> = Vec::new();
    let mut custom: Vec<usize> = Vec::new();
    let mut i: usize = 0;
    while i < switches.len()
        invariant
            i <= switches.len(),
            sw_prefix@ == "SW"@,
            toggles@ == positions(i as nat, |j: int| switch_fitted(switches@[j]) && !is_custom_switch(switches@[j])),
            custom@ == positions(i as nat, |j: int| switch_fitted(switches@[j]) && is_custom_switch(switches@[j])),
        decreases switches.len() - i,
    {
        if switches[i].default != SwitchDefault::NoDefault {
            let name = chars_of(switches[i].name.as_str());
            if starts_with_exec(&name, &sw_prefix) {
                custom.push(i);
            } else {
                toggles.push(i);
            }
        }
        i += 1;
    }
    let half = toggles.len() / 2;
    let right = toggles.split_off(half);
    SwitchColumns { left: toggles, right, custom }
}

/// Whether an input is drawn as a vertical slider.
pub open spec fn is_slider(inp: InputDef) -> bool {
    inp.input_type == InputType::Flex && inp.default == InputDefault::Slider
}

/// Whether an input is drawn in the row of pots (a multi-position switch
/// among them).
pub open spec fn is_pot(inp: InputDef) -> bool {
    &&& inp.input_type == InputType::Flex
    &&& (inp.default == InputDefault::Pot || inp.default == InputDefault::PotCenter
        || inp.default == InputDefault::Multipos)
}

/// The caption of an input: its label, or its name where it has none.
pub open spec fn input_caption(inp: InputDef) -> Seq<char> {
    if inp.label@.len() == 0 { inp.name@ } else { inp.label@ }
}

/// The sliders, each with its position in the radio's input list and its
/// caption.
pub open spec fn slider_list(inputs: Seq<InputDef>) -> Seq<(usize, Seq<char>)> {
    positions(inputs.len(), |j: int| is_slider(inputs[j])).map_values(
        |j: usize| (j, input_caption(inputs[j as int])),
    )
}

/// The caption of an input.
pub fn input_caption_exec(inp: &InputDef) -> (r: String)
    ensures
        r@ == input_caption(*inp),
{
    if inp.label.as_str().is_empty() {
        inp.name.clone()
    } else {
        inp.label.clone()
    }
}

/// The sliders with their captions, and how many of them stand left of the
/// sticks (the smaller half); the rest stand right of them.
pub fn slider_columns(inputs: &Vec<InputDef>) -> (r: (Vec<(usize, String)>, usize))
    ensures
        r.0@.map_values(|p: (usize, String)| (p.0, p.1@)) == slider_list(inputs@),
        r.1 == r.0@.len() / 2,
{
    let mut out: Vec<(usize, String)> = Vec::new();
    let mut i: usize = 0;
    while i < inputs.len()
        invariant
            i <= inputs.len(),
            out@.map_values(|p: (usize, String)| (p.0, p.1@)) == positions(
                i as nat,
                |j: int| is_slider(inputs@[j]),
            ).map_values(|j: usize| (j, input_caption(inputs@[j as int]))),
        decreases inputs.len() - i,
    {
        let ghost before = out@;
        if inputs[i].input_type == InputType::Flex && inputs[i].default == InputDefault::Slider {
            let caption = input_caption_exec(&inputs[i]);
            out.push((i, caption));
            proof {
                assert(out@ == before.push((i, caption)));
                assert(out@.map_values(|p: (usize, String)| (p.0, p.1@)) =~= before.map_values(
                    |p: (usize, String)| (p.0, p.1@),
                ).push((i, caption@)));
            }
        }
        i += 1;
    }
    let n = out.len() / 2;
    (out, n)
}

/// The inputs drawn in the row of pots, by position in the radio's input
/// list.
pub fn pot_inputs(inputs: &Vec<InputDef>) -> (r: Vec<usize>)
    ensures
        r@ == positions(inputs@.len(), |j: int| is_pot(inputs@[j])),
{
    let mut out: Vec<usize> = Vec::new();
    let mut i: usize = 0;
    while i < inputs.len()
        invariant
            i <= inputs.len(),
            out@ == positions(i as nat, |j: int| is_pot(inputs@[j])),
        decreases inputs.len() - i,
    {
        let d = inputs[i].default;
        if inputs[i].input_type == InputType::Flex && (d == InputDefault::Pot || d
            == InputDefault::PotCenter || d == InputDefault::Multipos) {
            out.push(i);
        }
        i += 1;
    }
    out
}

/// The trims drawn beside the sticks: each stick's vertical trim (in a
/// column beside it) and horizontal trim (in a row below it).
#[derive(Debug, Clone, Copy, PartialEq, Eq, Structural)]
pub struct StickTrims {
    pub left_vertical: Option<usize>,
    pub left_horizontal: Option<usize>,
    pub right_vertical: Option<usize>,
    pub right_horizontal: Option<usize>,
}

/// The trims beside the sticks for a radio with `trim_count` trims: the
/// left stick gets the first two (the second one vertical) once there are
/// two, the right stick the third (vertical) and the fourth once there are
/// four.
pub fn stick_trims(trim_count: usize) -> (r: StickTrims)
    ensures
        r.left_vertical == (if trim_count >= 2 { Some(1usize) } else { None }),
        r.left_horizontal == (if trim_count >= 2 { Some(0usize) } else { None }),
        r.right_vertical == (if trim_count >= 4 { Some(2usize) } else { None }),
        r.right_horizontal == (if trim_count >= 4 { Some(3usize) } else { None }),
{
    StickTrims {
        left_vertical: if trim_count >= 2 { Some(1) } else { None },
        left_horizontal: if trim_count >= 2 { Some(0) } else { None },
        right_vertical: if trim_count >= 4 { Some(2) } else { None },
        right_horizontal: if trim_count >= 4 { Some(3) } else { None },
    }
}

/// The trims drawn in a row of their own below the sticks: all after the
/// fourth.
pub fn extra_trims(trim_count: usize) -> (r: Vec<usize>)
    ensures
        r@ == (if trim_count > 4 {
            Seq::new((trim_count - 4) as nat, |k: int| (k + 4) as usize)
        } else {
            Seq::<usize>::empty()
        }),
{
    let mut out: Vec<usize> = Vec::new();
    let mut i: usize = 4;
    while i < trim_count
        invariant
            4 <= i,
            i <= trim_count || trim_count <= 4,
            trim_count <= 4 ==> i == 4,
            out@ == Seq::new((i - 4) as nat, |k: int| (k + 4) as usize),
        decreases trim_count - i,
    {
        out.push(i);
        i += 1;
        assert(out@ =~= Seq::new((i - 4) as nat, |k: int| (k + 4) as usize));
    }
    assert(out@ =~= (if trim_count > 4 {
        Seq::new((trim_count - 4) as nat, |k: int| (k + 4) as usize)
    } else {
        Seq::<usize>::empty()
    }));
    out
}

/// The stick an input's name puts it on, going by the trimmed name's first
/// letter: `L` the left one (0), `R` the right one (1), in either case.
pub open spec fn stick_side(name: Seq<char>) -> Option<usize> {
    let t = trim_ws(name);
    if t.len() > 0 && (t[0] == 'L' || t[0] == 'l') {
        Some(0)
    } else if t.len() > 0 && (t[0] == 'R' || t[0] == 'r') {
        Some(1)
    } else {
        None
    }
}

/// The axis an input's name gives it, going by the trimmed name's last
/// letter: `H` horizontal (`true`), `V` vertical (`false`), in either case.
pub open spec fn stick_axis(name: Seq<char>) -> Option<bool> {
    let t = trim_ws(name);
    if t.len() > 0 && (t.last() == 'H' || t.last() == 'h') {
        Some(true)
    } else if t.len() > 0 && (t.last() == 'V' || t.last() == 'v') {
        Some(false)
    } else {
        None
    }
}

/// For each stick, the inputs of its horizontal and its vertical axis.
pub type StickAxes = ((usize, usize), (usize, usize));

/// `a` with one stick's axis set to input `i`.
pub open spec fn with_axis(a: StickAxes, side: usize, horizontal: bool, i: usize) -> StickAxes {
    if side == 0 {
        if horizontal { ((i, a.0.1), a.1) } else { ((a.0.0, i), a.1) }
    } else {
        if horizontal { (a.0, (i, a.1.1)) } else { (a.0, (a.1.0, i)) }
    }
}

/// The axes the first `n` inputs give the sticks: each stick input whose
/// name gives both a stick and an axis claims that axis, a later input
/// taking it over from an earlier one; an axis no input claims is input 0.
pub open spec fn stick_axes_upto(inputs: Seq<InputDef>, n: nat) -> StickAxes
    decreases n,
{
    if n == 0 {
        ((0, 0), (0, 0))
    } else {
        let a = stick_axes_upto(inputs, (n - 1) as nat);
        let inp = inputs[n - 1];
        match (stick_side(inp.name@), stick_axis(inp.name@)) {
            (Some(side), Some(horizontal)) => if inp.input_type == InputType::Stick {
                with_axis(a, side, horizontal, (n - 1) as usize)
            } else {
                a
            },
            _ => a,
        }
    }
}

/// The inputs behind each stick's axes.
pub fn stick_axes(inputs: &Vec<InputDef>) -> (r: StickAxes)
    ensures
        r == stick_axes_upto(inputs@, inputs@.len()),
{
    let mut a: StickAxes = ((0, 0), (0, 0));
    let mut i: usize = 0;
    while i < inputs.len()
        invariant
            i <= inputs.len(),
            a == stick_axes_upto(inputs@, i as nat),
        decreases inputs.len() - i,
    {
        if inputs[i].input_type == InputType::Stick {
            let t = trim_ws_exec(&chars_of(inputs[i].name.as_str()));
            let side: Option<usize> = if starts_with_char(&t, 'L') || starts_with_char(&t, 'l') {
                Some(0)
            } else if starts_with_char(&t, 'R') || starts_with_char(&t, 'r') {
                Some(1)
            } else {
                None
            };
            let axis: Option<bool> = if ends_with_char(&t, 'H') || ends_with_char(&t, 'h') {
                Some(true)
            } else if ends_with_char(&t, 'V') || ends_with_char(&t, 'v') {
                Some(false)
            } else {
                None
            };
            match (side, axis) {
                (Some(0), Some(true)) => { a = ((i, a.0.1), a.1); },
                (Some(0), Some(false)) => { a = ((a.0.0, i), a.1); },
                (Some(_), Some(true)) => { a = (a.0, (i, a.1.1)); },
                (Some(_), Some(false)) => { a = (a.0, (a.1.0, i)); },
                _ => {},
            }
        }
        i += 1;
    }
    a
}

/// Every switch starts down (state 1).
pub fn initial_switch_states(switch_count: usize) -> (r: Vec<i32>)
    ensures
        r@ == Seq::new(switch_count as nat, |k: int| 1i32),
{
    let mut out: Vec<i32> = Vec::new();
    let mut i: usize = 0;
    while i < switch_count
        invariant
            i <= switch_count,
            out@ == Seq::new(i as nat, |k: int| 1i32),
        decreases switch_count - i,
    {
        out.push(1);
        i += 1;
        assert(out@ =~= Seq::new(i as nat, |k: int| 1i32));
    }
    out
}

/// The level an input starts at: a multi-position switch at its first
/// position (0), anything else at the centre (2048).
pub open spec fn initial_level(inp: InputDef) -> u16 {
    if inp.default == InputDefault::Multipos { 0 } else { 2048 }
}

/// The levels the inputs start at, which the window shows and the firmware
/// is given on boot.
pub fn initial_input_levels(inputs: &Vec<InputDef>) -> (r: Vec<u16>)
    ensures
        r@ == inputs@.map_values(|inp: InputDef| initial_level(inp)),
{
    let mut out: Vec<u16> = Vec::new();
    let mut i: usize = 0;
    while i < inputs.len()
        invariant
            i <= inputs.len(),
            out@ == inputs@.take(i as int).map_values(|inp: InputDef| initial_level(inp)),
        decreases inputs.len() - i,
    {
        let v: u16 = if inputs[i].default == InputDefault::Multipos { 0 } else { 2048 };
        out.push(v);
        proof {
            assert(inputs@.take(i + 1) == inputs@.take(i as int).push(inputs@[i as int]));
        }
        i += 1;
        assert(out@ =~= inputs@.take(i as int).map_values(|inp: InputDef| initial_level(inp)));
    }
    assert(inputs@.take(inputs.len() as int) == inputs@);
    out
}

/// The return symbol some key labels carry.
pub const RETURN_SYMBOL: char = '\u{23CE}';

/// The text on a key's button: its label (or its key name where it has
/// none) without the return symbol, trimmed and in upper case.
pub open spec fn key_button_label(k: KeyDef) -> Seq<char> {
    let raw = if k.label@.len() == 0 { k.key@ } else { k.label@ };
    uppercase(trim_ws(remove_chars(raw, seq![RETURN_SYMBOL])))
}

/// The text on a key's button.
pub fn key_button_label_exec(k: &KeyDef) -> (r: String)
    ensures
        r@ == key_button_label(*k),
{
    let raw = if k.label.as_str().is_empty() { chars_of(k.key.as_str()) } else { chars_of(k.label.as_str()) };
    let mut kept: Vec<char> = Vec::new();
    let mut i: usize = 0;
    while i < raw.len()
        invariant
            i <= raw.len(),
            kept@ == remove_chars(raw@.take(i as int), seq![RETURN_SYMBOL]),
        decreases raw.len() - i,
    {
        proof {
            assert(raw@.take(i + 1).drop_last() == raw@.take(i as int));
            assert(seq![RETURN_SYMBOL].contains(raw@[i as int]) <==> raw@[i as int] == RETURN_SYMBOL) by {
                if raw@[i as int] == RETURN_SYMBOL {
                    assert(seq![RETURN_SYMBOL][0] == raw@[i as int]);
                }
            }
        }
        if raw[i] != RETURN_SYMBOL {
            kept.push(raw[i]);
        }
        i += 1;
    }
    assert(raw@.take(raw.len() as int) == raw@);
    let trimmed = string_of(&trim_ws_exec(&kept));
    to_uppercase(trimmed.as_str())
}

/// The name a switch is shown under: its name without a leading `Source`.
pub open spec fn switch_caption(name: Seq<char>) -> Seq<char> {
    if starts_with(name, "Source"@) { name.skip(6) } else { name }
}

/// The name a switch is shown under.
pub fn switch_caption_exec(name: &str) -> (r: String)
    ensures
        r@ == switch_caption(name@),
{
    let v = chars_of(name);
    let prefix = chars_of("Source");
    proof {
        reveal_strlit("Source");
    }
    if starts_with_exec(&v, &prefix) {
        let rest = slice(&v, 6, v.len());
        assert(rest@ == v@.skip(6));
        string_of(&rest)
    } else {
        string_of(&v)
    }
}

/// The positions a switch's buttons select, each with its caption: up
/// (-1), the middle (0) for a three-position switch, and down (1).
pub open spec fn switch_positions(t: SwitchType) -> Seq<(i32, Seq<char>)> {
    if t == SwitchType::ThreePos {
        seq![(-1i32, "UP"@), (0i32, "MID"@), (1i32, "DN"@)]
    } else {
        seq![(-1i32, "UP"@), (1i32, "DN"@)]
    }
}

/// The buttons of a switch.
pub fn switch_buttons(t: SwitchType) -> (r: Vec<(i32, &'static str)>)
    ensures
        r@.map_values(|p: (i32, &'static str)| (p.0, p.1@)) == switch_positions(t),
{
    let r: Vec<(i32, &'static str)> = if t == SwitchType::ThreePos {
        vec![(-1, "UP"), (0, "MID"), (1, "DN")]
    } else {
        vec![(-1, "UP"), (1, "DN")]
    };
    assert(r@.map_values(|p: (i32, &'static str)| (p.0, p.1@)) =~= switch_positions(t));
    r
}

} // verus!
