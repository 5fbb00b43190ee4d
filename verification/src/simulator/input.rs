//! Input events for the simulated radio, and the key names scripts use.
use vstd::prelude::*;
use crate::text::{chars_of, slice, starts_with, starts_with_exec, vec_eq};

verus! {

/// An input event sent from the user interface to the simulated radio.
#[derive(Debug, Clone, Copy, PartialEq, Eq, Structural)]
pub enum InputEvent {
    Key { index: i32, pressed: bool },
    Rotary(i32),
    Touch { x: i32, y: i32, down: bool },
    Switch { index: i32, state: i32 },
    Trim { index: i32, pressed: bool },
    Analog { index: i32, value: u16 },
    Quit,
}

/// The key names a script can use, with their simulator indices.
pub open spec fn script_keys() -> Seq<(Seq<char>, i32)> {
    seq![
        ("MENU"@, 0i32), ("EXIT"@, 1i32), ("ENTER"@, 2i32), ("PAGEUP"@, 3i32), ("PAGEDN"@, 4i32),
        ("UP"@, 5i32), ("DOWN"@, 6i32), ("LEFT"@, 7i32), ("RIGHT"@, 8i32), ("PLUS"@, 9i32),
        ("MINUS"@, 10i32), ("MODEL"@, 11i32), ("TELE"@, 12i32), ("SYS"@, 13i32),
    ]
}

/// The key table as executable values.
pub fn script_key_table() -> (r: Vec<(&'static str, i32)>)
    ensures
        r@.map_values(|e: (&'static str, i32)| (e.0@, e.1)) == script_keys(),
{
    let r: Vec<(&'static str, i32)> = vec![
        ("MENU", 0), ("EXIT", 1), ("ENTER", 2), ("PAGEUP", 3), ("PAGEDN", 4), ("UP", 5), ("DOWN", 6),
        ("LEFT", 7), ("RIGHT", 8), ("PLUS", 9), ("MINUS", 10), ("MODEL", 11), ("TELE", 12), ("SYS", 13),
    ];
    assert(r@.map_values(|e: (&'static str, i32)| (e.0@, e.1)) =~= script_keys());
    r
}

/// A key name without its `KEY_` prefix, if it has one.
pub open spec fn strip_key_prefix(name: Seq<char>) -> Seq<char> {
    if starts_with(name, "KEY_"@) { name.skip(4) } else { name }
}

/// The first table entry from `i` on with the given name.
pub open spec fn key_position(t: Seq<(Seq<char>, i32)>, name: Seq<char>, i: int) -> int
    decreases t.len() - i,
{
    if i >= t.len() {
        t.len() as int
    } else if t[i].0 == name {
        i
    } else {
        key_position(t, name, i + 1)
    }
}

/// The simulator index of a script key name (with or without `KEY_`).
pub open spec fn spec_script_key_index(name: Seq<char>) -> Option<i32> {
    let n = strip_key_prefix(name);
    let k = key_position(script_keys(), n, 0);
    if k < script_keys().len() { Some(script_keys()[k].1) } else { None }
}

/// The simulator index of a script key name; a leading `KEY_` is ignored.
pub fn script_key_index(name: &str) -> (r: Option<i32>)
    ensures
        r == spec_script_key_index(name@),
{
    let v = chars_of(name);
    let prefix = chars_of("KEY_");
    proof {
        reveal_strlit("KEY_");
    }
    let n = if starts_with_exec(&v, &prefix) { slice(&v, 4, v.len()) } else { slice(&v, 0, v.len()) };
    assert(n@ == strip_key_prefix(name@));
    let table = script_key_table();
    let ghost tv = table@.map_values(|e: (&'static str, i32)| (e.0@, e.1));
    let mut i: usize = 0;
    while i < table.len()
        invariant
            i <= table.len(),
            tv == table@.map_values(|e: (&'static str, i32)| (e.0@, e.1)),
            tv == script_keys(),
            n@ == strip_key_prefix(name@),
            key_position(tv, n@, 0) == key_position(tv, n@, i as int),
        decreases table.len() - i,
    {
        let (k, idx) = table[i];
        proof {
            assert(tv[i as int] == (k@, idx));
        }
        if vec_eq(&chars_of(k), &n) {
            proof {
                assert(tv[i as int].0 == n@);
                assert(key_position(tv, n@, i as int) == i);
                assert(script_keys()[i as int].1 == idx);
            }
            return Some(idx);
        }
        i += 1;
    }
    None
}

/// The number of analog inputs (sticks, pots, sliders) the firmware reads.
pub const ANALOG_INPUTS: usize = 16;

/// Where each analog input rests before anything moves it: mid travel.
pub const ANALOG_CENTER: i32 = 2048;

/// The analog values the firmware starts with: every input centred.
pub fn initial_analog_values() -> (r: Vec<i32>)
    ensures
        r@ == Seq::new(ANALOG_INPUTS as nat, |i: int| ANALOG_CENTER),
{
    let mut v: Vec<i32> = Vec::new();
    let mut i: usize = 0;
    while i < ANALOG_INPUTS
        invariant
            i <= ANALOG_INPUTS,
            v@ == Seq::new(i as nat, |j: int| ANALOG_CENTER),
        decreases ANALOG_INPUTS - i,
    {
        v.push(ANALOG_CENTER);
        i += 1;
        assert(v@ =~= Seq::new(i as nat, |j: int| ANALOG_CENTER));
    }
    v
}

/// The analog values after input `index` is set to `value`; an index past
/// the inputs changes nothing.
pub open spec fn spec_set_analog(values: Seq<i32>, index: int, value: u16) -> Seq<i32> {
    if 0 <= index < values.len() {
        values.update(index, value as i32)
    } else {
        values
    }
}

/// The value the firmware reads for analog input `index`: the stored value,
/// or mid travel for an index outside the inputs.
pub open spec fn spec_analog_read(values: Seq<i32>, index: int) -> i32 {
    if 0 <= index < values.len() {
        values[index]
    } else {
        ANALOG_CENTER
    }
}

/// Sets analog input `index` to `value`; an index past the inputs changes
/// nothing.
pub fn set_analog_value(values: &mut Vec<i32>, index: usize, value: u16)
    ensures
        final(values)@ == spec_set_analog(old(values)@, index as int, value),
{
    if index < values.len() {
        values.set(index, value as i32);
    }
}

/// The firmware's read of analog input `index`.
pub fn get_analog_value(values: &Vec<i32>, index: i32) -> (r: i32)
    ensures
        r == spec_analog_read(values@, index as int),
{
    if index >= 0 && (index as usize) < values.len() {
        values[index as usize]
    } else {
        ANALOG_CENTER
    }
}

/// A read gives back what was set: after input `index` of the inputs is set
/// to `value`, reading it gives `value`, and every other input reads as
/// before. Setting an index past the inputs changes no read.
pub proof fn law_analog_read_after_set(values: Seq<i32>, index: int, value: u16, other: int)
    ensures
        0 <= index < values.len() ==> spec_analog_read(spec_set_analog(values, index, value), index) == value as i32,
        other != index ==> spec_analog_read(spec_set_analog(values, index, value), other) == spec_analog_read(values, other),
        !(0 <= index < values.len()) ==> spec_set_analog(values, index, value) == values,
{
}

} // verus!
