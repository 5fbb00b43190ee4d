//! What the window shows of the firmware's state: monitor captions, global
//! variable values, push-button colours, and the button presses it hands
//! the firmware.
use vstd::prelude::*;
use crate::text::{append, chars_of, decimal, decimal_exec, string_of, zero_padded, zero_padded_exec};

verus! {

/// The caption of logical switch `i` (counted from 0): its number from 1,
/// two digits wide.
pub open spec fn spec_logical_switch_caption(i: nat) -> Seq<char> {
    zero_padded(i + 1, 2)
}

/// The caption of a logical switch.
pub fn logical_switch_caption(i: u32) -> (r: String)
    ensures
        r@ == spec_logical_switch_caption(i as nat),
{
    string_of(&zero_padded_exec(i as u64 + 1, 2))
}

/// The caption of output channel `i` (counted from 0): `CH` and its number
/// from 1, two digits wide.
pub open spec fn spec_channel_caption(i: nat) -> Seq<char> {
    "CH"@ + zero_padded(i + 1, 2)
}

/// The caption of an output channel.
pub fn channel_caption(i: u32) -> (r: String)
    ensures
        r@ == spec_channel_caption(i as nat),
{
    let mut v = chars_of("CH");
    append(&mut v, &zero_padded_exec(i as u64 + 1, 2));
    string_of(&v)
}

/// The caption of global variable `i` (counted from 0): `GV` and its number
/// from 1.
pub open spec fn spec_gvar_caption(i: nat) -> Seq<char> {
    "GV"@ + decimal(i + 1)
}

/// The caption of a global variable.
pub fn gvar_caption(i: u32) -> (r: String)
    ensures
        r@ == spec_gvar_caption(i as nat),
{
    let mut v = chars_of("GV");
    append(&mut v, &decimal_exec(i as u64 + 1));
    string_of(&v)
}

/// The caption of flight mode `fm`: `FM` and its number, counted from 0.
pub open spec fn spec_flight_mode_caption(fm: nat) -> Seq<char> {
    "FM"@ + decimal(fm)
}

/// The caption of a flight mode.
pub fn flight_mode_caption(fm: u32) -> (r: String)
    ensures
        r@ == spec_flight_mode_caption(fm as nat),
{
    let mut v = chars_of("FM");
    append(&mut v, &decimal_exec(fm as u64));
    string_of(&v)
}

/// The magnitude of an integer.
pub open spec fn magnitude(v: int) -> nat {
    if v < 0 { (-v) as nat } else { v as nat }
}

/// A global variable's value as the window shows it: with one decimal for
/// precision 1 (the value counts tenths), two for precision 2 (hundredths),
/// else as a whole number; a `-` before a negative one.
pub open spec fn spec_gvar_text(value: int, precision: u8) -> Seq<char> {
    let sign = if value < 0 { "-"@ } else { Seq::<char>::empty() };
    let m = magnitude(value);
    if precision == 1 {
        sign + decimal(m / 10) + "."@ + decimal(m % 10)
    } else if precision == 2 {
        sign + decimal(m / 100) + "."@ + zero_padded(m % 100, 2)
    } else {
        sign + decimal(m)
    }
}

/// A global variable's value as the window shows it.
pub fn gvar_text(value: i32, precision: u8) -> (r: String)
    ensures
        r@ == spec_gvar_text(value as int, precision),
{
    let m: u64 = if value < 0 { (-(value as i64)) as u64 } else { value as u64 };
    let mut v: Vec<char> = if value < 0 { chars_of("-") } else { Vec::new() };
    if precision == 1 {
        append(&mut v, &decimal_exec(m / 10));
        append(&mut v, &chars_of("."));
        append(&mut v, &decimal_exec(m % 10));
    } else if precision == 2 {
        append(&mut v, &decimal_exec(m / 100));
        append(&mut v, &chars_of("."));
        append(&mut v, &zero_padded_exec(m % 100, 2));
    } else {
        append(&mut v, &decimal_exec(m));
    }
    proof {
        reveal_strlit("-");
        reveal_strlit(".");
    }
    string_of(&v)
}

/// A colour as red, green and blue.
pub type Rgb = (u8, u8, u8);

/// The colour of a lit push button whose firmware colour is unset.
pub const PUSH_BUTTON_LIT: Rgb = (56, 191, 249);

/// The colour of an unlit push button.
pub const PUSH_BUTTON_DARK: Rgb = (60, 60, 60);

/// A push button's colour as the firmware reports it: its own colour
/// (`0xRRGGBB`) when lit and set, the default lit colour when lit and
/// unset, dark when not lit.
pub open spec fn spec_push_button_color(lit: bool, rgb: u32) -> Rgb {
    if lit && rgb != 0 {
        (((rgb / 0x10000) % 0x100) as u8, ((rgb / 0x100) % 0x100) as u8, (rgb % 0x100) as u8)
    } else if lit {
        PUSH_BUTTON_LIT
    } else {
        PUSH_BUTTON_DARK
    }
}

/// A push button's colour as the firmware reports it.
pub fn push_button_color(lit: bool, rgb: u32) -> (r: Rgb)
    ensures
        r == spec_push_button_color(lit, rgb),
{
    if lit && rgb != 0 {
        (((rgb / 0x10000) % 0x100) as u8, ((rgb / 0x100) % 0x100) as u8, (rgb % 0x100) as u8)
    } else if lit {
        PUSH_BUTTON_LIT
    } else {
        PUSH_BUTTON_DARK
    }
}

/// The colour a push button is drawn in: the firmware's report where there
/// is one, else lit while it is pressed and dark otherwise.
pub fn push_button_fill(reported: Option<Rgb>, pressed: bool) -> (r: Rgb)
    ensures
        r == (match reported {
            Some(c) => c,
            None => if pressed { PUSH_BUTTON_LIT } else { PUSH_BUTTON_DARK },
        }),
{
    match reported {
        Some(c) => c,
        None => if pressed {
            PUSH_BUTTON_LIT
        } else {
            PUSH_BUTTON_DARK
        },
    }
}

/// The final state of each button over a run of presses and releases: the
/// state of its last event.
pub open spec fn final_states(events: Seq<(i32, bool)>) -> Map<i32, bool>
    decreases events.len(),
{
    if events.len() == 0 {
        Map::empty()
    } else {
        final_states(events.drop_last()).insert(events.last().0, events.last().1)
    }
}

/// The buttons of a list of button states.
pub open spec fn buttons_of(s: Seq<(i32, bool)>) -> Seq<i32> {
    s.map_values(|p: (i32, bool)| p.0)
}

/// The map a list of button states, each button once, stands for.
pub open spec fn as_state_map(s: Seq<(i32, bool)>) -> Map<i32, bool> {
    Map::new(
        |b: i32| exists|k: int| 0 <= k < s.len() && s[k].0 == b,
        |b: i32| s[choose|k: int| 0 <= k < s.len() && s[k].0 == b].1,
    )
}

/// One state per button out of the events drained since the last update,
/// each its last: the firmware is then told each button's state once.
/// Buttons come in the order they first appear.
pub fn final_presses(events: &Vec<(i32, bool)>) -> (r: Vec<(i32, bool)>)
    ensures
        buttons_of(r@).no_duplicates(),
        as_state_map(r@) == final_states(events@),
{
    let mut out: Vec<(i32, bool)> = Vec::new();
    let mut i: usize = 0;
    while i < events.len()
        invariant
            i <= events.len(),
            buttons_of(out@).no_duplicates(),
            as_state_map(out@) == final_states(events@.take(i as int)),
        decreases events.len() - i,
    {
        let (b, pressed) = events[i];
        let ghost before = out@;
        let mut j: usize = 0;
        while j < out.len() && out[j].0 != b
            invariant
                j <= out.len(),
                out@ == before,
                forall|k: int| 0 <= k < j ==> out@[k].0 != b,
            decreases out.len() - j,
        {
            j += 1;
        }
        if j < out.len() {
            out.set(j, (b, pressed));
            proof {
                assert(buttons_of(out@) =~= buttons_of(before));
                assert forall|k: int| 0 <= k < out@.len() && out@[k].0 == b implies k == j by {
                    if k != j {
                        assert(buttons_of(before)[k] == buttons_of(before)[j as int]);
                    }
                }
            }
        } else {
            out.push((b, pressed));
            proof {
                assert(buttons_of(out@) =~= buttons_of(before).push(b));
            }
        }
        proof {
            assert(events@.take(i + 1).drop_last() =~= events@.take(i as int));
            assert(events@.take(i + 1).last() == (b, pressed));
            let m = as_state_map(out@);
            let want = final_states(events@.take(i as int)).insert(b, pressed);
            assert forall|c: i32| #[trigger] m.dom().contains(c) <==> want.dom().contains(c) by {
                if c != b {
                    if m.dom().contains(c) {
                        let k = choose|k: int| 0 <= k < out@.len() && out@[k].0 == c;
                        assert(0 <= k < before.len() && before[k].0 == c);
                    }
                    if as_state_map(before).dom().contains(c) {
                        let k = choose|k: int| 0 <= k < before.len() && before[k].0 == c;
                        assert(0 <= k < out@.len() && out@[k].0 == c);
                    }
                } else {
                    let k = if j < before.len() { j as int } else { before.len() as int };
                    assert(0 <= k < out@.len() && out@[k].0 == b);
                }
            }
            assert forall|c: i32| m.dom().contains(c) implies #[trigger] m[c] == want[c] by {
                let k = choose|k: int| 0 <= k < out@.len() && out@[k].0 == c;
                if c == b {
                    let kb = if j < before.len() { j as int } else { before.len() as int };
                    assert(out@[kb].0 == b);
                    assert(buttons_of(out@)[k] == buttons_of(out@)[kb]);
                } else {
                    assert(before[k].0 == c);
                    let k0 = choose|k: int| 0 <= k < before.len() && before[k].0 == c;
                    assert(buttons_of(before)[k] == buttons_of(before)[k0]);
                }
            }
            assert(m =~= want);
        }
        i += 1;
    }
    assert(events@.take(events.len() as int) =~= events@);
    out
}

} // verus!
