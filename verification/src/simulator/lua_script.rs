//! What an action script's calls mean for the simulated radio: how key,
//! switch, trim and input arguments name the radio's controls, and which
//! values the calls accept.
use vstd::prelude::*;
use crate::radio_catalog::{InputDef, KeyDef, RadioDef, SwitchDef, TrimDef};
use crate::simulator::input::{script_key_index, script_key_table, script_keys, spec_script_key_index, strip_key_prefix};
use crate::simulator::script::eq_ascii_ci;
use crate::keyed::{entries_map, insert_entry, keys_unique};
use crate::text::{
    append, chars_of, eq_ignore_ascii_case, join, join_exec, signed_decimal, signed_decimal_exec,
    slice, starts_with_exec, string_of, to_uppercase, uppercase,
};

verus! {

/// A value a script passes for a control: a whole number, a text, or a
/// value of another Lua type (named by the type).
#[derive(Debug)]
pub enum ScriptValue {
    Integer(i64),
    Text(String),
    Other(String),
}

/// The key name a script value gives: a text, in upper case.
pub fn resolve_key_name(val: &ScriptValue) -> (r: Result<String, String>)
    ensures
        match val {
            ScriptValue::Text(s) => r matches Ok(n) && n@ == uppercase(s@),
            ScriptValue::Integer(_) => r matches Err(m) && m@ == "expected string, got integer"@,
            ScriptValue::Other(t) => r matches Err(m) && m@ == "expected string, got "@ + t@,
        },
{
    match val {
        ScriptValue::Text(s) => Ok(to_uppercase(s.as_str())),
        ScriptValue::Integer(_) => Err("expected string, got integer".to_owned()),
        ScriptValue::Other(t) => {
            let mut m = chars_of("expected string, got ");
            append(&mut m, &chars_of(t.as_str()));
            Err(string_of(&m))
        }
    }
}

/// The names of the script keys, in table order.
pub open spec fn script_key_names() -> Seq<Seq<char>> {
    script_keys().map_values(|e: (Seq<char>, i32)| e.0)
}

/// The simulator index of a key name (a leading `KEY_` is ignored), or the
/// message naming the keys there are.
pub open spec fn spec_key_index(name: Seq<char>) -> Result<i32, Seq<char>> {
    let n = strip_key_prefix(name);
    match spec_script_key_index(n) {
        Some(i) => Ok(i),
        None => Err("unknown key \""@ + n + "\" (available: "@ + join(script_key_names(), ", "@) + ")"@),
    }
}

fn without_key_prefix(name: &str) -> (r: Vec<char>)
    ensures
        r@ == strip_key_prefix(name@),
{
    let v = chars_of(name);
    proof {
        reveal_strlit("KEY_");
    }
    if starts_with_exec(&v, &chars_of("KEY_")) { slice(&v, 4, v.len()) } else { v }
}

fn script_key_name_list() -> (r: Vec<Vec<char>>)
    ensures
        r@.map_values(|v: Vec<char>| v@) == script_key_names(),
{
    let table = script_key_table();
    let ghost tv = table@.map_values(|e: (&'static str, i32)| (e.0@, e.1));
    let mut out: Vec<Vec<char>> = Vec::new();
    let mut i: usize = 0;
    while i < table.len()
        invariant
            i <= table.len(),
            tv == table@.map_values(|e: (&'static str, i32)| (e.0@, e.1)),
            tv == script_keys(),
            out@.map_values(|v: Vec<char>| v@) == script_key_names().take(i as int),
        decreases table.len() - i,
    {
        let c = chars_of(table[i].0);
        let ghost before = out@;
        out.push(c);
        proof {
            assert(tv[i as int] == (table@[i as int].0@, table@[i as int].1));
            assert(out@.map_values(|v: Vec<char>| v@) == before.map_values(|v: Vec<char>| v@).push(c@));
            assert(script_key_names().take(i + 1) == script_key_names().take(i as int).push(script_key_names()[i as int]));
        }
        i += 1;
    }
    proof {
        assert(script_key_names().take(i as int) == script_key_names());
    }
    out
}

/// The simulator index of a key name a script gives.
pub fn key_index(name: &str) -> (r: Result<i32, String>)
    ensures
        match spec_key_index(name@) {
            Ok(i) => r == Ok::<i32, String>(i),
            Err(m) => r matches Err(e) && e@ == m,
        },
{
    let n = without_key_prefix(name);
    let ns = string_of(&n);
    match script_key_index(ns.as_str()) {
        Some(i) => Ok(i),
        None => {
            let mut m = chars_of("unknown key \"");
            append(&mut m, &n);
            append(&mut m, &chars_of("\" (available: "));
            append(&mut m, &join_exec(&script_key_name_list(), &chars_of(", ")));
            append(&mut m, &chars_of(")"));
            Err(string_of(&m))
        }
    }
}

/// The first name from `i` on equal to `name` up to ASCII case, or the
/// number of names.
pub open spec fn first_named(names: Seq<Seq<char>>, name: Seq<char>, i: int) -> int
    decreases names.len() - i,
{
    if i >= names.len() {
        names.len() as int
    } else if eq_ignore_ascii_case(names[i], name) {
        i
    } else {
        first_named(names, name, i + 1)
    }
}

/// The index a script value names among a radio's controls of one kind
/// (`what`): a whole number in range, or a name matched up to ASCII case;
/// otherwise the message the script is stopped with.
pub open spec fn spec_resolve_index(
    val: ScriptValue,
    what: Seq<char>,
    names: Seq<Seq<char>>,
    radio_name: Seq<char>,
) -> Result<i32, Seq<char>> {
    let available = " (available: "@ + join(names, ", "@) + ")"@;
    match val {
        ScriptValue::Integer(n) => {
            let idx = n as i32;
            if idx < 0 || idx >= names.len() {
                Err(what + " index "@ + signed_decimal(idx as int) + " out of range for "@ + radio_name + available)
            } else {
                Ok(idx)
            }
        }
        ScriptValue::Text(s) => {
            let k = first_named(names, s@, 0);
            if k < names.len() {
                Ok(k as i32)
            } else {
                Err("unknown "@ + what + " \""@ + s@ + "\" for "@ + radio_name + available)
            }
        }
        ScriptValue::Other(t) => Err("expected string or integer, got "@ + t@),
    }
}

proof fn lemma_first_named_bounds(names: Seq<Seq<char>>, name: Seq<char>, i: int)
    requires
        0 <= i <= names.len(),
    ensures
        i <= first_named(names, name, i) <= names.len(),
    decreases names.len() - i,
{
    if i < names.len() && !eq_ignore_ascii_case(names[i], name) {
        lemma_first_named_bounds(names, name, i + 1);
    }
}

fn position_ci(names: &Vec<Vec<char>>, name: &str) -> (r: usize)
    ensures
        r == first_named(names@.map_values(|v: Vec<char>| v@), name@, 0),
        r <= names@.len(),
{
    let ghost nv = names@.map_values(|v: Vec<char>| v@);
    proof {
        lemma_first_named_bounds(nv, name@, 0);
    }
    let mut i: usize = 0;
    while i < names.len()
        invariant
            i <= names.len(),
            nv == names@.map_values(|v: Vec<char>| v@),
            first_named(nv, name@, 0) == first_named(nv, name@, i as int),
        decreases names.len() - i,
    {
        proof {
            assert(nv[i as int] == names@[i as int]@);
        }
        if eq_ascii_ci(&names[i], name) {
            return i;
        }
        i += 1;
    }
    i
}

fn resolve_index(val: &ScriptValue, what: &str, names: &Vec<Vec<char>>, radio_name: &str) -> (r: Result<i32, String>)
    ensures
        match spec_resolve_index(*val, what@, names@.map_values(|v: Vec<char>| v@), radio_name@) {
            Ok(i) => r == Ok::<i32, String>(i),
            Err(m) => r matches Err(e) && e@ == m,
        },
{
    let ghost nv = names@.map_values(|v: Vec<char>| v@);
    let mut available = chars_of(" (available: ");
    append(&mut available, &join_exec(names, &chars_of(", ")));
    append(&mut available, &chars_of(")"));
    match val {
        ScriptValue::Integer(n) => {
            let idx: i32 = *n as i32;
            if idx < 0 || idx as usize >= names.len() {
                let mut m = chars_of(what);
                append(&mut m, &chars_of(" index "));
                append(&mut m, &signed_decimal_exec(idx));
                append(&mut m, &chars_of(" out of range for "));
                append(&mut m, &chars_of(radio_name));
                append(&mut m, &available);
                Err(string_of(&m))
            } else {
                Ok(idx)
            }
        }
        ScriptValue::Text(s) => {
            let sv = s.as_str();
            let k = position_ci(names, sv);
            if k < names.len() {
                return Ok(k as i32);
            }
            let mut m = chars_of("unknown ");
            append(&mut m, &chars_of(what));
            append(&mut m, &chars_of(" \""));
            append(&mut m, &chars_of(sv));
            append(&mut m, &chars_of("\" for "));
            append(&mut m, &chars_of(radio_name));
            append(&mut m, &available);
            Err(string_of(&m))
        }
        ScriptValue::Other(t) => {
            let mut m = chars_of("expected string or integer, got ");
            append(&mut m, &chars_of(t.as_str()));
            Err(string_of(&m))
        }
    }
}

/// The names of a radio's switches.
pub open spec fn switch_names(radio: RadioDef) -> Seq<Seq<char>> {
    radio.switches@.map_values(|d: SwitchDef| d.name@)
}

/// The names of a radio's trims.
pub open spec fn trim_names(radio: RadioDef) -> Seq<Seq<char>> {
    radio.trims@.map_values(|d: TrimDef| d.name@)
}

/// The names of a radio's analog inputs.
pub open spec fn input_names(radio: RadioDef) -> Seq<Seq<char>> {
    radio.inputs@.map_values(|d: InputDef| d.name@)
}

fn switch_name_list(radio: &RadioDef) -> (r: Vec<Vec<char>>)
    ensures
        r@.map_values(|v: Vec<char>| v@) == switch_names(*radio),
{
    let mut out: Vec<Vec<char>> = Vec::new();
    let mut i: usize = 0;
    while i < radio.switches.len()
        invariant
            i <= radio.switches.len(),
            out@.map_values(|v: Vec<char>| v@) == switch_names(*radio).take(i as int),
        decreases radio.switches.len() - i,
    {
        let c = chars_of(radio.switches[i].name.as_str());
        let ghost before = out@;
        out.push(c);
        proof {
            assert(out@.map_values(|v: Vec<char>| v@) == before.map_values(|v: Vec<char>| v@).push(c@));
            assert(switch_names(*radio).take(i + 1) == switch_names(*radio).take(i as int).push(switch_names(*radio)[i as int]));
        }
        i += 1;
    }
    proof {
        assert(switch_names(*radio).take(i as int) == switch_names(*radio));
    }
    out
}

fn trim_name_list(radio: &RadioDef) -> (r: Vec<Vec<char>>)
    ensures
        r@.map_values(|v: Vec<char>| v@) == trim_names(*radio),
{
    let mut out: Vec<Vec<char>> = Vec::new();
    let mut i: usize = 0;
    while i < radio.trims.len()
        invariant
            i <= radio.trims.len(),
            out@.map_values(|v: Vec<char>| v@) == trim_names(*radio).take(i as int),
        decreases radio.trims.len() - i,
    {
        let c = chars_of(radio.trims[i].name.as_str());
        let ghost before = out@;
        out.push(c);
        proof {
            assert(out@.map_values(|v: Vec<char>| v@) == before.map_values(|v: Vec<char>| v@).push(c@));
            assert(trim_names(*radio).take(i + 1) == trim_names(*radio).take(i as int).push(trim_names(*radio)[i as int]));
        }
        i += 1;
    }
    proof {
        assert(trim_names(*radio).take(i as int) == trim_names(*radio));
    }
    out
}

fn input_name_list(radio: &RadioDef) -> (r: Vec<Vec<char>>)
    ensures
        r@.map_values(|v: Vec<char>| v@) == input_names(*radio),
{
    let mut out: Vec<Vec<char>> = Vec::new();
    let mut i: usize = 0;
    while i < radio.inputs.len()
        invariant
            i <= radio.inputs.len(),
            out@.map_values(|v: Vec<char>| v@) == input_names(*radio).take(i as int),
        decreases radio.inputs.len() - i,
    {
        let c = chars_of(radio.inputs[i].name.as_str());
        let ghost before = out@;
        out.push(c);
        proof {
            assert(out@.map_values(|v: Vec<char>| v@) == before.map_values(|v: Vec<char>| v@).push(c@));
            assert(input_names(*radio).take(i + 1) == input_names(*radio).take(i as int).push(input_names(*radio)[i as int]));
        }
        i += 1;
    }
    proof {
        assert(input_names(*radio).take(i as int) == input_names(*radio));
    }
    out
}

/// The switch a script value names on a radio.
pub fn resolve_switch_index(val: &ScriptValue, radio: &RadioDef) -> (r: Result<i32, String>)
    ensures
        match spec_resolve_index(*val, "switch"@, switch_names(*radio), radio.name@) {
            Ok(i) => r == Ok::<i32, String>(i),
            Err(m) => r matches Err(e) && e@ == m,
        },
{
    resolve_index(val, "switch", &switch_name_list(radio), radio.name.as_str())
}

/// The trim a script value names on a radio.
pub fn resolve_trim_index(val: &ScriptValue, radio: &RadioDef) -> (r: Result<i32, String>)
    ensures
        match spec_resolve_index(*val, "trim"@, trim_names(*radio), radio.name@) {
            Ok(i) => r == Ok::<i32, String>(i),
            Err(m) => r matches Err(e) && e@ == m,
        },
{
    resolve_index(val, "trim", &trim_name_list(radio), radio.name.as_str())
}

/// The analog input a script value names on a radio.
pub fn resolve_input_index(val: &ScriptValue, radio: &RadioDef) -> (r: Result<i32, String>)
    ensures
        match spec_resolve_index(*val, "input"@, input_names(*radio), radio.name@) {
            Ok(i) => r == Ok::<i32, String>(i),
            Err(m) => r matches Err(e) && e@ == m,
        },
{
    resolve_index(val, "input", &input_name_list(radio), radio.name.as_str())
}

/// The key names a script sees as constants: every script key when the
/// radio lists no keys; otherwise the radio's keys (without `KEY_`) that
/// are script keys, in the radio's order.
pub open spec fn listed_key_constants(keys: Seq<KeyDef>) -> Seq<Seq<char>>
    decreases keys.len(),
{
    if keys.len() == 0 {
        Seq::empty()
    } else {
        let n = strip_key_prefix(keys.last().key@);
        let rest = listed_key_constants(keys.drop_last());
        if spec_script_key_index(n) is Some { rest.push(n) } else { rest }
    }
}

/// The key constants a script sees for a radio.
pub open spec fn spec_key_constants(radio: RadioDef) -> Seq<Seq<char>> {
    if radio.keys@.len() == 0 { script_key_names() } else { listed_key_constants(radio.keys@) }
}

/// The key constants a script sees for a radio.
pub fn key_constants(radio: &RadioDef) -> (r: Vec<String>)
    ensures
        r@.map_values(|s: String| s@) == spec_key_constants(*radio),
{
    let mut out: Vec<String> = Vec::new();
    if radio.keys.len() == 0 {
        let names = script_key_name_list();
        let mut i: usize = 0;
        while i < names.len()
            invariant
                i <= names.len(),
                names@.map_values(|v: Vec<char>| v@) == script_key_names(),
                out@.map_values(|s: String| s@) == script_key_names().take(i as int),
            decreases names.len() - i,
        {
            let s = string_of(&names[i]);
            let ghost before = out@;
            out.push(s);
            proof {
                assert(out@.map_values(|s: String| s@) == before.map_values(|s: String| s@).push(s@));
                assert(names@.map_values(|v: Vec<char>| v@)[i as int] == names@[i as int]@);
                assert(script_key_names().take(i + 1) == script_key_names().take(i as int).push(script_key_names()[i as int]));
            }
            i += 1;
        }
        proof {
            assert(script_key_names().take(i as int) == script_key_names());
        }
        return out;
    }
    let mut i: usize = 0;
    while i < radio.keys.len()
        invariant
            i <= radio.keys.len(),
            out@.map_values(|s: String| s@) == listed_key_constants(radio.keys@.take(i as int)),
        decreases radio.keys.len() - i,
    {
        let n = without_key_prefix(radio.keys[i].key.as_str());
        let ns = string_of(&n);
        proof {
            assert(radio.keys@.take(i + 1).drop_last() == radio.keys@.take(i as int));
            assert(radio.keys@.take(i + 1).last() == radio.keys@[i as int]);
        }
        if script_key_index(ns.as_str()).is_some() {
            let ghost before = out@;
            out.push(ns);
            proof {
                assert(out@.map_values(|s: String| s@) == before.map_values(|s: String| s@).push(n@));
            }
        }
        i += 1;
    }
    proof {
        assert(radio.keys@.take(i as int) == radio.keys@);
    }
    out
}

/// Checks a switch state a script sets: -1, 0 or 1.
pub fn check_switch_state(state: i32) -> (r: Result<i32, String>)
    ensures
        -1 <= state <= 1 ==> r == Ok::<i32, String>(state),
        !(-1 <= state <= 1) ==> (r matches Err(m)
            && m@ == "switch state "@ + signed_decimal(state as int) + " out of range (-1, 0, 1)"@),
{
    if -1 <= state && state <= 1 {
        return Ok(state);
    }
    let mut m = chars_of("switch state ");
    append(&mut m, &signed_decimal_exec(state));
    append(&mut m, &chars_of(" out of range (-1, 0, 1)"));
    Err(string_of(&m))
}

/// Checks an analog value a script sets: 0 to 4096.
pub fn check_analog_value(value: i32) -> (r: Result<u16, String>)
    ensures
        0 <= value <= 4096 ==> r == Ok::<u16, String>(value as u16),
        !(0 <= value <= 4096) ==> (r matches Err(m)
            && m@ == "analog value "@ + signed_decimal(value as int) + " out of range (0-4096)"@),
{
    if 0 <= value && value <= 4096 {
        return Ok(value as u16);
    }
    let mut m = chars_of("analog value ");
    append(&mut m, &signed_decimal_exec(value));
    append(&mut m, &chars_of(" out of range (0-4096)"));
    Err(string_of(&m))
}

/// The constant table a script sees for a list of controls: each name
/// stands for its index, a later control of the same name taking the name
/// over.
pub open spec fn index_table(names: Seq<Seq<char>>) -> Map<Seq<char>, i32>
    decreases names.len(),
{
    if names.len() == 0 {
        Map::empty()
    } else {
        index_table(names.drop_last()).insert(names.last(), (names.len() - 1) as i32)
    }
}

/// The `SWITCH` constants: each switch's name with its index.
pub fn switch_constants(radio: &RadioDef) -> (r: Vec<(String, i32)>)
    requires
        radio.switches@.len() <= i32::MAX,
    ensures
        keys_unique(r@),
        entries_map(r@) == index_table(switch_names(*radio)),
{
    let mut out: Vec<(String, i32)> = Vec::new();
    let mut i: usize = 0;
    while i < radio.switches.len()
        invariant
            i <= radio.switches.len(),
            radio.switches@.len() <= i32::MAX,
            keys_unique(out@),
            entries_map(out@) == index_table(switch_names(*radio).take(i as int)),
        decreases radio.switches.len() - i,
    {
        proof {
            assert(switch_names(*radio).take(i + 1).drop_last() == switch_names(*radio).take(i as int));
        }
        insert_entry(&mut out, radio.switches[i].name.clone(), i as i32);
        i += 1;
    }
    assert(switch_names(*radio).take(i as int) == switch_names(*radio));
    out
}

/// The `INPUT` constants: each analog input's name with its index.
pub fn input_constants(radio: &RadioDef) -> (r: Vec<(String, i32)>)
    requires
        radio.inputs@.len() <= i32::MAX,
    ensures
        keys_unique(r@),
        entries_map(r@) == index_table(input_names(*radio)),
{
    let mut out: Vec<(String, i32)> = Vec::new();
    let mut i: usize = 0;
    while i < radio.inputs.len()
        invariant
            i <= radio.inputs.len(),
            radio.inputs@.len() <= i32::MAX,
            keys_unique(out@),
            entries_map(out@) == index_table(input_names(*radio).take(i as int)),
        decreases radio.inputs.len() - i,
    {
        proof {
            assert(input_names(*radio).take(i + 1).drop_last() == input_names(*radio).take(i as int));
        }
        insert_entry(&mut out, radio.inputs[i].name.clone(), i as i32);
        i += 1;
    }
    assert(input_names(*radio).take(i as int) == input_names(*radio));
    out
}

/// The `TRIM` constants: each trim's name with its index.
pub fn trim_constants(radio: &RadioDef) -> (r: Vec<(String, i32)>)
    requires
        radio.trims@.len() <= i32::MAX,
    ensures
        keys_unique(r@),
        entries_map(r@) == index_table(trim_names(*radio)),
{
    let mut out: Vec<(String, i32)> = Vec::new();
    let mut i: usize = 0;
    while i < radio.trims.len()
        invariant
            i <= radio.trims.len(),
            radio.trims@.len() <= i32::MAX,
            keys_unique(out@),
            entries_map(out@) == index_table(trim_names(*radio).take(i as int)),
        decreases radio.trims.len() - i,
    {
        proof {
            assert(trim_names(*radio).take(i + 1).drop_last() == trim_names(*radio).take(i as int));
        }
        insert_entry(&mut out, radio.trims[i].name.clone(), i as i32);
        i += 1;
    }
    assert(trim_names(*radio).take(i as int) == trim_names(*radio));
    out
}

/// A 1-based index a script passes into `count` items, checked: its
/// 0-based position, or the message that it is out of range (`what` names
/// the index, as in `channel index`).
pub open spec fn spec_checked_position(what: Seq<char>, index: i32, count: i32) -> Result<usize, Seq<char>> {
    if index < 1 || index > count {
        Err(what + " "@ + signed_decimal(index as int) + " out of range (1-"@ + signed_decimal(count as int) + ")"@)
    } else {
        Ok((index - 1) as usize)
    }
}

/// Checks a 1-based index a script passes.
pub fn checked_position(what: &str, index: i32, count: i32) -> (r: Result<usize, String>)
    ensures
        (match r {
            Ok(p) => spec_checked_position(what@, index, count) == Ok::<usize, Seq<char>>(p),
            Err(m) => spec_checked_position(what@, index, count) == Err::<usize, Seq<char>>(m@),
        }),
{
    if index < 1 || index > count {
        let mut m = chars_of(what);
        append(&mut m, &chars_of(" "));
        append(&mut m, &signed_decimal_exec(index));
        append(&mut m, &chars_of(" out of range (1-"));
        append(&mut m, &signed_decimal_exec(count));
        append(&mut m, &chars_of(")"));
        return Err(string_of(&m));
    }
    Ok((index - 1) as usize)
}

/// The value at a position of the firmware's channel or mixer outputs; 0
/// past their end.
pub fn output_at(outputs: &Vec<i16>, pos: usize) -> (r: i32)
    ensures
        r == (if pos < outputs@.len() { outputs@[pos as int] as i32 } else { 0i32 }),
{
    if pos < outputs.len() {
        outputs[pos] as i32
    } else {
        0
    }
}

/// The state at a position of the firmware's logical switches; off past
/// their end.
pub fn logical_switch_at(states: &Vec<bool>, pos: usize) -> (r: bool)
    ensures
        r == (pos < states@.len() && states@[pos as int]),
{
    pos < states.len() && states[pos]
}

/// Whether the channel at a position is in use: its bit in the firmware's
/// mask of used channels.
pub fn channel_in_use(mask: u32, pos: u32) -> (r: bool)
    requires
        pos < 32,
    ensures
        r == ((mask >> pos) % 2 == 1),
{
    let r = mask & (1u32 << pos) != 0;
    assert((mask & (1u32 << pos) != 0) == ((mask >> pos) % 2 == 1)) by (bit_vector)
        requires
            pos < 32;
    r
}

/// A control's constant (its index) names that control: resolving the
/// index gives it back.
pub proof fn law_index_resolves_to_itself(what: Seq<char>, names: Seq<Seq<char>>, radio_name: Seq<char>, i: int)
    requires
        0 <= i < names.len(),
        names.len() <= i32::MAX,
    ensures
        spec_resolve_index(ScriptValue::Integer(i as i64), what, names, radio_name) == Ok::<i32, Seq<char>>(i as i32),
{
    assert((i as i64) as i32 == i);
}

/// A control's name resolves to a control of that name (up to ASCII case):
/// the first such one, so never to one after it.
pub proof fn law_name_resolves_to_a_match(
    what: Seq<char>,
    names: Seq<Seq<char>>,
    radio_name: Seq<char>,
    s: String,
    i: int,
)
    requires
        0 <= i < names.len(),
        names.len() <= i32::MAX,
        s@ == names[i],
    ensures
        spec_resolve_index(ScriptValue::Text(s), what, names, radio_name) matches Ok(k)
            && 0 <= k <= i && eq_ignore_ascii_case(names[k as int], names[i]),
{
    lemma_first_named_upto(names, s@, 0, i);
}

proof fn lemma_first_named_upto(names: Seq<Seq<char>>, name: Seq<char>, j: int, i: int)
    requires
        0 <= j <= i < names.len(),
        eq_ignore_ascii_case(names[i], name),
    ensures
        j <= first_named(names, name, j) <= i,
        eq_ignore_ascii_case(names[first_named(names, name, j)], name),
    decreases i - j,
{
    if !eq_ignore_ascii_case(names[j], name) {
        lemma_first_named_upto(names, name, j + 1, i);
    }
}

} // verus!
