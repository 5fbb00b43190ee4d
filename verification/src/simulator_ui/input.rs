//! The simulator window's keyboard shortcuts.
use vstd::prelude::*;
use crate::text::{append, chars_of, str_eq, string_of};

verus! {

/// A keyboard shortcut: the window toolkit's name of the key, the
/// simulator key it presses, and its label.
#[derive(Debug)]
pub struct KeyMapping {
    pub key: &'static str,
    pub index: i32,
    pub label: &'static str,
}

/// The shortcuts, as the radio companion application has them.
pub open spec fn spec_shortcuts() -> Seq<(Seq<char>, i32, Seq<char>)> {
    seq![
        ("S"@, 13i32, "SYS"@),
        ("M"@, 11i32, "MODEL"@),
        ("T"@, 12i32, "TELE"@),
        ("PageUp"@, 3i32, "PAGE UP"@),
        ("PageDown"@, 4i32, "PAGE DN"@),
        ("ArrowUp"@, 5i32, "UP"@),
        ("ArrowDown"@, 6i32, "DOWN"@),
        ("ArrowLeft"@, 7i32, "LEFT"@),
        ("ArrowRight"@, 8i32, "RIGHT"@),
        ("Plus"@, 9i32, "PLUS"@),
        ("Minus"@, 10i32, "MINUS"@),
        ("Enter"@, 2i32, "ENTER"@),
        ("Escape"@, 1i32, "EXIT"@),
    ]
}

/// The model of a shortcut.
pub open spec fn mapping_view(m: KeyMapping) -> (Seq<char>, i32, Seq<char>) {
    (m.key@, m.index, m.label@)
}

/// The keyboard shortcuts.
pub fn keyboard_shortcuts() -> (r: Vec<KeyMapping>)
    ensures
        r@.map_values(|m: KeyMapping| mapping_view(m)) == spec_shortcuts(),
{
    let r: Vec<KeyMapping> = vec![
        KeyMapping { key: "S", index: 13, label: "SYS" },
        KeyMapping { key: "M", index: 11, label: "MODEL" },
        KeyMapping { key: "T", index: 12, label: "TELE" },
        KeyMapping { key: "PageUp", index: 3, label: "PAGE UP" },
        KeyMapping { key: "PageDown", index: 4, label: "PAGE DN" },
        KeyMapping { key: "ArrowUp", index: 5, label: "UP" },
        KeyMapping { key: "ArrowDown", index: 6, label: "DOWN" },
        KeyMapping { key: "ArrowLeft", index: 7, label: "LEFT" },
        KeyMapping { key: "ArrowRight", index: 8, label: "RIGHT" },
        KeyMapping { key: "Plus", index: 9, label: "PLUS" },
        KeyMapping { key: "Minus", index: 10, label: "MINUS" },
        KeyMapping { key: "Enter", index: 2, label: "ENTER" },
        KeyMapping { key: "Escape", index: 1, label: "EXIT" },
    ];
    assert(r@.map_values(|m: KeyMapping| mapping_view(m)) =~= spec_shortcuts());
    r
}

/// The first shortcut from `i` on for the named key, or the number of
/// shortcuts.
pub open spec fn shortcut_position(t: Seq<(Seq<char>, i32, Seq<char>)>, key: Seq<char>, i: int) -> int
    decreases t.len() - i,
{
    if i >= t.len() {
        t.len() as int
    } else if t[i].0 == key {
        i
    } else {
        shortcut_position(t, key, i + 1)
    }
}

/// The simulator key a shortcut presses, by the key's name.
pub open spec fn spec_key_index(key: Seq<char>) -> Option<i32> {
    let k = shortcut_position(spec_shortcuts(), key, 0);
    if k < spec_shortcuts().len() { Some(spec_shortcuts()[k].1) } else { None }
}

/// The simulator key pressed by the key with the given name; none for a key
/// without a shortcut.
pub fn egui_key_to_index(key: &str) -> (r: Option<i32>)
    ensures
        r == spec_key_index(key@),
{
    let table = keyboard_shortcuts();
    let ghost tv = table@.map_values(|m: KeyMapping| mapping_view(m));
    let mut i: usize = 0;
    while i < table.len()
        invariant
            i <= table.len(),
            tv == table@.map_values(|m: KeyMapping| mapping_view(m)),
            tv == spec_shortcuts(),
            shortcut_position(tv, key@, 0) == shortcut_position(tv, key@, i as int),
        decreases table.len() - i,
    {
        proof {
            assert(tv[i as int] == mapping_view(table@[i as int]));
        }
        if str_eq(table[i].key, key) {
            return Some(table[i].index);
        }
        i += 1;
    }
    None
}

/// One line of the shortcut help per shortcut: the key's name, an arrow and
/// the label.
pub open spec fn shortcut_lines(t: Seq<(Seq<char>, i32, Seq<char>)>) -> Seq<char>
    decreases t.len(),
{
    if t.len() == 0 {
        Seq::empty()
    } else {
        shortcut_lines(t.drop_last()) + "  "@ + t.last().0 + " -> "@ + t.last().2 + "\n"@
    }
}

/// The shortcut help shown before a session starts.
pub open spec fn spec_keyboard_help() -> Seq<char> {
    "Keyboard shortcuts:\n"@ + shortcut_lines(spec_shortcuts())
        + "  Scroll wheel -> Rotary encoder\n"@ + "  Mouse click on LCD -> Touch\n"@
}

/// The shortcut help shown before a session starts.
pub fn print_keyboard_shortcuts() -> (r: String)
    ensures
        r@ == spec_keyboard_help(),
{
    let table = keyboard_shortcuts();
    let ghost tv = table@.map_values(|m: KeyMapping| mapping_view(m));
    let mut v = chars_of("Keyboard shortcuts:\n");
    let mut i: usize = 0;
    while i < table.len()
        invariant
            i <= table.len(),
            tv == table@.map_values(|m: KeyMapping| mapping_view(m)),
            tv == spec_shortcuts(),
            v@ == "Keyboard shortcuts:\n"@ + shortcut_lines(tv.take(i as int)),
        decreases table.len() - i,
    {
        proof {
            assert(tv[i as int] == mapping_view(table@[i as int]));
            assert(tv.take(i + 1).drop_last() == tv.take(i as int));
            assert(tv.take(i + 1).last() == tv[i as int]);
        }
        append(&mut v, &chars_of("  "));
        append(&mut v, &chars_of(table[i].key));
        append(&mut v, &chars_of(" -> "));
        append(&mut v, &chars_of(table[i].label));
        append(&mut v, &chars_of("\n"));
        i += 1;
    }
    proof {
        assert(tv.take(i as int) == tv);
    }
    append(&mut v, &chars_of("  Scroll wheel -> Rotary encoder\n"));
    append(&mut v, &chars_of("  Mouse click on LCD -> Touch\n"));
    string_of(&v)
}

} // verus!
