//! How the simulator window's controls answer the pointer, and the state of
//! its bottom panel.
use vstd::prelude::*;
use std::collections::HashSet;

verus! {

broadcast use vstd::std_specs::hash::group_hash_axioms;

/// The buttons (keys or trim buttons, by index) the pointer holds down.
#[derive(Debug)]
pub struct HeldButtons {
    held: HashSet<i32>,
}

impl View for HeldButtons {
    type V = Set<i32>;

    closed spec fn view(&self) -> Set<i32> {
        self.held@
    }
}

impl HeldButtons {
    /// No button held.
    pub fn new() -> (r: HeldButtons)
        ensures
            r@ == Set::<i32>::empty(),
    {
        HeldButtons { held: HashSet::new() }
    }

    /// Whether a button is held.
    pub fn is_held(&self, index: i32) -> (r: bool)
        ensures
            r == self@.contains(index),
    {
        self.held.contains(&index)
    }

    /// A frame's pointer state over one button, and the press to send to
    /// the firmware: while the pointer is down on it, a press (on every
    /// frame); on the first frame after, a release; otherwise nothing.
    pub fn pointer(&mut self, index: i32, down: bool) -> (r: Option<bool>)
        ensures
            down ==> r == Some(true) && final(self)@ == old(self)@.insert(index),
            !down && old(self)@.contains(index) ==> r == Some(false) && final(self)@ == old(
                self,
            )@.remove(index),
            !down && !old(self)@.contains(index) ==> r is None && final(self)@ == old(self)@,
    {
        if down {
            self.held.insert(index);
            Some(true)
        } else if self.held.remove(&index) {
            Some(false)
        } else {
            None
        }
    }
}

impl Default for HeldButtons {
    fn default() -> (r: HeldButtons)
        ensures
            r@ == Set::<i32>::empty(),
    {
        HeldButtons::new()
    }
}

/// The index the firmware knows a trim button by: two per trim, the minus
/// button first.
pub open spec fn spec_trim_button(trim: int, plus: bool) -> int {
    trim * 2 + if plus { 1int } else { 0int }
}

/// The index of a trim button.
pub fn trim_button_index(trim: i32, plus: bool) -> (r: i32)
    requires
        0 <= trim < 0x4000_0000,
    ensures
        r == spec_trim_button(trim as int, plus),
{
    trim * 2 + if plus { 1i32 } else { 0i32 }
}

/// What a frame of pointer state does to a push-button switch in state
/// `state`: held, it goes to 1 if it is not there; let go, it goes back to
/// -1 if it is at 1. The new state to send, if any.
pub fn momentary_switch(state: i32, down: bool) -> (r: Option<i32>)
    ensures
        r == (if down && state != 1 {
            Some(1i32)
        } else if !down && state == 1 {
            Some(-1i32)
        } else {
            None
        }),
{
    if down {
        if state != 1 {
            Some(1)
        } else {
            None
        }
    } else if state == 1 {
        Some(-1)
    } else {
        None
    }
}

/// How many positions a multi-position switch has.
pub const MULTIPOS_POSITIONS: u16 = 6;

/// The input level of each position of a multi-position switch, spread
/// over the input's range.
pub open spec fn spec_multipos_level(pos: u16) -> u16 {
    if pos == 0 {
        0
    } else if pos == 1 {
        819
    } else if pos == 2 {
        1638
    } else if pos == 3 {
        2457
    } else if pos == 4 {
        3276
    } else if pos == 5 {
        4095
    } else {
        0
    }
}

/// The input level of a multi-position switch's position.
pub fn multipos_level(pos: u16) -> (r: u16)
    ensures
        r == spec_multipos_level(pos),
{
    match pos {
        0 => 0,
        1 => 819,
        2 => 1638,
        3 => 2457,
        4 => 3276,
        5 => 4095,
        _ => 0,
    }
}

/// The level a stick springs back to on both axes when let go.
pub const STICK_CENTER: u16 = 2048;

/// The tabs of the window's bottom panel.
#[derive(Debug, Clone, Copy, PartialEq, Eq, Structural)]
pub enum BottomTab {
    Console,
    Monitors,
}

/// The bottom panel: whether it is open, which tab it shows, and whether
/// the firmware was last told to report its monitors.
#[derive(Debug, Clone, Copy, PartialEq, Eq, Structural)]
pub struct BottomPanel {
    pub open: bool,
    pub tab: BottomTab,
    pub polling: bool,
}

/// The panel after a click on a tab, and the resize the window needs (to
/// open or to closed height), if any: a click on the tab that is showing
/// closes the panel; a click on another tab shows it, opening the panel if
/// it was closed.
pub open spec fn spec_click_tab(p: BottomPanel, tab: BottomTab) -> (BottomPanel, Option<bool>) {
    if p.open && p.tab == tab {
        (BottomPanel { open: false, ..p }, Some(false))
    } else if p.open {
        (BottomPanel { tab, ..p }, None)
    } else {
        (BottomPanel { open: true, tab, ..p }, Some(true))
    }
}

impl BottomPanel {
    /// Closed, on the console tab, with the firmware not reporting.
    pub fn new() -> (r: BottomPanel)
        ensures
            r == (BottomPanel { open: false, tab: BottomTab::Console, polling: false }),
    {
        BottomPanel { open: false, tab: BottomTab::Console, polling: false }
    }

    /// Whether a tab shows as selected.
    pub fn is_selected(&self, tab: BottomTab) -> (r: bool)
        ensures
            r == (self.open && self.tab == tab),
    {
        self.open && self.tab == tab
    }

    /// A click on a tab; returns the resize the window needs.
    pub fn click_tab(&mut self, tab: BottomTab) -> (r: Option<bool>)
        ensures
            (*final(self), r) == spec_click_tab(*old(self), tab),
    {
        if self.open && self.tab == tab {
            self.open = false;
            Some(false)
        } else if self.open {
            self.tab = tab;
            None
        } else {
            self.open = true;
            self.tab = tab;
            Some(true)
        }
    }

    /// Whether the firmware should report its monitors: while the monitors
    /// tab is showing.
    pub open spec fn wants_monitors(self) -> bool {
        self.open && self.tab == BottomTab::Monitors
    }

    /// Brings the firmware's reporting in line with the panel; returns the
    /// setting to send when it changes.
    pub fn sync_polling(&mut self) -> (r: Option<bool>)
        ensures
            final(self).polling == old(self).wants_monitors(),
            final(self).open == old(self).open,
            final(self).tab == old(self).tab,
            r == (if old(self).wants_monitors() != old(self).polling {
                Some(old(self).wants_monitors())
            } else {
                None
            }),
    {
        let want = self.open && self.tab == BottomTab::Monitors;
        if want != self.polling {
            self.polling = want;
            Some(want)
        } else {
            None
        }
    }
}

impl Default for BottomPanel {
    fn default() -> (r: BottomPanel)
        ensures
            r == (BottomPanel { open: false, tab: BottomTab::Console, polling: false }),
    {
        BottomPanel::new()
    }
}

/// How many lines of firmware trace output the console keeps.
pub const TRACE_LINES_KEPT: usize = 200;

/// Appends a line of trace output, dropping the oldest beyond the lines
/// kept.
pub fn push_trace_line(lines: &mut Vec<String>, line: String)
    requires
        old(lines)@.len() <= TRACE_LINES_KEPT,
    ensures
        ({
            let all = old(lines)@.push(line);
            &&& final(lines)@.len() <= TRACE_LINES_KEPT
            &&& final(lines)@ == (if all.len() > TRACE_LINES_KEPT {
                all.skip(all.len() - TRACE_LINES_KEPT)
            } else {
                all
            })
        }),
{
    lines.push(line);
    if lines.len() > TRACE_LINES_KEPT {
        let excess = lines.len() - TRACE_LINES_KEPT;
        let tail = lines.split_off(excess);
        *lines = tail;
    }
}

/// What a window shortcut does.
#[derive(Debug, Clone, Copy, PartialEq, Eq, Structural)]
pub enum WindowAction {
    ReloadScripts,
    Reset,
    Screenshot,
}

/// The window's own shortcuts, by key name: F7 reloads the Lua scripts, F8
/// resets the simulator, F9 takes a screenshot.
pub open spec fn spec_window_shortcut(key: Seq<char>) -> Option<WindowAction> {
    if key == "F7"@ {
        Some(WindowAction::ReloadScripts)
    } else if key == "F8"@ {
        Some(WindowAction::Reset)
    } else if key == "F9"@ {
        Some(WindowAction::Screenshot)
    } else {
        None
    }
}

/// The action of a window shortcut.
pub fn window_shortcut(key: &str) -> (r: Option<WindowAction>)
    ensures
        r == spec_window_shortcut(key@),
{
    if crate::text::str_eq(key, "F7") {
        Some(WindowAction::ReloadScripts)
    } else if crate::text::str_eq(key, "F8") {
        Some(WindowAction::Reset)
    } else if crate::text::str_eq(key, "F9") {
        Some(WindowAction::Screenshot)
    } else {
        None
    }
}

} // verus!
