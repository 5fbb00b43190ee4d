//! Mute and volume state of the simulator's audio.
use vstd::prelude::*;
use crate::text::{append, chars_of, decimal, decimal_exec, string_of};

verus! {

/// The highest firmware volume level (levels run from 0 to 23).
pub const VOLUME_LEVEL_MAX: i32 = 23;

/// The firmware's audio sample rate in Hz.
pub const SAMPLE_RATE: u32 = 32_000;

/// Mute and volume state shared by the window, the firmware and the audio
/// pump.
#[derive(Debug, Clone, Copy)]
pub struct AudioControls {
    muted: bool,
    volume: i32,
}

impl View for AudioControls {
    type V = (bool, i32);

    /// Whether it is muted, and the firmware volume level.
    closed spec fn view(&self) -> (bool, i32) {
        (self.muted, self.volume)
    }
}

/// A volume level as a percentage of the highest level, rounded down and
/// held to `0..=255`.
pub open spec fn percent_of(level: i32) -> u8 {
    if level <= 0 {
        0
    } else if level * 100 / (VOLUME_LEVEL_MAX as int) >= 255 {
        255
    } else {
        (level * 100 / (VOLUME_LEVEL_MAX as int)) as u8
    }
}

/// The level the pump plays at: none when muted, else the volume level
/// held to `0..=23`.
pub open spec fn spec_effective_level(c: (bool, i32)) -> i32 {
    if c.0 {
        0
    } else if c.1 < 0 {
        0
    } else if c.1 > VOLUME_LEVEL_MAX {
        VOLUME_LEVEL_MAX
    } else {
        c.1
    }
}

/// The caption of the audio menu: that it is muted, or the volume as a
/// percentage.
pub open spec fn spec_menu_caption(c: (bool, i32)) -> Seq<char> {
    if c.0 {
        "Audio (muted)"@
    } else {
        "Audio ("@ + decimal(percent_of(c.1) as nat) + "%)"@
    }
}

/// The volume line inside the audio menu.
pub open spec fn spec_volume_caption(level: i32) -> Seq<char> {
    "Volume: "@ + decimal(percent_of(level) as nat) + "%"@
}

impl AudioControls {
    /// Not muted, at the highest level.
    pub fn new() -> (r: AudioControls)
        ensures
            r@ == (false, VOLUME_LEVEL_MAX),
    {
        AudioControls { muted: false, volume: VOLUME_LEVEL_MAX }
    }

    pub fn is_muted(&self) -> (r: bool)
        ensures
            r == self@.0,
    {
        self.muted
    }

    pub fn set_muted(&mut self, muted: bool)
        ensures
            final(self)@ == (muted, old(self)@.1),
    {
        self.muted = muted;
    }

    pub fn set_volume_level(&mut self, level: i32)
        ensures
            final(self)@ == (old(self)@.0, level),
    {
        self.volume = level;
    }

    /// The volume as a percentage of the highest level.
    pub fn volume_percent(&self) -> (r: u8)
        ensures
            r == percent_of(self@.1),
    {
        let level = self.volume;
        if level <= 0 {
            return 0;
        }
        let p: i64 = (level as i64) * 100 / (VOLUME_LEVEL_MAX as i64);
        if p >= 255 {
            255
        } else {
            p as u8
        }
    }

    /// The caption of the audio menu.
    pub fn menu_caption(&self) -> (r: String)
        ensures
            r@ == spec_menu_caption(self@),
    {
        if self.muted {
            return String::from_str("Audio (muted)");
        }
        let mut v = chars_of("Audio (");
        append(&mut v, &decimal_exec(self.volume_percent() as u64));
        append(&mut v, &chars_of("%)"));
        string_of(&v)
    }

    /// The volume line inside the audio menu.
    pub fn volume_caption(&self) -> (r: String)
        ensures
            r@ == spec_volume_caption(self@.1),
    {
        let mut v = chars_of("Volume: ");
        append(&mut v, &decimal_exec(self.volume_percent() as u64));
        append(&mut v, &chars_of("%"));
        string_of(&v)
    }

    /// The level the pump plays at (the pump scales it by the highest level).
    pub fn effective_level(&self) -> (r: i32)
        ensures
            r == spec_effective_level(self@),
            0 <= r <= VOLUME_LEVEL_MAX,
    {
        if self.muted {
            0
        } else if self.volume < 0 {
            0
        } else if self.volume > VOLUME_LEVEL_MAX {
            VOLUME_LEVEL_MAX
        } else {
            self.volume
        }
    }
}

impl Default for AudioControls {
    fn default() -> (r: AudioControls)
        ensures
            r@ == (false, VOLUME_LEVEL_MAX),
    {
        AudioControls::new()
    }
}

} // verus!
