//! The radio simulator: framebuffers, inputs and scripted sessions.
pub mod display;
pub mod framebuffer;
pub mod input;
pub mod lua_script;
pub mod sdcard;
pub mod script;

use vstd::prelude::*;
use crate::radio_catalog::RadioDef;

verus! {

/// How a simulator session runs.
#[derive(Debug)]
pub struct SimulatorOptions {
    pub radio: RadioDef,
    pub sdcard_dir: String,
    pub settings_dir: String,
    /// Package directory to keep in step with the SD card.
    pub watch_dir: Option<String>,
    /// Stop after this many milliseconds.
    pub timeout_ms: Option<u64>,
    /// Where to save the screen at exit.
    pub screenshot_path: Option<String>,
    /// Action script to run.
    pub script_path: Option<String>,
    /// Read the action script from standard input.
    pub stdin_script: bool,
}

} // verus!
