//! The radio's SD card: firmware version checks, file copying rules and
//! hardware capabilities.
pub mod capabilities;
pub mod copy;
pub mod detect;
pub mod radioinfo;
pub mod version;

use vstd::prelude::*;

verus! {

/// Errors of finding, reading and ejecting a radio's SD card.
#[derive(Debug)]
pub enum RadioError {
    NoDevice(String),
    Detection(String),
    Version(String),
    EjectIo { step: String, message: String },
    EjectFailed { step: String, stderr: String },
    Io { context: String, message: String },
}

} // verus!
