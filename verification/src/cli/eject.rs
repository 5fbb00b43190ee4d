//! Arguments of `eject`.
use vstd::prelude::*;

verus! {

/// Arguments of `eject`.
#[derive(Debug)]
pub struct EjectArgs {
    /// SD card directory; detected when not given.
    pub dir: Option<String>,
}

} // verus!
