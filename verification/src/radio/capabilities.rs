//! A radio's hardware capabilities, from its board name and the catalog.
use vstd::prelude::*;
use crate::manifest::{DisplayCapabilities, RadioCapabilities};
use crate::radio_catalog::{find_radio, spec_find_radio, RadioDef};

verus! {

/// The capabilities of the catalog radio that the board name finds: its
/// display size and whether it is a color display (touch is not known).
pub open spec fn spec_detect(board: Seq<char>, catalog: Seq<RadioDef>) -> Option<RadioCapabilities> {
    match spec_find_radio(catalog, board) {
        Ok(r) => Some(RadioCapabilities {
            display: DisplayCapabilities {
                width: r.display.w as u32,
                height: r.display.h as u32,
                color: r.display.depth >= 16,
                touch: None,
            },
        }),
        Err(_) => None,
    }
}

/// Detects the radio's capabilities from the board name its SD card
/// records and the simulator catalog; `None` when either is missing or the
/// board is not in the catalog.
pub fn detect(board: Option<&str>, catalog: Option<&[RadioDef]>) -> (r: Option<RadioCapabilities>)
    ensures
        r == match (board, catalog) {
            (Some(b), Some(c)) => spec_detect(b@, c@),
            _ => None,
        },
{
    let b = match board {
        Some(b) => b,
        None => return None,
    };
    let c = match catalog {
        Some(c) => c,
        None => return None,
    };
    match find_radio(c, b) {
        Ok(radio) => Some(RadioCapabilities {
            display: DisplayCapabilities {
                width: radio.display.w as u32,
                height: radio.display.h as u32,
                color: radio.display.is_color(),
                touch: None,
            },
        }),
        Err(_) => None,
    }
}

} // verus!
