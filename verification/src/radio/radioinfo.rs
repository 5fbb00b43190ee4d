//! What the radio says about itself in `RADIO/radio.yml`.
use vstd::prelude::*;

verus! {

/// The firmware version and board name the radio records on its SD card.
#[derive(Debug, Clone)]
pub struct RadioInfo {
    pub semver: String,
    pub board: String,
}

/// Where the radio's information file lies, relative to the SD card root.
pub open spec fn radio_info_rel() -> Seq<char> {
    "RADIO/radio.yml"@
}

/// The path of the radio's information file under an SD card root.
pub fn radio_info_path(sd_root: &str) -> (r: String)
    ensures
        r@ == crate::text::path_join(sd_root@, radio_info_rel()),
{
    crate::text::path_join_exec(sd_root, "RADIO/radio.yml")
}

} // verus!
