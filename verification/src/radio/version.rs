//! Firmware version compatibility.
use vstd::prelude::*;
use crate::error::RadioError;
use crate::source::version::{semver_compare, semver_is_valid, semver_order, semver_parses, strip_v};
use crate::text::{append, chars_of, debug_quote, debug_quoted, owned, slice, starts_with_char, string_of};

verus! {

/// The radio's firmware meets the minimum version: there is no minimum, or
/// both are semantic versions (a leading `v` ignored) and the radio's is not
/// lower.
pub open spec fn version_ok(radio: Seq<char>, min: Seq<char>) -> bool {
    min.len() == 0 || (semver_parses(strip_v(radio)) && semver_parses(strip_v(min))
        && semver_order(strip_v(radio), strip_v(min)) >= 0)
}

fn normalize_version(v: &str) -> (r: String)
    ensures
        r@ == strip_v(v@),
{
    let c = chars_of(v);
    if starts_with_char(&c, 'v') {
        string_of(&slice(&c, 1, c.len()))
    } else {
        owned(v)
    }
}

/// The error a failed check gives: an unreadable firmware version, an
/// unreadable minimum, or the two versions when the firmware is older.
pub open spec fn version_error(radio: Seq<char>, min: Seq<char>, e: RadioError) -> bool {
    if !semver_parses(strip_v(radio)) {
        e matches RadioError::Other(m) && m@ == "invalid radio firmware version "@ + debug_quoted(radio)
    } else if !semver_parses(strip_v(min)) {
        e matches RadioError::Other(m) && m@ == "invalid minimum version "@ + debug_quoted(min)
    } else {
        e matches RadioError::VersionMismatch { installed, required } && installed@ == radio && required@ == min
    }
}

/// Checks that the radio's firmware version meets the minimum version.
pub fn check_version_compatibility(radio_version: &str, min_version: &str) -> (r: Result<(), RadioError>)
    ensures
        r is Ok <==> version_ok(radio_version@, min_version@),
        r matches Err(e) ==> version_error(radio_version@, min_version@, e),
        min_version@.len() == 0 ==> r is Ok,
        min_version@.len() > 0 && !semver_parses(strip_v(radio_version@)) ==> (r matches Err(RadioError::Other(m))
            && m@ == "invalid radio firmware version "@ + debug_quoted(radio_version@)),
        min_version@.len() > 0 && semver_parses(strip_v(radio_version@)) && !semver_parses(strip_v(min_version@))
            ==> (r matches Err(RadioError::Other(m)) && m@ == "invalid minimum version "@ + debug_quoted(min_version@)),
        min_version@.len() > 0 && semver_parses(strip_v(radio_version@)) && semver_parses(strip_v(min_version@))
            ==> if semver_order(strip_v(radio_version@), strip_v(min_version@)) < 0 {
                r matches Err(RadioError::VersionMismatch { installed, required })
                    && installed@ == radio_version@ && required@ == min_version@
            } else {
                r is Ok
            },
{
    if min_version.is_empty() {
        return Ok(());
    }
    let rv = normalize_version(radio_version);
    let mv = normalize_version(min_version);
    if !semver_is_valid(rv.as_str()) {
        let mut m = chars_of("invalid radio firmware version ");
        append(&mut m, &chars_of(debug_quote(radio_version).as_str()));
        return Err(RadioError::Other(string_of(&m)));
    }
    if !semver_is_valid(mv.as_str()) {
        let mut m = chars_of("invalid minimum version ");
        append(&mut m, &chars_of(debug_quote(min_version).as_str()));
        return Err(RadioError::Other(string_of(&m)));
    }
    if semver_compare(rv.as_str(), mv.as_str()) < 0 {
        return Err(RadioError::VersionMismatch { installed: owned(radio_version), required: owned(min_version) });
    }
    Ok(())
}

} // verus!
