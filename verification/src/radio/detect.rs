//! Which mounted drive is the radio's SD card.
use vstd::prelude::*;
use crate::error::RadioError;
use crate::manifest::validate::strings_view;
use crate::text::{chars_of, join, join_exec, string_of};

verus! {

/// The file that marks a drive as an EdgeTX SD card.
pub const VERSION_FILE: &'static str = "edgetx.sdcard.version";

fn joined(names: &[String]) -> (r: String)
    ensures
        r@ == join(strings_view(names@), ", "@),
{
    let mut parts: Vec<Vec<char>> = Vec::new();
    let mut i: usize = 0;
    while i < names.len()
        invariant
            i <= names.len(),
            parts@.map_values(|v: Vec<char>| v@) == strings_view(names@).take(i as int),
        decreases names.len() - i,
    {
        let c = chars_of(names[i].as_str());
        let ghost before = parts@;
        parts.push(c);
        proof {
            assert(parts@.map_values(|v: Vec<char>| v@) == before.map_values(|v: Vec<char>| v@).push(c@));
            assert(strings_view(names@).take(i + 1) == strings_view(names@).take(i as int).push(names@[i as int]@));
        }
        i += 1;
    }
    proof {
        assert(strings_view(names@).take(i as int) == strings_view(names@));
    }
    string_of(&join_exec(&parts, &chars_of(", ")))
}

/// The radio among the directories of `media_dir` that carry the version
/// file (`candidates`, in the order found): the only one; none found, or
/// several, is an error.
pub fn detect_mount(media_dir: &str, candidates: &[String]) -> (r: Result<String, RadioError>)
    ensures
        candidates@.len() == 0 ==> (r matches Err(RadioError::NoDevice(d)) && d@ == media_dir@),
        candidates@.len() == 1 ==> (r matches Ok(m) && m@ == candidates@[0]@),
        candidates@.len() > 1 ==> (r matches Err(RadioError::MultipleDevices(names))
            && names@ == join(strings_view(candidates@), ", "@)),
{
    if candidates.len() == 0 {
        Err(RadioError::NoDevice(media_dir.to_owned()))
    } else if candidates.len() == 1 {
        Ok(candidates[0].clone())
    } else {
        Err(RadioError::MultipleDevices(joined(candidates)))
    }
}

/// The radio among the Windows drives that carry the version file.
pub fn detect_windows_drives(candidates: &[String]) -> (r: Result<String, RadioError>)
    ensures
        candidates@.len() == 0 ==> r matches Err(RadioError::NoDeviceWindows),
        candidates@.len() == 1 ==> (r matches Ok(m) && m@ == candidates@[0]@),
        candidates@.len() > 1 ==> (r matches Err(RadioError::MultipleDevices(names))
            && names@ == join(strings_view(candidates@), ", "@)),
{
    if candidates.len() == 0 {
        Err(RadioError::NoDeviceWindows)
    } else if candidates.len() == 1 {
        Ok(candidates[0].clone())
    } else {
        Err(RadioError::MultipleDevices(joined(candidates)))
    }
}

/// The drive roots looked at on Windows: `D:\` to `Z:\`.
pub open spec fn spec_windows_drives() -> Seq<Seq<char>> {
    Seq::new(23, |i: int| seq![(('D' as u32) + i) as char, ':', '\\'])
}

/// The drive roots looked at on Windows, in order.
pub fn windows_drives() -> (r: Vec<String>)
    ensures
        strings_view(r@) == spec_windows_drives(),
{
    let mut out: Vec<String> = Vec::new();
    let mut i: u8 = 0;
    while i < 23
        invariant
            i <= 23,
            strings_view(out@) == spec_windows_drives().take(i as int),
        decreases 23 - i,
    {
        let letter = (68u8 + i) as char;
        let mut v: Vec<char> = Vec::new();
        v.push(letter);
        v.push(':');
        v.push('\\');
        let s = string_of(&v);
        let ghost before = out@;
        out.push(s);
        proof {
            assert(letter == (('D' as u32) + i) as char);
            assert(v@ =~= seq![(('D' as u32) + i) as char, ':', '\\']);
            assert(strings_view(out@) == strings_view(before).push(s@));
            assert(spec_windows_drives().take(i + 1) == spec_windows_drives().take(i as int).push(spec_windows_drives()[i as int]));
        }
        i += 1;
    }
    proof {
        assert(spec_windows_drives().take(23) == spec_windows_drives());
    }
    out
}

/// Errors that waiting for the radio keeps retrying: no card found yet.
pub open spec fn spec_is_no_device_error(err: RadioError) -> bool {
    err is NoDevice || err is NoDeviceWindows
}

/// Whether waiting for the radio should retry after this error.
pub fn is_no_device_error(err: &RadioError) -> (r: bool)
    ensures
        r == spec_is_no_device_error(*err),
{
    match err {
        RadioError::NoDevice(_) => true,
        RadioError::NoDeviceWindows => true,
        _ => false,
    }
}

/// While waiting for the radio: after a failed look, whether to look again.
/// Only a missing card is retried, and only until the deadline has passed.
pub fn keep_waiting(err: &RadioError, past_deadline: bool) -> (r: bool)
    ensures
        r == (spec_is_no_device_error(*err) && !past_deadline),
{
    is_no_device_error(err) && !past_deadline
}

} // verus!
