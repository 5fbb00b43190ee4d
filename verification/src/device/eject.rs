//! What ejecting the radio's drive works out from its names.
use vstd::prelude::*;
use crate::text::{chars_of, is_ascii_digit, slice, string_of};

verus! {

/// `s` without its trailing ASCII digits.
pub open spec fn strip_trailing_digits(s: Seq<char>) -> Seq<char>
    decreases s.len(),
{
    if s.len() > 0 && is_ascii_digit(s.last()) { strip_trailing_digits(s.drop_last()) } else { s }
}

/// The disk a partition's block device belongs to (`/dev/sdb1` gives
/// `/dev/sdb`): the device name without its trailing digits.
pub fn strip_partition_number(device: &str) -> (r: String)
    ensures
        r@ == strip_trailing_digits(device@),
{
    let v = chars_of(device);
    let mut n: usize = v.len();
    assert(v@.take(n as int) == v@);
    while n > 0 && '0' <= v[n - 1] && v[n - 1] <= '9'
        invariant
            n <= v.len(),
            v@ == device@,
            strip_trailing_digits(v@.take(n as int)) == strip_trailing_digits(device@),
        decreases n,
    {
        assert(v@.take(n as int).drop_last() == v@.take(n - 1));
        n -= 1;
    }
    let r = slice(&v, 0, n);
    assert(r@ == v@.take(n as int));
    string_of(&r)
}

/// The volume to eject for a mount point on Windows: the drive root
/// (`E:\`) when the mount point starts with a drive letter and colon,
/// otherwise the mount point itself.
pub open spec fn spec_drive_root(mount: Seq<char>) -> Seq<char> {
    if mount.len() >= 2 && mount[0] < '\u{80}' && mount[1] == ':' {
        seq![mount[0], ':', '\\']
    } else {
        mount
    }
}

/// The volume to eject for a mount point on Windows.
pub fn drive_root(mount: &str) -> (r: String)
    ensures
        r@ == spec_drive_root(mount@),
{
    let v = chars_of(mount);
    if v.len() >= 2 && v[0] < '\u{80}' && v[1] == ':' {
        let mut out: Vec<char> = Vec::new();
        out.push(v[0]);
        out.push(':');
        out.push('\\');
        assert(out@ =~= seq![mount@[0], ':', '\\']);
        return string_of(&out);
    }
    string_of(&v)
}

} // verus!
