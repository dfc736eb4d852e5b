use vstd::prelude::*;
use vstd::string::StringSliceAdditionalSpecFns;
use path_slash::PathExt;

verus! {

/// The engine's form of a file path: its bytes, then a NUL terminator.
pub open spec fn spec_cstring(s: Seq<u8>) -> Seq<u8> {
    s.push(0u8)
}

/// Whether a path's bytes end in a slash.
pub open spec fn ends_in_slash(s: Seq<u8>) -> bool {
    s.len() > 0 && s.last() == 0x2fu8
}

/// The engine's form of a directory path: its bytes with exactly one
/// trailing slash added where it has none, then a NUL terminator.
pub open spec fn spec_cstring_dir(s: Seq<u8>) -> Seq<u8> {
    if ends_in_slash(s) {
        s.push(0u8)
    } else {
        s.push(0x2fu8).push(0u8)
    }
}

/// Relies on path_slash's `PathExt::to_slash_lossy`, which writes a path
/// with forward slashes. What it returns depends on the platform's path
/// rules, so nothing is stated of it here.
#[verifier::external_body]
fn slash_form(path: &str) -> String {
    std::path::Path::new(path).to_slash_lossy().into_owned()
}

/// Copies the bytes of `s` and appends `tail`.
fn bytes_with_tail(s: &str, tail: &[u8]) -> (r: Vec<u8>)
    ensures
        r@ == s.spec_bytes() + tail@,
{
    let b = s.as_bytes();
    let mut r: Vec<u8> = Vec::new();
    let mut i: usize = 0;
    while i < b.len()
        invariant
            i <= b@.len(),
            b@ == s.spec_bytes(),
            r@ == b@.subrange(0, i as int),
        decreases b@.len() - i,
    {
        r.push(b[i]);
        i = i + 1;
    }
    let mut j: usize = 0;
    while j < tail.len()
        invariant
            j <= tail@.len(),
            r@ == b@ + tail@.subrange(0, j as int),
        decreases tail@.len() - j,
    {
        r.push(tail[j]);
        j = j + 1;
    }
    assert(b@.subrange(0, b@.len() as int) == b@);
    assert(tail@.subrange(0, tail@.len() as int) == tail@);
    r
}

/// A path already in slash form, as the NUL-terminated bytes the engine
/// takes for a file.
pub fn cstring_bytes(slashed: &str) -> (r: Vec<u8>)
    ensures
        r@ == spec_cstring(slashed.spec_bytes()),
{
    let tail: [u8; 1] = [0u8];
    let r = bytes_with_tail(slashed, tail.as_slice());
    assert(r@ == slashed.spec_bytes().push(0u8));
    r
}

/// A path already in slash form, as the bytes the engine takes for a
/// directory: one trailing slash (added only where the path lacks it), then
/// a NUL terminator.
pub fn cstring_dir_bytes(slashed: &str) -> (r: Vec<u8>)
    ensures
        r@ == spec_cstring_dir(slashed.spec_bytes()),
        ends_in_slash(slashed.spec_bytes()) ==> r@ == slashed.spec_bytes().push(0u8),
        !ends_in_slash(slashed.spec_bytes()) ==> r@ == slashed.spec_bytes().push(0x2fu8).push(0u8),
{
    let b = slashed.as_bytes();
    let n = b.len();
    if n > 0 && b[n - 1] == 0x2fu8 {
        let tail: [u8; 1] = [0u8];
        let r = bytes_with_tail(slashed, tail.as_slice());
        assert(r@ == slashed.spec_bytes().push(0u8));
        r
    } else {
        let tail: [u8; 2] = [0x2fu8, 0u8];
        let r = bytes_with_tail(slashed, tail.as_slice());
        assert(r@ == slashed.spec_bytes().push(0x2fu8).push(0u8));
        r
    }
}

/// A user path in the engine's form for a file: slash form, NUL-terminated.
pub fn to_cstring(path: &str) -> (r: Vec<u8>)
    ensures
        exists|s: Seq<u8>| r@ == spec_cstring(s),
{
    let slashed = slash_form(path);
    cstring_bytes(slashed.as_str())
}

/// A user path in the engine's form for a directory: slash form, with one
/// trailing slash (never doubled), then a NUL terminator.
pub fn to_cstring_dir(path: &str) -> (r: Vec<u8>)
    ensures
        exists|s: Seq<u8>| r@ == spec_cstring_dir(s),
{
    let slashed = slash_form(path);
    cstring_dir_bytes(slashed.as_str())
}

} // verus!
