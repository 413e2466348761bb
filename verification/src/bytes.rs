//! Byte strings: comparison, owned copies and the UTF-8 check.

use vstd::prelude::*;

verus! {

/// Whether two byte strings hold the same bytes.
pub fn bytes_eq(a: &[u8], b: &[u8]) -> (same: bool)
    ensures
        same == (a@ == b@),
{
    if a.len() != b.len() {
        return false;
    }
    let mut i: usize = 0;
    while i < a.len()
        invariant
            i <= a@.len(),
            a@.len() == b@.len(),
            forall|k: int| 0 <= k < i ==> a@[k] == b@[k],
        decreases a@.len() - i,
    {
        if a[i] != b[i] {
            return false;
        }
        i += 1;
    }
    assert(a@ =~= b@);
    true
}

/// A fresh owned copy of `data`.
pub fn to_vec(data: &[u8]) -> (owned: Vec<u8>)
    ensures
        owned@ == data@,
{
    vstd::slice::slice_to_vec(data)
}

/// Calls `std::str::from_utf8` and reports whether it accepted the bytes.
/// Trusted: the standard library accepts exactly the well-formed UTF-8
/// encodings, which is what `vstd::utf8::valid_utf8` describes.
#[verifier::external_body]
pub(crate) fn utf8_accepts(data: &[u8]) -> (valid: bool)
    ensures
        valid == vstd::utf8::valid_utf8(data@),
{
    std::str::from_utf8(data).is_ok()
}

} // verus!
