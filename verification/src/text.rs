//! Comparing and searching text by its characters.

use vstd::prelude::*;
use vstd::string::StringSliceAdditionalSpecFns;
use vstd::utf8::encode_utf8_decode_utf8;

verus! {

/// Whether two strings hold the same characters.
pub fn same_text(a: &str, b: &str) -> (same: bool)
    ensures
        same == (a@ == b@),
{
    let left = a.as_bytes();
    let right = b.as_bytes();
    proof {
        encode_utf8_decode_utf8(a@);
        encode_utf8_decode_utf8(b@);
    }
    if left.len() != right.len() {
        return false;
    }
    let mut at: usize = 0;
    while at < left.len()
        invariant
            at <= left.len(),
            left.len() == right.len(),
            forall|k: int| 0 <= k < at ==> left@[k] == right@[k],
            left@ == a.spec_bytes(),
            right@ == b.spec_bytes(),
        decreases left.len() - at,
    {
        if left[at] != right[at] {
            return false;
        }
        at = at + 1;
    }
    assert(left@ =~= right@);
    true
}

/// Whether `needle` is one of `items`.
pub fn contains_text(items: &Vec<String>, needle: &str) -> (found: bool)
    ensures
        found == items.deep_view().contains(needle@),
{
    let mut at: usize = 0;
    while at < items.len()
        invariant
            at <= items.len(),
            forall|k: int| 0 <= k < at ==> items@[k]@ != needle@,
        decreases items.len() - at,
    {
        if same_text(items[at].as_str(), needle) {
            assert(items.deep_view()[at as int] == needle@);
            return true;
        }
        at = at + 1;
    }
    false
}

} // verus!
