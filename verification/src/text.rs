//! Comparing text without regard to the case of ASCII letters.

use vstd::prelude::*;

verus! {

/// The code point of a character, with `A` to `Z` taken as `a` to `z`.
pub open spec fn ascii_folded(c: char) -> int {
    if 0x41 <= c as u32 <= 0x5A {
        c as u32 + 32
    } else {
        c as u32 as int
    }
}

/// The two texts are the same but for the case of ASCII letters.
pub open spec fn same_ignoring_ascii_case(a: Seq<char>, b: Seq<char>) -> bool {
    &&& a.len() == b.len()
    &&& forall|i: int| 0 <= i < a.len() ==> ascii_folded(a[i]) == ascii_folded(b[i])
}

/// `str::eq_ignore_ascii_case` of the standard library. Trusted: the two
/// strings match when they are equal once the ASCII letters `A` to `Z` of
/// both are mapped to `a` to `z`; all other characters must be the same.
#[verifier::external_body]
pub(crate) fn eq_ignore_ascii_case(a: &str, b: &str) -> (r: bool)
    ensures
        r == same_ignoring_ascii_case(a@, b@),
{
    a.eq_ignore_ascii_case(b)
}

} // verus!
