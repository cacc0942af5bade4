//! The 4-byte alignment rule of the netlink attribute format: every record
//! occupies its stored length rounded up to the next multiple of 4, and the
//! bytes added by the rounding are zero-filled padding.

use vstd::prelude::*;

verus! {

/// Number of padding bytes that follow a record of `n` bytes.
pub open spec fn spec_pad4(n: int) -> int {
    if n % 4 == 0 {
        0
    } else {
        4 - n % 4
    }
}

/// `n` rounded up to the next multiple of 4.
pub open spec fn spec_align4(n: int) -> int {
    n + spec_pad4(n)
}

/// The padded length of a record is the smallest multiple of 4 that is at
/// least its unpadded length.
pub proof fn lemma_align4_smallest(n: int)
    requires
        n >= 0,
    ensures
        spec_align4(n) % 4 == 0,
        n <= spec_align4(n) < n + 4,
        forall|m: int| m >= n && #[trigger] (m % 4) == 0 ==> m >= spec_align4(n),
{
    assert(spec_align4(n) % 4 == 0) by (nonlinear_arith)
        requires
            n >= 0,
    ;
    assert forall|m: int| m >= n && #[trigger] (m % 4) == 0 implies m >= spec_align4(n) by {
        if n % 4 != 0 {
            assert(m >= n + (4 - n % 4)) by (nonlinear_arith)
                requires
                    n >= 0,
                    m >= n,
                    m % 4 == 0,
                    n % 4 != 0,
            ;
        }
    }
}

/// Rounds `n` up to the next multiple of 4.
pub fn align4(n: usize) -> (r: usize)
    requires
        n + 3 <= usize::MAX,
    ensures
        r == spec_align4(n as int),
{
    if n % 4 == 0 {
        n
    } else {
        n + (4 - n % 4)
    }
}

/// Number of zero bytes that pad a record of `n` bytes.
pub fn pad4(n: usize) -> (r: usize)
    ensures
        r == spec_pad4(n as int),
{
    if n % 4 == 0 {
        0
    } else {
        4 - n % 4
    }
}

} // verus!
