//! Traffic-control handles: 32-bit identifiers conventionally split into a
//! 16-bit major and a 16-bit minor half.

use vstd::prelude::*;

verus! {

/// A tc handle: the major half sits in the upper 16 bits of the 32-bit wire
/// value, the minor half in the lower 16 bits.
#[derive(Debug, PartialEq, Eq, Clone, Copy)]
pub struct TcHandle {
    pub major: u16,
    pub minor: u16,
}

/// The 32-bit wire value of a handle.
pub open spec fn spec_tc_handle_bits(h: TcHandle) -> u32 {
    (h.major * 0x1_0000 + h.minor) as u32
}

/// The handle of a 32-bit wire value.
pub open spec fn spec_tc_handle_of_bits(b: u32) -> TcHandle {
    TcHandle { major: (b / 0x1_0000) as u16, minor: (b % 0x1_0000) as u16 }
}

/// The two handle conversions invert each other.
pub proof fn lemma_tc_handle_bits_inverse()
    ensures
        forall|h: TcHandle| spec_tc_handle_of_bits(#[trigger] spec_tc_handle_bits(h)) == h,
        forall|b: u32| spec_tc_handle_bits(#[trigger] spec_tc_handle_of_bits(b)) == b,
{
    assert forall|h: TcHandle| spec_tc_handle_of_bits(#[trigger] spec_tc_handle_bits(h)) == h by {
        let v = h.major * 0x1_0000 + h.minor;
        assert(v / 0x1_0000 == h.major && v % 0x1_0000 == h.minor) by (nonlinear_arith)
            requires
                v == h.major * 0x1_0000 + h.minor,
                0 <= h.major < 0x1_0000,
                0 <= h.minor < 0x1_0000,
        ;
    }
    assert forall|b: u32| spec_tc_handle_bits(#[trigger] spec_tc_handle_of_bits(b)) == b by {
        assert(b / 0x1_0000 * 0x1_0000 + b % 0x1_0000 == b) by (nonlinear_arith);
        assert(b / 0x1_0000 < 0x1_0000) by (nonlinear_arith);
    }
}

impl TcHandle {
    /// The handle whose 32-bit wire value is `b`.
    pub fn from_bits(b: u32) -> (r: TcHandle)
        ensures
            r == spec_tc_handle_of_bits(b),
    {
        TcHandle { major: (b / 0x1_0000) as u16, minor: (b % 0x1_0000) as u16 }
    }

    /// The 32-bit wire value of this handle.
    pub fn bits(&self) -> (r: u32)
        ensures
            r == spec_tc_handle_bits(*self),
    {
        (self.major as u32) * 0x1_0000 + (self.minor as u32)
    }
}

} // verus!
