//! Decode failures. Every failure is terminal for the decode call that raised
//! it; the fields say what was needed and what was found. Encoding has no
//! failure path: well-formedness of the value being encoded is a precondition.

use vstd::prelude::*;

verus! {

/// Why a decode call failed.
#[derive(Debug, PartialEq, Eq, Clone)]
pub enum DecodeError {
    /// Fewer bytes were available than a fixed header, a fixed-layout struct
    /// or a record's declared length requires. The counts are relative to the
    /// buffer or value being decoded when the failure was found.
    TooShort { expected: usize, available: usize },
    /// The value bytes of the record with this type code cannot represent the
    /// field its rule calls for (wrong width, malformed string, or a declared
    /// record length smaller than the record header).
    InvalidField { code: u16 },
    /// A nested attribute list goes deeper than the caller's recursion limit.
    NestingTooDeep,
    /// The requested message kind has no registered header layout or registry.
    UnsupportedKind { kind: u16 },
}

} // verus!
