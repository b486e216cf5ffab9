use vstd::prelude::*;

use crate::fragment::{FragmentKind, FragmentRef, StringReference};

verus! {

/// What can go wrong when a document is queried or decoded.
#[derive(Clone, Copy, Debug, PartialEq, Eq, Structural)]
pub enum WldError {
    /// The input cannot be decoded at all: the byte stream does not parse, or
    /// a count exceeds what the format's 32-bit indices can address.
    MalformedInput,
    /// A 1-based index is 0 or beyond the number of fragments.
    OutOfRange { index: u32, count: usize },
    /// A string reference points outside the string table.
    InvalidStringRef { reference: StringReference },
    /// A reference resolved to a fragment of another kind.
    TypeMismatch { index: u32, expected: FragmentKind, actual: FragmentKind },
    /// A required reference leads nowhere (no fragment carries the name, a
    /// list index is past the list, or a chain ends early).
    BrokenReference { via: FragmentRef },
}

} // verus!
