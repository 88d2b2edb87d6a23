//! The errors a codec operation can report.
use vstd::prelude::*;

verus! {

/// Everything that can go wrong while parsing, decoding or mutating a
/// container. Every operation reports failure as a value of this type;
/// nothing in the library panics.
#[derive(Clone, Copy, Debug, PartialEq, Eq, Structural)]
pub enum FormatError {
    /// A chunk type text is not exactly 4 characters long.
    InvalidLength,
    /// A chunk type text holds a character that is not ASCII alphabetic.
    InvalidCharacter,
    /// The buffer ends before a declared field does.
    Truncated,
    /// The stored checksum disagrees with the one recomputed over
    /// (type bytes followed by payload bytes).
    ChecksumMismatch,
    /// The buffer does not start with the fixed 8-byte signature.
    BadSignature,
    /// No chunk of the requested type exists in the container.
    ChunkNotFound,
    /// A payload is not valid UTF-8 text.
    InvalidEncoding,
}

} // verus!
