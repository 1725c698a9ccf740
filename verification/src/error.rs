//! The closed set of failures the codec can report.

use vstd::prelude::*;

verus! {

/// Every way construction or parsing of a record can fail.
///
/// Each variant carries the data a caller needs to branch on the failure
/// programmatically; none of them aborts the process.
#[derive(Clone, Copy, Debug, PartialEq, Eq, Structural)]
pub enum ChunkError {
    /// A type-tag byte is not an ASCII letter; reports the byte and its
    /// position within the 4-byte tag.
    InvalidTagByte { byte: u8, position: usize },
    /// A string-form tag is not exactly 4 bytes long.
    WrongTagLength { actual: usize },
    /// The buffer lacks enough bytes for the header, the declared payload,
    /// or the trailing checksum.
    TooShort,
    /// The checksum computed over tag and payload disagrees with the
    /// trailing checksum read from the buffer.
    ChecksumMismatch { expected: u32, found: u32 },
    /// A payload longer than the 32-bit length field can describe.
    PayloadTooLarge,
    /// The payload is not valid UTF-8; raised only by the text accessor.
    InvalidUtf8,
}

} // verus!
