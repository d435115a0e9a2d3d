//! Decompression support used by some image formats.
use vstd::prelude::*;

pub mod lzhuf;

verus! {

/// Errors of decompression.
#[derive(Clone, Copy, Debug, PartialEq, Eq, Structural)]
pub enum CompressionError {
    /// The data is not in the expected format.
    FileFormatMismatch,
    /// The data is too large.
    FileTooLarge,
    /// A checksum does not match.
    BadChecksum,
}

} // verus!
