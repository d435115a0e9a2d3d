//! The IPF parser.
use vstd::prelude::*;
use crate::file_parsers::{bitstream_bits, bitstream_flags, str_views, FormatCaps, CAP_COMMENT, CAP_WEAK_BITS};
use crate::file_parsers::ipf::chunk::{chunk_type_of, IpfChunk, IpfChunkType};
use crate::types::Platform;

verus! {

/// Why an IPF image could not be read.
#[derive(Clone, Copy, Debug, PartialEq, Eq, Structural)]
pub enum IpfError {
    /// The image ends inside a chunk.
    ReadError,
    /// A chunk is larger than the parser accepts.
    ChunkTooLarge,
    /// A chunk's CRC does not match its contents.
    CrcMismatch,
    /// The image does not start with a CAPS chunk.
    UnknownFormat,
    /// A record chunk is too short for its record.
    RecordTooShort,
    /// A data stream element that should carry samples has none.
    MissingSamples,
    /// A version 2 block descriptor lacks its gap offset, cell type or flags.
    MissingDescriptorField,
    /// A data record names no image record that was read before it.
    NoImageRecord,
    /// A data record's extra data block reaches past the end of the image.
    RecordOutOfRange,
    /// The image holds no info record.
    NoInfoRecord,
    /// The info record names an unknown encoder.
    InvalidEncoder,
}

/// The direction in which a gap is filled from its sample.
#[derive(Clone, Copy, Debug, PartialEq, Eq, Structural)]
pub enum GapFillDirection {
    Forwards,
    Backwards,
}

/// The parser of IPF images.
pub struct IpfParser {}

impl IpfParser {
    /// The file extensions advertised for the format.
    pub fn extensions() -> (r: Vec<&'static str>)
        ensures
            str_views(r@) == seq!["ipf"@],
    {
        let r = vec!["ipf"];
        assert(str_views(r@) =~= seq!["ipf"@]);
        r
    }

    /// The capability flags of the format.
    pub fn capabilities() -> (r: FormatCaps)
        ensures
            r@ == bitstream_bits() | (CAP_COMMENT | CAP_WEAK_BITS),
    {
        bitstream_flags().union(FormatCaps::from_bits(CAP_COMMENT | CAP_WEAK_BITS))
    }

    /// The platforms that the format supports.
    pub fn platforms() -> (r: Vec<Platform>)
        ensures
            r@ == seq![Platform::Amiga],
    {
        let r = vec![Platform::Amiga];
        assert(r@ =~= seq![Platform::Amiga]);
        r
    }

    /// Whether `image` starts with the header of a CAPS chunk. Only the twelve header bytes
    /// are looked at.
    pub fn detect(image: &[u8]) -> (r: bool)
        ensures
            r == (image@.len() >= 12 && chunk_type_of(image@.take(4)) == Some(IpfChunkType::Caps)),
    {
        match IpfChunk::read_args(image, 0, Some(0)) {
            Some((chunk, _)) => {
                assert(image@.subrange(0, 4) =~= image@.take(4));
                chunk.chunk_type == Some(IpfChunkType::Caps)
            },
            None => false,
        }
    }
}

} // verus!
