//! The block descriptors at the start of the extra data block of an IPF data record.
use vstd::prelude::*;
use crate::file_parsers::bytes::{be32, read_u32_be};

verus! {

/// The block carries forward gap stream elements.
pub const BLOCK_FORWARD_GAP: u32 = 0b0001;
/// The block carries backward gap stream elements.
pub const BLOCK_BACKWARD_GAP: u32 = 0b0010;
/// The samples of the data stream are bits, not bytes.
pub const BLOCK_DATA_IN_BITS: u32 = 0b0100;

/// The flags of a block descriptor.
#[derive(Clone, Copy, Debug, PartialEq, Eq, Structural)]
pub struct BlockFlags {
    pub bits: u32,
}

impl BlockFlags {
    /// The flags of `raw` that have a meaning; the other bits are dropped.
    pub fn from_bits_truncate(raw: u32) -> (r: BlockFlags)
        ensures
            r.bits == raw & 0b0111,
    {
        BlockFlags { bits: raw & 0b0111 }
    }

    /// Whether every flag of `flag` is set.
    pub fn contains(&self, flag: u32) -> (r: bool)
        ensures
            r == (self.bits & flag == flag),
    {
        self.bits & flag == flag
    }
}

/// A block descriptor. Version 1 descriptors hold the byte sizes of the data and the gap;
/// version 2 descriptors the gap stream offset, the cell type and the flags.
#[derive(Clone, Copy, Debug, PartialEq, Eq, Structural)]
pub struct BlockDescriptor {
    /// The size in bits of the decoded block data.
    pub data_bits: u32,
    /// The size in bits of the decoded gap.
    pub gap_bits: u32,
    pub data_bytes: Option<u32>,
    pub gap_bytes: Option<u32>,
    pub gap_offset: Option<u32>,
    pub cell_type: Option<u32>,
    /// The block encoder type (not the encoder type of the image).
    pub blk_encoder_type: u32,
    pub block_flags: Option<BlockFlags>,
    /// The gap value to use where there is no gap stream.
    pub gap_default: u32,
    /// Where the data stream starts, from the start of the extra data block.
    pub data_offset: u32,
    /// The encoder type of the image that the descriptor was read with.
    pub saved_encoder_type: u32,
}

/// The size of a block descriptor of an image with encoder type `encoder_type`.
pub open spec fn descriptor_len(encoder_type: u32) -> int {
    if encoder_type == 1 || encoder_type == 2 {
        32
    } else {
        24
    }
}

/// The descriptor that the bytes at `pos` hold, for an image with encoder type
/// `encoder_type` (big endian words): data and gap bit sizes, the two words of the encoder
/// version, the block encoder type, the raw flags, the gap default and the data offset.
pub open spec fn descriptor_at(s: Seq<u8>, pos: int, encoder_type: u32) -> BlockDescriptor {
    let k: int = if encoder_type == 1 || encoder_type == 2 { 8 } else { 0 };
    let w = |i: int| be32(s, pos + i) as u32;
    BlockDescriptor {
        data_bits: w(0),
        gap_bits: w(4),
        data_bytes: if encoder_type == 1 { Some(w(8)) } else { None },
        gap_bytes: if encoder_type == 1 { Some(w(12)) } else { None },
        gap_offset: if encoder_type == 2 { Some(w(8)) } else { None },
        cell_type: if encoder_type == 2 { Some(w(12)) } else { None },
        blk_encoder_type: w(8 + k),
        block_flags: if encoder_type == 2 { Some(BlockFlags { bits: w(12 + k) & 0b0111 }) } else { None },
        gap_default: w(16 + k),
        data_offset: w(20 + k),
        saved_encoder_type: encoder_type,
    }
}

fn word_at(data: &[u8], pos: usize) -> (r: u32)
    requires
        pos + 4 <= data.len(),
    ensures
        r == be32(data@, pos as int) as u32,
{
    match read_u32_be(data, pos) {
        Some(v) => v,
        None => 0,
    }
}

impl BlockDescriptor {
    /// Read the descriptor at `pos` (see [descriptor_at]); returns it and where the next one
    /// starts, or nothing where the data ends first.
    pub fn read_args(data: &[u8], pos: usize, encoder_type: u32) -> (r: Option<(BlockDescriptor, usize)>)
        ensures
            pos + descriptor_len(encoder_type) > data@.len() ==> r is None,
            pos + descriptor_len(encoder_type) <= data@.len() ==> r == Some(
                (descriptor_at(data@, pos as int, encoder_type), (pos + descriptor_len(encoder_type)) as usize),
            ),
    {
        let len: usize = if encoder_type == 1 || encoder_type == 2 { 32 } else { 24 };
        if pos > data.len() || data.len() - pos < len {
            return None;
        }
        let k: usize = if encoder_type == 1 || encoder_type == 2 { 8 } else { 0 };
        let data_bits = word_at(data, pos);
        let gap_bits = word_at(data, pos + 4);
        let (data_bytes, gap_bytes, gap_offset, cell_type) = if encoder_type == 1 {
            (Some(word_at(data, pos + 8)), Some(word_at(data, pos + 12)), None, None)
        } else if encoder_type == 2 {
            (None, None, Some(word_at(data, pos + 8)), Some(word_at(data, pos + 12)))
        } else {
            (None, None, None, None)
        };
        let blk_encoder_type = word_at(data, pos + 8 + k);
        let raw_flags = word_at(data, pos + 12 + k);
        let block_flags = if encoder_type == 2 { Some(BlockFlags::from_bits_truncate(raw_flags)) } else { None };
        let gap_default = word_at(data, pos + 16 + k);
        let data_offset = word_at(data, pos + 20 + k);
        let d = BlockDescriptor {
            data_bits,
            gap_bits,
            data_bytes,
            gap_bytes,
            gap_offset,
            cell_type,
            blk_encoder_type,
            block_flags,
            gap_default,
            data_offset,
            saved_encoder_type: encoder_type,
        };
        Some((d, pos + len))
    }
}

} // verus!
