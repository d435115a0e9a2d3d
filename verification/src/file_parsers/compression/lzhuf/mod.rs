//! Building blocks of LZHUF decompression: the dictionary window and the code tree.
use vstd::prelude::*;

pub mod node_pool;
pub mod ring_buffer;

verus! {

/// Options controlling compression.
#[derive(Clone, Copy, Debug)]
pub struct Options {
    /// Whether to include an optional header.
    pub header: bool,
    /// Starting position in the input file.
    pub in_offset: u64,
    /// Starting position in the output file.
    pub out_offset: u64,
    /// Size of the window, e.g. for the LZSS dictionary.
    pub window_size: usize,
    /// Threshold, e.g. the minimum length of a match to encode.
    pub threshold: usize,
    /// Lookahead, e.g. for LZSS matches.
    pub lookahead: usize,
    /// Precursor symbol, e.g. the backfill symbol of the LZSS dictionary.
    pub precursor: u8,
}

/// The standard options: with a header, a 4096 byte window filled with spaces.
pub fn std_options() -> (r: Options)
    ensures
        r == (Options { header: true, in_offset: 0, out_offset: 0, window_size: 4096, threshold: 2, lookahead: 60, precursor: 0x20 }),
{
    Options { header: true, in_offset: 0, out_offset: 0, window_size: 4096, threshold: 2, lookahead: 60, precursor: 0x20 }
}

/// The options for reading compressed TeleDisk images: no header, data from offset 12 on.
pub fn td0_read_options() -> (r: Options)
    ensures
        r == (Options { header: false, in_offset: 12, out_offset: 12, window_size: 4096, threshold: 2, lookahead: 60, precursor: 0x20 }),
{
    Options { header: false, in_offset: 12, out_offset: 12, window_size: 4096, threshold: 2, lookahead: 60, precursor: 0x20 }
}

} // verus!
