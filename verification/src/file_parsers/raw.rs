//! Raw sector images.
use vstd::prelude::*;
use crate::file_parsers::{
    bitstream_bits, bitstream_flags, str_views, FormatCaps, CAP_COMMENT, CAP_ENCODING_FM,
    CAP_ENCODING_MFM, CAP_TRACK_ENCODING, CAP_WEAK_BITS,
};
use crate::types::Platform;

verus! {

/// The parser of raw sector images.
pub struct RawFormat {}

impl RawFormat {
    /// The file extensions advertised for the format.
    pub fn extensions() -> (r: Vec<&'static str>)
        ensures
            str_views(r@) == seq!["img"@, "ima"@, "dsk"@, "bin"@, "adf"@],
    {
        let r = vec!["img", "ima", "dsk", "bin", "adf"];
        assert(str_views(r@) =~= seq!["img"@, "ima"@, "dsk"@, "bin"@, "adf"@]);
        r
    }

    /// The capability flags of the format.
    pub fn capabilities() -> (r: FormatCaps)
        ensures
            r@ == 0,
    {
        FormatCaps::empty()
    }

    /// The platforms that the format supports.
    pub fn platforms() -> (r: Vec<Platform>)
        ensures
            r@ == seq![Platform::IbmPc, Platform::Amiga],
    {
        let r = vec![Platform::IbmPc, Platform::Amiga];
        assert(r@ =~= seq![Platform::IbmPc, Platform::Amiga]);
        r
    }
}

} // verus!
