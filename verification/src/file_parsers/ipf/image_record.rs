//! The IMGE records of an IPF file, one per track.
use vstd::prelude::*;
use crate::file_parsers::ipf::info_record::word;
use crate::file_parsers::bytes::read_u32_be;
use crate::file_parsers::ipf::ipf::IpfError;
use crate::types::DiskCh;

verus! {

/// The density class of an IPF track; codes with no class are `Unknown`.
#[derive(Clone, Copy, Debug, PartialEq, Eq, Structural)]
pub enum IpfTrackDensity {
    Unknown,
    Noise,
    Auto,
    CopylockAmiga,
    CopylockAmigaNew,
    CopylockSt,
    SpeedlockAmiga,
    OldSpeedlockAmiga,
    AdamBrierleyAmiga,
    AdamBrierleyDensityKeyAmiga,
}

/// The density class with code `v`.
pub open spec fn track_density_of(v: u32) -> IpfTrackDensity {
    if v == 1 { IpfTrackDensity::Noise }
    else if v == 2 { IpfTrackDensity::Auto }
    else if v == 3 { IpfTrackDensity::CopylockAmiga }
    else if v == 4 { IpfTrackDensity::CopylockAmigaNew }
    else if v == 5 { IpfTrackDensity::CopylockSt }
    else if v == 6 { IpfTrackDensity::SpeedlockAmiga }
    else if v == 7 { IpfTrackDensity::OldSpeedlockAmiga }
    else if v == 8 { IpfTrackDensity::AdamBrierleyAmiga }
    else if v == 9 { IpfTrackDensity::AdamBrierleyDensityKeyAmiga }
    else { IpfTrackDensity::Unknown }
}

impl From<u32> for IpfTrackDensity {
    fn from(value: u32) -> (r: Self) {
        match value {
            1 => IpfTrackDensity::Noise,
            2 => IpfTrackDensity::Auto,
            3 => IpfTrackDensity::CopylockAmiga,
            4 => IpfTrackDensity::CopylockAmigaNew,
            5 => IpfTrackDensity::CopylockSt,
            6 => IpfTrackDensity::SpeedlockAmiga,
            7 => IpfTrackDensity::OldSpeedlockAmiga,
            8 => IpfTrackDensity::AdamBrierleyAmiga,
            9 => IpfTrackDensity::AdamBrierleyDensityKeyAmiga,
            _ => IpfTrackDensity::Unknown,
        }
    }
}

impl vstd::std_specs::convert::FromSpecImpl<u32> for IpfTrackDensity {
    open spec fn obeys_from_spec() -> bool {
        true
    }

    open spec fn from_spec(v: u32) -> Self {
        track_density_of(v)
    }
}

/// The size of an IMGE record in bytes.
pub const IMAGE_RECORD_SIZE: usize = 68;

/// The IMGE record of one track.
pub struct ImageRecord {
    pub track: u32,
    pub side: u32,
    pub density: u32,
    pub density_enum: IpfTrackDensity,
    pub signal_type: u32,
    pub track_bytes: u32,
    pub start_byte_pos: u32,
    pub start_bit_pos: u32,
    pub data_bits: u32,
    pub gap_bits: u32,
    pub track_bits: u32,
    pub block_count: u32,
    pub encoder_process: u32,
    pub track_flags: u32,
    pub data_key: u32,
    pub reserved: [u32; 3],
}

/// Whether `r` is the IMGE record stored at the start of `s`.
pub open spec fn image_record_of(s: Seq<u8>, r: ImageRecord) -> bool {
    &&& r.track == word(s, 0)
    &&& r.side == word(s, 1)
    &&& r.density == word(s, 2)
    &&& r.density_enum == track_density_of(word(s, 2))
    &&& r.signal_type == word(s, 3)
    &&& r.track_bytes == word(s, 4)
    &&& r.start_byte_pos == word(s, 5)
    &&& r.start_bit_pos == word(s, 6)
    &&& r.data_bits == word(s, 7)
    &&& r.gap_bits == word(s, 8)
    &&& r.track_bits == word(s, 9)
    &&& r.block_count == word(s, 10)
    &&& r.encoder_process == word(s, 11)
    &&& r.track_flags == word(s, 12)
    &&& r.data_key == word(s, 13)
    &&& r.reserved@ == seq![word(s, 14), word(s, 15), word(s, 16)]
}

/// The big endian word `k` of `data`, which holds it.
fn word_at(data: &[u8], k: usize) -> (r: u32)
    requires
        4 * k + 4 <= data.len(),
    ensures
        r == word(data@, k as int),
{
    read_u32_be(data, 4 * k).unwrap()
}

impl ImageRecord {
    /// Read an IMGE record from the data of an IMGE chunk; an error if the data is too short.
    pub fn read(data: &[u8]) -> (r: Result<ImageRecord, IpfError>)
        ensures
            data@.len() < IMAGE_RECORD_SIZE ==> r == Err::<ImageRecord, IpfError>(IpfError::RecordTooShort),
            data@.len() >= IMAGE_RECORD_SIZE ==> (r matches Ok(rec) && image_record_of(data@, rec)),
    {
        if data.len() < IMAGE_RECORD_SIZE {
            return Err(IpfError::RecordTooShort);
        }
        let density = word_at(data, 2);
        let reserved = [word_at(data, 14), word_at(data, 15), word_at(data, 16)];
        let rec = ImageRecord {
            track: word_at(data, 0),
            side: word_at(data, 1),
            density,
            density_enum: IpfTrackDensity::from(density),
            signal_type: word_at(data, 3),
            track_bytes: word_at(data, 4),
            start_byte_pos: word_at(data, 5),
            start_bit_pos: word_at(data, 6),
            data_bits: word_at(data, 7),
            gap_bits: word_at(data, 8),
            track_bits: word_at(data, 9),
            block_count: word_at(data, 10),
            encoder_process: word_at(data, 11),
            track_flags: word_at(data, 12),
            data_key: word_at(data, 13),
            reserved,
        };
        assert(rec.reserved@ =~= seq![word(data@, 14), word(data@, 15), word(data@, 16)]);
        Ok(rec)
    }

    /// The key by which DATA records refer to this record.
    pub fn key(&self) -> (r: u32)
        ensures
            r == self.data_key,
    {
        self.data_key
    }

    /// The track the record describes; the cylinder and head are the low bits of the
    /// record's track and side.
    pub fn ch(&self) -> (r: DiskCh)
        ensures
            r.c == self.track as u16,
            r.h == self.side as u8,
    {
        DiskCh { c: self.track as u16, h: self.side as u8 }
    }
}

} // verus!
