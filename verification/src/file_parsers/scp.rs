//! SuperCard Pro images.
use vstd::prelude::*;
use crate::file_parsers::{
    bitstream_bits, bitstream_flags, str_views, FormatCaps, CAP_COMMENT, CAP_ENCODING_FM,
    CAP_ENCODING_MFM, CAP_TRACK_ENCODING, CAP_WEAK_BITS,
};
use crate::types::{DiskRpm, Platform, StandardFormat, TrackDataRate};
use crate::file_parsers::ParserWriteCompatibility;
use crate::file_parsers::bytes::{be16, le32, read_u16_be, read_u32_le};
use crate::file_parsers::kryoflux::kfx_rate_spec;

verus! {

/// The parser of SuperCard Pro images.
pub struct ScpFormat {}

impl ScpFormat {
    /// The file extensions advertised for the format.
    pub fn extensions() -> (r: Vec<&'static str>)
        ensures
            str_views(r@) == seq!["scp"@],
    {
        let r = vec!["scp"];
        assert(str_views(r@) =~= seq!["scp"@]);
        r
    }

    /// The capability flags of the format.
    pub fn capabilities() -> (r: FormatCaps)
        ensures
            r@ == bitstream_bits(),
    {
        bitstream_flags()
    }
}

/// The base resolution of flux captures, in nanoseconds.
pub const BASE_CAPTURE_RES: u32 = 25;
/// The time base of flux samples, in nanoseconds.
pub const SCP_FLUX_TIME_BASE: u32 = 25;
/// The number of entries of the track offset table.
pub const SCP_TRACK_COUNT: usize = 168;
/// Header flag: the capture starts at the index.
pub const SCP_FB_INDEX: u8 = 0x01;
/// Header flag: the drive turns at 360 RPM.
pub const SCP_FB_RPM: u8 = 0x04;
/// Header flag: the capture keeps the flux type.
pub const SCP_FB_TYPE: u8 = 0x08;
/// Header flag: the image is read only.
pub const SCP_FB_READONLY: u8 = 0x10;
/// Header flag: the image has a footer.
pub const SCP_FB_FOOTER: u8 = 0x20;
/// Header flag: extended mode.
pub const SCP_FB_EXTENDED_MODE: u8 = 0x40;
/// Header flag: the image was not captured by the SCP hardware.
pub const SCP_NON_SCP_CAPTURE: u8 = 0x80;

/// The manufacturer class of the disk that an image holds.
#[derive(Clone, Copy, Debug, PartialEq, Eq, Structural)]
pub enum ScpDiskManufacturer {
    Cbm,
    Atari,
    Apple,
    Pc,
    Tandy,
    TI,
    Roland,
    Amstrad,
    Other,
    TapeDrive,
    HardDrive,
}

/// The file header of an SCP image.
#[derive(Clone, Copy, Debug)]
pub struct ScpFileHeader {
    pub id: [u8; 3],
    pub version: u8,
    pub disk_type: u8,
    pub revolutions: u8,
    pub start_track: u8,
    pub end_track: u8,
    pub flags: u8,
    pub bit_cell_width: u8,
    pub heads: u8,
    pub resolution: u8,
    pub checksum: u32,
}

/// The table of track offsets of an SCP image.
#[derive(Clone, Debug)]
pub struct ScpTrackOffsetTable {
    pub track_offsets: Vec<u32>,
}

/// The header of a track of an SCP image.
#[derive(Clone, Copy, Debug)]
pub struct ScpTrackHeader {
    pub id: [u8; 3],
    pub track_number: u8,
}

/// An entry of the revolution table of a track.
#[derive(Clone, Copy, Debug, PartialEq, Eq, Structural)]
pub struct ScpTrackRevolution {
    pub index_time: u32,
    pub length: u32,
    pub data_offset: u32,
}

/// The major and minor version numbers of a version byte: its high and low four bits.
pub fn scp_parse_version(version_byte: u8) -> (r: (u8, u8))
    ensures
        r == (version_byte >> 4u8, version_byte & 0x0F),
        r.0 == version_byte / 16 && r.1 == version_byte % 16,
{
    let major = version_byte >> 4u8;
    let minor = version_byte & 0x0F;
    assert(version_byte >> 4u8 == version_byte / 16 && version_byte & 0x0F == version_byte % 16) by (bit_vector);
    (major, minor)
}

/// The manufacturer class that the high four bits of a disk type byte name.
pub open spec fn manufacturer_spec(hi: u8) -> Option<ScpDiskManufacturer> {
    if hi == 0x00 { Some(ScpDiskManufacturer::Cbm) }
    else if hi == 0x10 { Some(ScpDiskManufacturer::Atari) }
    else if hi == 0x20 { Some(ScpDiskManufacturer::Apple) }
    else if hi == 0x30 { Some(ScpDiskManufacturer::Pc) }
    else if hi == 0x40 { Some(ScpDiskManufacturer::Tandy) }
    else if hi == 0x50 { Some(ScpDiskManufacturer::TI) }
    else if hi == 0x60 { Some(ScpDiskManufacturer::Roland) }
    else if hi == 0x70 { Some(ScpDiskManufacturer::Amstrad) }
    else if hi == 0x80 { Some(ScpDiskManufacturer::Other) }
    else if hi == 0xE0 { Some(ScpDiskManufacturer::TapeDrive) }
    else if hi == 0xF0 { Some(ScpDiskManufacturer::HardDrive) }
    else { None }
}

/// The standard format that the low four bits of a disk type byte name for a manufacturer.
pub open spec fn scp_format_spec(m: ScpDiskManufacturer, sub: u8) -> Option<StandardFormat> {
    match m {
        ScpDiskManufacturer::Pc => if sub == 0 { Some(StandardFormat::PcFloppy360) }
            else if sub == 1 { Some(StandardFormat::PcFloppy720) }
            else if sub == 2 { Some(StandardFormat::PcFloppy1200) }
            else if sub == 3 { Some(StandardFormat::PcFloppy1440) }
            else { None },
        ScpDiskManufacturer::Tandy => if sub == 1 { Some(StandardFormat::PcFloppy180) }
            else if sub == 3 { Some(StandardFormat::PcFloppy360) }
            else { None },
        _ => None,
    }
}

/// A disk type byte `0x3s` names a PC disk whose format is 360K, 720K, 1.2M or 1.44M for
/// subtype `s` 0, 1, 2 or 3 (different formats for different subtypes), and none for others.
pub proof fn law_scp_pc_disk_type(b: u8)
    ensures
        b / 16 == 3 ==> manufacturer_spec(b & 0xF0) == Some(ScpDiskManufacturer::Pc),
        b / 16 == 3 && b % 16 == 0 ==> scp_format_spec(ScpDiskManufacturer::Pc, b & 0x0F) == Some(StandardFormat::PcFloppy360),
        b / 16 == 3 && b % 16 == 1 ==> scp_format_spec(ScpDiskManufacturer::Pc, b & 0x0F) == Some(StandardFormat::PcFloppy720),
        b / 16 == 3 && b % 16 == 2 ==> scp_format_spec(ScpDiskManufacturer::Pc, b & 0x0F) == Some(StandardFormat::PcFloppy1200),
        b / 16 == 3 && b % 16 == 3 ==> scp_format_spec(ScpDiskManufacturer::Pc, b & 0x0F) == Some(StandardFormat::PcFloppy1440),
        b / 16 == 3 && b % 16 >= 4 ==> scp_format_spec(ScpDiskManufacturer::Pc, b & 0x0F) is None,
        forall|s: u8, t: u8| s < 4 && t < 4 && s != t
            ==> #[trigger] scp_format_spec(ScpDiskManufacturer::Pc, s) != #[trigger] scp_format_spec(ScpDiskManufacturer::Pc, t),
{
    assert(b & 0xF0 == (b / 16) * 16 && b & 0x0F == b % 16) by (bit_vector);
}

/// The manufacturer class and, for PC and Tandy disks, the standard format that a disk type
/// byte names; `None` for an unknown manufacturer class.
pub fn scp_disk_type(type_byte: u8) -> (r: Option<(ScpDiskManufacturer, Option<StandardFormat>)>)
    ensures
        match manufacturer_spec(type_byte & 0xF0) {
            None => r is None,
            Some(m) => r == Some((m, scp_format_spec(m, type_byte & 0x0F))),
        },
        type_byte / 16 == 3 ==> r == Some((ScpDiskManufacturer::Pc,
            if type_byte % 16 == 0 { Some(StandardFormat::PcFloppy360) }
            else if type_byte % 16 == 1 { Some(StandardFormat::PcFloppy720) }
            else if type_byte % 16 == 2 { Some(StandardFormat::PcFloppy1200) }
            else if type_byte % 16 == 3 { Some(StandardFormat::PcFloppy1440) }
            else { None::<StandardFormat> })),
{
    proof { law_scp_pc_disk_type(type_byte); }
    let manufacturer = match type_byte & 0xF0 {
        0x00 => ScpDiskManufacturer::Cbm,
        0x10 => ScpDiskManufacturer::Atari,
        0x20 => ScpDiskManufacturer::Apple,
        0x30 => ScpDiskManufacturer::Pc,
        0x40 => ScpDiskManufacturer::Tandy,
        0x50 => ScpDiskManufacturer::TI,
        0x60 => ScpDiskManufacturer::Roland,
        0x70 => ScpDiskManufacturer::Amstrad,
        0x80 => ScpDiskManufacturer::Other,
        0xE0 => ScpDiskManufacturer::TapeDrive,
        0xF0 => ScpDiskManufacturer::HardDrive,
        _ => return None,
    };
    let subtype = type_byte & 0x0F;
    let disk_format = match manufacturer {
        ScpDiskManufacturer::Pc => match subtype {
            0x00 => Some(StandardFormat::PcFloppy360),
            0x01 => Some(StandardFormat::PcFloppy720),
            0x02 => Some(StandardFormat::PcFloppy1200),
            0x03 => Some(StandardFormat::PcFloppy1440),
            _ => None,
        },
        ScpDiskManufacturer::Tandy => match subtype {
            0x01 => Some(StandardFormat::PcFloppy180),
            0x03 => Some(StandardFormat::PcFloppy360),
            _ => None,
        },
        _ => None,
    };
    Some((manufacturer, disk_format))
}

/// The data rate that a count of flux transitions per revolution suggests.
pub fn scp_transition_ct_to_bitrate(count: usize) -> (r: Option<TrackDataRate>)
    ensures
        r == kfx_rate_spec(count),
{
    if 35000 <= count && count <= 60000 {
        Some(TrackDataRate::Rate250Kbps)
    } else if 70000 <= count && count <= 120000 {
        Some(TrackDataRate::Rate500Kbps)
    } else if 140000 <= count && count <= 240000 {
        Some(TrackDataRate::Rate1000Kbps)
    } else {
        None
    }
}

impl ScpFileHeader {
    /// Read the header from the start of `data`.
    pub fn read(data: &[u8]) -> (r: Option<ScpFileHeader>)
        ensures
            data@.len() < 16 ==> r is None,
            data@.len() >= 16 ==> (r matches Some(h) && h.id@ == data@.subrange(0, 3)
                && h.version == data@[3] && h.disk_type == data@[4] && h.revolutions == data@[5]
                && h.start_track == data@[6] && h.end_track == data@[7] && h.flags == data@[8]
                && h.bit_cell_width == data@[9] && h.heads == data@[10] && h.resolution == data@[11]
                && h.checksum == le32(data@, 12)),
    {
        if data.len() < 16 {
            return None;
        }
        let checksum = match read_u32_le(data, 12) { Some(v) => v, None => return None };
        let id = [data[0], data[1], data[2]];
        proof { assert(id@ =~= data@.subrange(0, 3)); }
        Some(ScpFileHeader {
            id,
            version: data[3],
            disk_type: data[4],
            revolutions: data[5],
            start_track: data[6],
            end_track: data[7],
            flags: data[8],
            bit_cell_width: data[9],
            heads: data[10],
            resolution: data[11],
            checksum,
        })
    }
}

impl ScpTrackOffsetTable {
    /// Read the 168 entry track offset table at `pos`.
    pub fn read(data: &[u8], pos: usize) -> (r: Option<ScpTrackOffsetTable>)
        ensures
            pos + 672 > data@.len() ==> r is None,
            pos + 672 <= data@.len() ==> (r matches Some(t) && t.track_offsets@.len() == 168
                && forall|k: int| 0 <= k < 168 ==> #[trigger] t.track_offsets@[k] == le32(data@, pos + 4 * k)),
    {
        if pos > data.len() || data.len() - pos < 672 {
            return None;
        }
        let mut v: Vec<u32> = Vec::new();
        let mut k: usize = 0;
        let dlen = data.len();
        while k < 168
            invariant
                k <= 168,
                pos + 672 <= data@.len(),
                data@.len() == dlen,
                v@.len() == k,
                forall|j: int| 0 <= j < k ==> #[trigger] v@[j] == le32(data@, pos + 4 * j),
            decreases 168 - k,
        {
            let x = match read_u32_le(data, pos + 4 * k) { Some(x) => x, None => return None };
            v.push(x);
            k += 1;
        }
        Some(ScpTrackOffsetTable { track_offsets: v })
    }
}

impl ScpTrackRevolution {
    /// Read a revolution table entry at `pos`.
    pub fn read(data: &[u8], pos: usize) -> (r: Option<ScpTrackRevolution>)
        ensures
            pos + 12 > data@.len() ==> r is None,
            pos + 12 <= data@.len() ==> r == Some(ScpTrackRevolution {
                index_time: le32(data@, pos as int) as u32,
                length: le32(data@, pos + 4) as u32,
                data_offset: le32(data@, pos + 8) as u32,
            }),
    {
        if pos > data.len() || data.len() - pos < 12 {
            return None;
        }
        let index_time = match read_u32_le(data, pos) { Some(v) => v, None => return None };
        let length = match read_u32_le(data, pos + 4) { Some(v) => v, None => return None };
        let data_offset = match read_u32_le(data, pos + 8) { Some(v) => v, None => return None };
        Some(ScpTrackRevolution { index_time, length, data_offset })
    }
}

impl ScpFormat {
    /// Whether `image` starts with an SCP header.
    pub fn detect(image: &[u8]) -> (r: bool)
        ensures
            r == (image@.len() >= 16 && image@[0] == 0x53 && image@[1] == 0x43 && image@[2] == 0x50),
    {
        match ScpFileHeader::read(image) {
            Some(h) => h.id[0] == 0x53 && h.id[1] == 0x43 && h.id[2] == 0x50,
            None => false,
        }
    }

    /// Writing SCP images is not supported.
    pub fn can_write() -> (r: ParserWriteCompatibility)
        ensures
            r == ParserWriteCompatibility::UnsupportedFormat,
    {
        ParserWriteCompatibility::UnsupportedFormat
    }
}

/// Why an SCP image could not be read.
#[derive(Clone, Copy, Debug, PartialEq, Eq, Structural)]
pub enum ScpError {
    /// The image is not an SCP image, or is of a kind that is not supported.
    UnsupportedFormat,
    /// The track offset table is malformed.
    FormatParseError,
    /// The image ends before a record.
    Io,
}

/// What the header of an SCP image says of its disk.
#[derive(Clone, Copy, Debug, PartialEq, Eq)]
pub struct ScpDiskParams {
    pub manufacturer: ScpDiskManufacturer,
    pub disk_format: Option<StandardFormat>,
    /// The major and minor version, given where the image has no footer.
    pub version: Option<(u8, u8)>,
    pub rpm: DiskRpm,
    pub read_only: bool,
    pub flux_normalized: bool,
    pub heads: u8,
    /// The time of one flux sample, in nanoseconds.
    pub capture_resolution: u32,
}

/// What the checks of an SCP header give: the disk parameters, or the error of the first
/// failing check (signature, disk type, extended mode, bit cell width, head count).
pub open spec fn scp_header_spec(h: ScpFileHeader) -> Result<ScpDiskParams, ScpError> {
    if h.id@ != seq![0x53u8, 0x43u8, 0x50u8] {
        Err(ScpError::UnsupportedFormat)
    } else {
        match manufacturer_spec(h.disk_type & 0xF0) {
            None => Err(ScpError::UnsupportedFormat),
            Some(m) => {
                if h.flags & SCP_FB_EXTENDED_MODE != 0 || h.bit_cell_width != 0 || h.heads > 1 {
                    Err(ScpError::UnsupportedFormat)
                } else {
                    Ok(ScpDiskParams {
                        manufacturer: m,
                        disk_format: scp_format_spec(m, h.disk_type & 0x0F),
                        version: if h.flags & SCP_FB_FOOTER != 0 { None } else { Some((h.version / 16, h.version % 16)) },
                        rpm: if h.flags & SCP_FB_RPM != 0 { DiskRpm::Rpm300 } else { DiskRpm::Rpm360 },
                        read_only: h.flags & SCP_FB_READONLY == 0,
                        flux_normalized: h.flags & SCP_FB_TYPE != 0,
                        heads: if h.heads == 0 { 2 } else { 1 },
                        capture_resolution: (BASE_CAPTURE_RES + h.resolution * BASE_CAPTURE_RES) as u32,
                    })
                }
            },
        }
    }
}

/// Read the track offset table that follows the header, from `pos` on in `s`: entries until
/// the first zero one, at most the number that fit before the first track. The first must be
/// at least 16; each other must lie after the one before it and before the end of the image.
pub open spec fn scp_offsets_run(s: Seq<u8>, pos: int, left: int, last: u32, acc: Seq<u32>) -> Result<Seq<u32>, ScpError>
    decreases left,
{
    if left <= 0 {
        Ok(acc)
    } else if pos + 4 > s.len() {
        Err(ScpError::Io)
    } else {
        let off = le32(s, pos) as u32;
        if off == 0 {
            Ok(acc)
        } else if off <= last || off >= s.len() {
            Err(ScpError::FormatParseError)
        } else {
            scp_offsets_run(s, pos + 4, left - 1, off, acc.push(off))
        }
    }
}

/// The track offsets of the SCP image `s`.
pub open spec fn scp_offsets_spec(s: Seq<u8>) -> Result<Seq<u32>, ScpError> {
    if s.len() < 20 {
        Err(ScpError::Io)
    } else {
        let first = le32(s, 16) as u32;
        if first < 0x10 {
            Err(ScpError::FormatParseError)
        } else {
            scp_offsets_run(s, 20, (first - 16) / 4 - 1, first, seq![first])
        }
    }
}

/// Whether the track header at `off` of `s` and the `revs` revolution entries after it are
/// readable and it carries the signature `TRK`: the error otherwise.
pub open spec fn scp_track_error(s: Seq<u8>, off: int, revs: int) -> Option<ScpError> {
    if off + 4 > s.len() {
        Some(ScpError::Io)
    } else if s.subrange(off, off + 3) != seq![0x54u8, 0x52u8, 0x4Bu8] {
        Some(ScpError::UnsupportedFormat)
    } else if off + 4 + 12 * revs > s.len() {
        Some(ScpError::Io)
    } else {
        None
    }
}

/// The revolution entry `k` of the track at `off` of `s`.
pub open spec fn scp_rev_of(s: Seq<u8>, off: int, k: int) -> ScpTrackRevolution {
    let p = off + 4 + 12 * k;
    ScpTrackRevolution {
        index_time: le32(s, p) as u32,
        length: le32(s, p + 4) as u32,
        data_offset: le32(s, p + 8) as u32,
    }
}

impl ScpFormat {
    /// Check the header of an SCP image and give what it says of the disk.
    pub fn check_header(h: &ScpFileHeader) -> (r: Result<ScpDiskParams, ScpError>)
        ensures
            r == scp_header_spec(*h),
    {
        if !(h.id[0] == 0x53 && h.id[1] == 0x43 && h.id[2] == 0x50) {
            proof {
                if h.id@ == seq![0x53u8, 0x43u8, 0x50u8] {
                    assert(h.id@[0] == 0x53);
                }
            }
            return Err(ScpError::UnsupportedFormat);
        }
        assert(h.id@ =~= seq![0x53u8, 0x43u8, 0x50u8]);
        let (manufacturer, disk_format) = match scp_disk_type(h.disk_type) {
            Some(t) => t,
            None => return Err(ScpError::UnsupportedFormat),
        };
        let version = if h.flags & SCP_FB_FOOTER != 0 { None } else { Some(scp_parse_version(h.version)) };
        let rpm = if h.flags & SCP_FB_RPM != 0 { DiskRpm::Rpm300 } else { DiskRpm::Rpm360 };
        let read_only = h.flags & SCP_FB_READONLY == 0;
        if h.flags & SCP_FB_EXTENDED_MODE != 0 {
            return Err(ScpError::UnsupportedFormat);
        }
        let flux_normalized = h.flags & SCP_FB_TYPE != 0;
        if h.bit_cell_width != 0 {
            return Err(ScpError::UnsupportedFormat);
        }
        let heads: u8 = match h.heads {
            0 => 2,
            1 => 1,
            _ => return Err(ScpError::UnsupportedFormat),
        };
        let capture_resolution = BASE_CAPTURE_RES + h.resolution as u32 * BASE_CAPTURE_RES;
        Ok(ScpDiskParams { manufacturer, disk_format, version, rpm, read_only, flux_normalized, heads, capture_resolution })
    }

    /// Read the track offset table of `image`, which follows its header. An image whose first
    /// offset leaves no room for a table (16 to 19) makes the reader panic and is left out.
    pub fn read_track_offsets(image: &[u8]) -> (r: Result<Vec<u32>, ScpError>)
        requires
            !(image@.len() >= 20 && 16 <= le32(image@, 16) < 20),
        ensures
            match scp_offsets_spec(image@) {
                Ok(v) => r matches Ok(t) && t@ == v,
                Err(e) => r == Err::<Vec<u32>, ScpError>(e),
            },
    {
        let first = match read_u32_le(image, 16) {
            Some(v) => v,
            None => return Err(ScpError::Io),
        };
        if first < 0x10 {
            return Err(ScpError::FormatParseError);
        }
        let max_table_size = (first as usize - 0x10) / 4;
        let mut offsets: Vec<u32> = Vec::new();
        offsets.push(first);
        let mut last = first;
        let mut to: usize = 0;
        let mut pos: usize = 20;
        let ghost target = scp_offsets_spec(image@);
        assert(offsets@ =~= seq![first]);
        while to < max_table_size - 1
            invariant
                target == scp_offsets_spec(image@),
                max_table_size >= 1,
                to <= max_table_size - 1,
                pos == 20 + 4 * to,
                target == scp_offsets_run(image@, pos as int, (max_table_size - 1 - to) as int, last, offsets@),
            decreases max_table_size - 1 - to,
        {
            let off = match read_u32_le(image, pos) {
                Some(v) => v,
                None => return Err(ScpError::Io),
            };
            if off > 0 {
                if off <= last || off as u64 >= image.len() as u64 {
                    return Err(ScpError::FormatParseError);
                }
                offsets.push(off);
            } else {
                return Ok(offsets);
            }
            last = off;
            to += 1;
            pos += 4;
        }
        Ok(offsets)
    }

    /// Read the header of the track at `offset` and its `revolutions` revolution entries.
    pub fn read_track(image: &[u8], offset: u32, revolutions: u8) -> (r: Result<(ScpTrackHeader, Vec<ScpTrackRevolution>), ScpError>)
        ensures
            match scp_track_error(image@, offset as int, revolutions as int) {
                Some(e) => r == Err::<(ScpTrackHeader, Vec<ScpTrackRevolution>), ScpError>(e),
                None => r matches Ok((h, revs)) && h.id@ == seq![0x54u8, 0x52u8, 0x4Bu8]
                    && h.track_number == image@[offset + 3]
                    && revs@ == Seq::new(revolutions as nat, |k: int| scp_rev_of(image@, offset as int, k)),
            },
    {
        let off = offset as usize;
        if off > image.len() || image.len() - off < 4 {
            return Err(ScpError::Io);
        }
        let id = [image[off], image[off + 1], image[off + 2]];
        assert(id@ =~= image@.subrange(off as int, off + 3));
        if !(id[0] == 0x54 && id[1] == 0x52 && id[2] == 0x4B) {
            proof {
                if id@ == seq![0x54u8, 0x52u8, 0x4Bu8] {
                    assert(id@[0] == 0x54);
                }
            }
            return Err(ScpError::UnsupportedFormat);
        }
        assert(id@ =~= seq![0x54u8, 0x52u8, 0x4Bu8]);
        let header = ScpTrackHeader { id, track_number: image[off + 3] };
        let n = revolutions as usize;
        if image.len() - off - 4 < 12 * n {
            return Err(ScpError::Io);
        }
        let mut revs: Vec<ScpTrackRevolution> = Vec::new();
        let mut k: usize = 0;
        while k < n
            invariant
                n == revolutions,
                off == offset,
                off + 4 + 12 * n <= image.len(),
                k <= n,
                revs@ == Seq::new(k as nat, |j: int| scp_rev_of(image@, offset as int, j)),
            decreases n - k,
        {
            let rev = ScpTrackRevolution::read(image, off + 4 + 12 * k).unwrap();
            revs.push(rev);
            k += 1;
            assert(revs@ =~= Seq::new(k as nat, |j: int| scp_rev_of(image@, offset as int, j)));
        }
        Ok((header, revs))
    }

    /// Read the flux samples of a revolution of the track at `track_offset`: `rev.length`
    /// big endian 16 bit values at `rev.data_offset` from the track's start.
    pub fn read_flux_data(image: &[u8], track_offset: u32, rev: &ScpTrackRevolution) -> (r: Result<Vec<u16>, ScpError>)
        ensures
            ({
                let start = track_offset + rev.data_offset;
                if start + 2 * rev.length > image@.len() {
                    r == Err::<Vec<u16>, ScpError>(ScpError::Io)
                } else {
                    r matches Ok(v) && v@ == Seq::new(rev.length as nat, |k: int| be16(image@, start + 2 * k) as u16)
                }
            }),
    {
        let start: u64 = track_offset as u64 + rev.data_offset as u64;
        let n: u64 = rev.length as u64;
        if start + 2 * n > image.len() as u64 {
            return Err(ScpError::Io);
        }
        let s = start as usize;
        let m = n as usize;
        let mut v: Vec<u16> = Vec::new();
        let mut k: usize = 0;
        while k < m
            invariant
                s == start,
                m == rev.length,
                s + 2 * m <= image.len(),
                k <= m,
                v@ == Seq::new(k as nat, |j: int| be16(image@, s + 2 * j) as u16),
            decreases m - k,
        {
            v.push(read_u16_be(image, s + 2 * k).unwrap());
            k += 1;
            assert(v@ =~= Seq::new(k as nat, |j: int| be16(image@, s + 2 * j) as u16));
        }
        Ok(v)
    }
}

} // verus!
