//! 86Box 86F images.
use vstd::prelude::*;
use crate::file_parsers::{
    bitstream_bits, bitstream_flags, str_views, FormatCaps, CAP_COMMENT, CAP_ENCODING_FM,
    CAP_ENCODING_MFM, CAP_TRACK_ENCODING, CAP_WEAK_BITS,
};
use crate::types::{DiskCh, DiskDataResolution, DiskRpm, Platform, TrackDataEncoding, TrackDataRate, TrackDensity};
use crate::file_parsers::ParserWriteCompatibility;
use crate::file_parsers::bytes::{copy_range, le16, le32, read_u16_le, read_u32_le};

verus! {

/// The parser of 86Box 86F images.
pub struct F86Format {}

impl F86Format {
    /// The file extensions advertised for the format.
    pub fn extensions() -> (r: Vec<&'static str>)
        ensures
            str_views(r@) == seq!["86f"@],
    {
        let r = vec!["86f"];
        assert(str_views(r@) =~= seq!["86f"@]);
        r
    }

    /// The capability flags of the format.
    pub fn capabilities() -> (r: FormatCaps)
        ensures
            r@ == bitstream_bits(),
    {
        bitstream_flags()
    }
}

/// Length of the track table per head.
pub const F86_TRACK_TABLE_LEN_PER_HEAD: usize = 256;
/// Default size of a track, in bytes.
pub const F86_TRACK_SIZE_BYTES: usize = 25000;
/// Disk flag: the image has surface descriptions.
pub const F86_DISK_HAS_SURFACE_DESC: u16 = 0x0001;
/// Disk flags: the hole kind.
pub const F86_DISK_HOLE_MASK: u16 = 0x0006;
/// Disk flag: the disk has two sides.
pub const F86_DISK_SIDES: u16 = 0x0008;
/// Disk flag: the disk is write protected.
pub const F86_DISK_WRITE_PROTECT: u16 = 0x0010;
/// Disk flags: the rotation slowdown.
pub const F86_DISK_RPM_SLOWDOWN: u16 = 0x0060;
/// Disk flag: the tracks give their bit cell counts.
pub const F86_DISK_BITCELL_MODE: u16 = 0x0080;
/// Disk flag: the disk type.
pub const F86_DISK_TYPE: u16 = 0x0100;
/// Disk flag: the data is stored big endian.
pub const F86_DISK_REVERSE_ENDIAN: u16 = 0x0800;
/// Disk flag: the rotation shift is a speed up.
pub const F86_DISK_SPEEDUP_FLAG: u16 = 0x1000;

/// The file header of an 86F image.
#[derive(Clone, Copy, Debug)]
pub struct FileHeader {
    pub id: [u8; 4],
    pub minor_version: u8,
    pub major_version: u8,
    pub flags: u16,
}

impl Default for FileHeader {
    /// The header of a new image: signature "86BF", version 2.12, no flags.
    fn default() -> (r: Self)
        ensures
            r == (FileHeader { id: [0x38u8, 0x36, 0x42, 0x46], minor_version: 0x0C, major_version: 0x02, flags: 0 }),
    {
        FileHeader { id: [0x38u8, 0x36, 0x42, 0x46], minor_version: 0x0C, major_version: 0x02, flags: 0 }
    }
}

impl FileHeader {
    /// Read the header from the start of `data`.
    pub fn read(data: &[u8]) -> (r: Option<FileHeader>)
        ensures
            data@.len() < 8 ==> r is None,
            data@.len() >= 8 ==> r == Some(FileHeader {
                id: [data@[0], data@[1], data@[2], data@[3]],
                minor_version: data@[4],
                major_version: data@[5],
                flags: le16(data@, 6) as u16,
            }),
    {
        if data.len() < 8 {
            return None;
        }
        let flags = match read_u16_le(data, 6) { Some(v) => v, None => return None };
        Some(FileHeader { id: [data[0], data[1], data[2], data[3]], minor_version: data[4], major_version: data[5], flags })
    }
}

/// The rotation speed shift of a disk.
#[derive(Clone, Copy, Debug, PartialEq, Eq, Structural)]
pub enum F86TimeShift {
    ZeroPercent,
    SlowOnePercent,
    SlowOneAndAHalfPercent,
    SlowTwoPercent,
    FastOnePercent,
    FastOneAndAHalfPercent,
    FastTwoPercent,
}

/// The rotation speed shift that the disk flags give. The shift amount is read from the two
/// lowest bits of the flags, the direction from the speed up flag.
pub open spec fn time_shift_spec(flags: u16) -> F86TimeShift {
    let amount = flags & 0x03;
    let fast = flags & F86_DISK_SPEEDUP_FLAG != 0;
    if amount == 0 {
        F86TimeShift::ZeroPercent
    } else if amount == 1 {
        if fast { F86TimeShift::FastOnePercent } else { F86TimeShift::SlowOnePercent }
    } else if amount == 2 {
        if fast { F86TimeShift::FastOneAndAHalfPercent } else { F86TimeShift::SlowOneAndAHalfPercent }
    } else {
        if fast { F86TimeShift::FastTwoPercent } else { F86TimeShift::SlowTwoPercent }
    }
}

/// The rotation speed shift that the disk flags give.
pub fn f86_disk_time_shift(flags: u16) -> (r: F86TimeShift)
    ensures
        r == time_shift_spec(flags),
{
    let amount = flags & (F86_DISK_RPM_SLOWDOWN >> 5u16);
    let fast = flags & F86_DISK_SPEEDUP_FLAG != 0;
    assert(F86_DISK_RPM_SLOWDOWN >> 5u16 == 3) by (bit_vector);
    assert(flags & 3 <= 3) by (bit_vector);
    if amount == 0 {
        F86TimeShift::ZeroPercent
    } else if amount == 1 {
        if fast { F86TimeShift::FastOnePercent } else { F86TimeShift::SlowOnePercent }
    } else if amount == 2 {
        if fast { F86TimeShift::FastOneAndAHalfPercent } else { F86TimeShift::SlowOneAndAHalfPercent }
    } else {
        if fast { F86TimeShift::FastTwoPercent } else { F86TimeShift::SlowTwoPercent }
    }
}

/// The data rate that the track flags give, if it is known.
pub fn f86_track_data_rate(flags: u16) -> (r: Option<TrackDataRate>)
    ensures
        r == if flags & 0x07 == 0 { Some(TrackDataRate::Rate500Kbps) } else if flags & 0x07 == 1 {
            Some(TrackDataRate::Rate300Kbps)
        } else if flags & 0x07 == 2 { Some(TrackDataRate::Rate250Kbps) } else if flags & 0x07 == 3 {
            Some(TrackDataRate::Rate125Kbps)
        } else { None::<TrackDataRate> },
{
    match flags & 0x07 {
        0 => Some(TrackDataRate::Rate500Kbps),
        1 => Some(TrackDataRate::Rate300Kbps),
        2 => Some(TrackDataRate::Rate250Kbps),
        3 => Some(TrackDataRate::Rate125Kbps),
        _ => None,
    }
}

/// The encoding that the track flags give, if it is known.
pub fn f86_track_encoding(flags: u16) -> (r: Option<TrackDataEncoding>)
    ensures
        r == if (flags >> 3u16) & 0x03 == 0 { Some(TrackDataEncoding::Fm) } else if (flags >> 3u16) & 0x03 == 1 {
            Some(TrackDataEncoding::Mfm)
        } else if (flags >> 3u16) & 0x03 == 3 { Some(TrackDataEncoding::Gcr) } else { None::<TrackDataEncoding> },
{
    match (flags >> 3u16) & 0x03 {
        0 => Some(TrackDataEncoding::Fm),
        1 => Some(TrackDataEncoding::Mfm),
        3 => Some(TrackDataEncoding::Gcr),
        _ => None,
    }
}

/// The rotation rate that the track flags give, if it is known.
pub fn f86_track_rpm(flags: u16) -> (r: Option<DiskRpm>)
    ensures
        r == if (flags >> 5u16) & 0x07 == 0 { Some(DiskRpm::Rpm300) } else if (flags >> 5u16) & 0x07 == 1 {
            Some(DiskRpm::Rpm360)
        } else { None::<DiskRpm> },
{
    match (flags >> 5u16) & 0x07 {
        0 => Some(DiskRpm::Rpm300),
        1 => Some(DiskRpm::Rpm360),
        _ => None,
    }
}

/// Mark weak bits in bit data: each byte is or-ed with the matching byte of the weak mask, as
/// far as both reach.
pub fn f86_weak_to_weak(bit_data: &mut Vec<u8>, weak_data: &[u8])
    ensures
        final(bit_data)@.len() == old(bit_data)@.len(),
        forall|i: int| 0 <= i < old(bit_data)@.len() ==> #[trigger] final(bit_data)@[i]
            == if i < weak_data@.len() { old(bit_data)@[i] | weak_data@[i] } else { old(bit_data)@[i] },
{
    let n = if bit_data.len() < weak_data.len() { bit_data.len() } else { weak_data.len() };
    let mut i: usize = 0;
    while i < n
        invariant
            i <= n,
            n <= bit_data@.len(),
            n <= weak_data@.len(),
            n == bit_data@.len() || n == weak_data@.len(),
            bit_data@.len() == old(bit_data)@.len(),
            forall|j: int| 0 <= j < bit_data@.len() ==> #[trigger] bit_data@[j]
                == if j < i { old(bit_data)@[j] | weak_data@[j] } else { old(bit_data)@[j] },
        decreases n - i,
    {
        let b = bit_data[i] | weak_data[i];
        bit_data.set(i, b);
        i += 1;
    }
}

/// Turn weak bits into holes in bit data: each byte is and-ed with the complement of the
/// matching byte of the weak mask, as far as both reach.
pub fn f86_weak_to_holes(bit_data: &mut Vec<u8>, weak_data: &[u8])
    ensures
        final(bit_data)@.len() == old(bit_data)@.len(),
        forall|i: int| 0 <= i < old(bit_data)@.len() ==> #[trigger] final(bit_data)@[i]
            == if i < weak_data@.len() { old(bit_data)@[i] & !weak_data@[i] } else { old(bit_data)@[i] },
{
    let n = if bit_data.len() < weak_data.len() { bit_data.len() } else { weak_data.len() };
    let mut i: usize = 0;
    while i < n
        invariant
            i <= n,
            n <= bit_data@.len(),
            n <= weak_data@.len(),
            n == bit_data@.len() || n == weak_data@.len(),
            bit_data@.len() == old(bit_data)@.len(),
            forall|j: int| 0 <= j < bit_data@.len() ==> #[trigger] bit_data@[j]
                == if j < i { old(bit_data)@[j] & !weak_data@[j] } else { old(bit_data)@[j] },
        decreases n - i,
    {
        let b = bit_data[i] & !weak_data[i];
        bit_data.set(i, b);
        i += 1;
    }
}

impl F86Format {
    /// Whether `image` starts with an 86F header of version 2.12.
    pub fn detect(image: &[u8]) -> (r: bool)
        ensures
            r == (image@.len() >= 8 && image@[0] == 0x38 && image@[1] == 0x36 && image@[2] == 0x42
                && image@[3] == 0x46 && image@[4] == 0x0C && image@[5] == 0x02),
    {
        match FileHeader::read(image) {
            Some(h) => h.id[0] == 0x38 && h.id[1] == 0x36 && h.id[2] == 0x42 && h.id[3] == 0x46
                && h.minor_version == 0x0C && h.major_version == 0x02,
            None => false,
        }
    }

    /// Whether an image of the given resolution can be written as an 86F image: only a
    /// bitstream image can.
    pub fn can_write(resolution: Option<DiskDataResolution>) -> (r: ParserWriteCompatibility)
        ensures
            r == if resolution == Some(DiskDataResolution::BitStream) {
                ParserWriteCompatibility::Compatible
            } else {
                ParserWriteCompatibility::Incompatible
            },
    {
        match resolution {
            Some(DiskDataResolution::BitStream) => ParserWriteCompatibility::Compatible,
            _ => ParserWriteCompatibility::Incompatible,
        }
    }
}


/// Why an 86F image could not be read.
#[derive(Clone, Copy, Debug, PartialEq, Eq, Structural)]
pub enum F86Error {
    /// The image ends before a header, table entry or track does.
    Io,
    /// The image uses a feature that is not supported.
    UnsupportedFormat,
}

/// What the disk flags of an image say.
#[derive(Clone, Copy, Debug, PartialEq, Eq, Structural)]
pub struct F86DiskParams {
    pub heads: u8,
    pub density: TrackDensity,
    pub data_rate: TrackDataRate,
    pub has_surface_desc: bool,
    pub extra_bitcell_mode: bool,
    pub absolute_bitcell_count: bool,
    pub write_protect: bool,
}

/// The spec value of [f86_track_rpm].
pub open spec fn track_rpm_spec(flags: u16) -> Option<DiskRpm> {
    if (flags >> 5u16) & 0x07 == 0 { Some(DiskRpm::Rpm300) } else if (flags >> 5u16) & 0x07 == 1 {
        Some(DiskRpm::Rpm360)
    } else { None }
}

/// The spec value of [f86_track_encoding].
pub open spec fn track_encoding_spec(flags: u16) -> Option<TrackDataEncoding> {
    if (flags >> 3u16) & 0x03 == 0 { Some(TrackDataEncoding::Fm) } else if (flags >> 3u16) & 0x03 == 1 {
        Some(TrackDataEncoding::Mfm)
    } else if (flags >> 3u16) & 0x03 == 3 { Some(TrackDataEncoding::Gcr) } else { None }
}

/// The spec value of [f86_track_data_rate].
pub open spec fn track_rate_spec(flags: u16) -> Option<TrackDataRate> {
    if flags & 0x07 == 0 { Some(TrackDataRate::Rate500Kbps) } else if flags & 0x07 == 1 {
        Some(TrackDataRate::Rate300Kbps)
    } else if flags & 0x07 == 2 { Some(TrackDataRate::Rate250Kbps) } else if flags & 0x07 == 3 {
        Some(TrackDataRate::Rate125Kbps)
    } else { None }
}

/// What the disk flags say, or why they are refused: a hole kind of 3, the zoned disk type
/// and big endian data are not supported, nor the extra bit cell mode but with an absolute
/// count (no rotation shift, with the speed up flag).
pub open spec fn f86_disk_params(flags: u16) -> Result<F86DiskParams, F86Error> {
    let hole = (flags & F86_DISK_HOLE_MASK) >> 1u16;
    let extra = flags & F86_DISK_BITCELL_MODE != 0;
    let abs = time_shift_spec(flags) == F86TimeShift::ZeroPercent && flags & F86_DISK_SPEEDUP_FLAG != 0 && extra;
    if hole == 3 || flags & F86_DISK_TYPE != 0 || flags & F86_DISK_REVERSE_ENDIAN != 0 || (extra && !abs) {
        Err(F86Error::UnsupportedFormat)
    } else {
        Ok(F86DiskParams {
            heads: if flags & F86_DISK_SIDES != 0 { 2 } else { 1 },
            density: if hole == 0 { TrackDensity::Double } else if hole == 1 { TrackDensity::High } else { TrackDensity::Extended },
            data_rate: if hole == 0 {
                TrackDataRate::Rate250Kbps
            } else if hole == 1 {
                TrackDataRate::Rate500Kbps
            } else {
                TrackDataRate::Rate1000Kbps
            },
            has_surface_desc: flags & F86_DISK_HAS_SURFACE_DESC != 0,
            extra_bitcell_mode: extra,
            absolute_bitcell_count: abs,
            write_protect: flags & F86_DISK_WRITE_PROTECT != 0,
        })
    }
}

/// What reading part of an 86F image gives.
pub enum F86Run<T> {
    Done(T),
    Failed(F86Error),
    /// An unsigned subtraction underflows (or a cylinder count overflows): the reading panics.
    Panics,
}

/// Read the track offset table entries `i` to `n` after the offsets `acc`: a zero entry ends
/// it; an offset before the one before it underflows the track size.
pub open spec fn f86_table_run(s: Seq<u8>, i: int, n: int, acc: Seq<u32>) -> F86Run<Seq<u32>>
    decreases n - i,
{
    if i >= n {
        F86Run::Done(acc)
    } else if 8 + 4 * i + 4 > s.len() {
        F86Run::Failed(F86Error::Io)
    } else {
        let o = le32(s, 8 + 4 * i) as u32;
        if o == 0 {
            F86Run::Done(acc)
        } else if o < acc.last() {
            F86Run::Panics
        } else {
            f86_table_run(s, i + 1, n, acc.push(o))
        }
    }
}

/// The track offsets of an image: the first entry, after the header, gives the size of the
/// table; an entry below the header size underflows it; the last track must not start past
/// the end of the image.
pub open spec fn f86_offsets(s: Seq<u8>) -> F86Run<Seq<u32>> {
    if s.len() < 12 {
        F86Run::Failed(F86Error::Io)
    } else {
        let first = le32(s, 8) as u32;
        if first < 8 {
            F86Run::Panics
        } else {
            match f86_table_run(s, 1, (first - 8) / 4, seq![first]) {
                F86Run::Done(offs) => if offs.last() > s.len() { F86Run::Panics } else { F86Run::Done(offs) },
                other => other,
            }
        }
    }
}

/// The size of track `j`: up to the next offset, or to the end of the image.
pub open spec fn f86_track_size(s: Seq<u8>, offs: Seq<u32>, j: int) -> int {
    if j + 1 < offs.len() {
        offs[j + 1] - offs[j]
    } else {
        s.len() - offs[j]
    }
}

/// A track of an image, as plain values.
pub struct F86TrackView {
    pub c: int,
    pub h: int,
    pub encoding: TrackDataEncoding,
    pub data_rate: TrackDataRate,
    pub rpm: DiskRpm,
    pub bitcell_ct: Option<u32>,
    pub start: int,
    pub len: int,
}

/// The tracks of an image, the cylinder after the last, and the rotation rate of the disk.
pub struct F86TracksView {
    pub tracks: Seq<F86TrackView>,
    pub c: int,
    pub rpm: Option<DiskRpm>,
}

/// Read track `j` at cylinder `c`, head `h`: it starts with its header (flags, with the bit
/// cell count in extra bit cell mode): its rotation rate must be known and the same as that
/// of the tracks before it (`rpm`), its encoding and data rate known. Its data is the rest of
/// its size (half of it with surface descriptions, half again but with an absolute bit cell
/// count). Gives the track and the cylinder and head of the next.
pub open spec fn f86_track_step(
    s: Seq<u8>,
    p: F86DiskParams,
    offs: Seq<u32>,
    j: int,
    c: int,
    h: int,
    rpm: Option<DiskRpm>,
) -> F86Run<(F86TrackView, int, int)> {
    let o = offs[j] as int;
    let size = f86_track_size(s, offs, j);
    let hdr: int = if p.extra_bitcell_mode { 10 } else { 6 };
    if o + hdr > s.len() {
        F86Run::Failed(F86Error::Io)
    } else {
        let tf = le16(s, o) as u16;
        match track_rpm_spec(tf) {
            None => F86Run::Failed(F86Error::UnsupportedFormat),
            Some(r) => if rpm is Some && rpm != Some(r) {
                F86Run::Failed(F86Error::UnsupportedFormat)
            } else {
                match (track_encoding_spec(tf), track_rate_spec(tf)) {
                    (Some(enc), Some(rate)) => if size < hdr {
                        F86Run::Panics
                    } else {
                        let dl0 = if p.has_surface_desc { (size - hdr) / 2 } else { size - hdr };
                        let dl = if p.absolute_bitcell_count { dl0 } else { dl0 / 2 };
                        if o + hdr + dl > s.len() {
                            F86Run::Failed(F86Error::Io)
                        } else if h + 1 == p.heads && c + 1 > u16::MAX {
                            F86Run::Panics
                        } else {
                            let t = F86TrackView {
                                c,
                                h,
                                encoding: enc,
                                data_rate: rate,
                                rpm: r,
                                bitcell_ct: if p.absolute_bitcell_count { Some(le32(s, o + 2) as u32) } else { None },
                                start: o + hdr,
                                len: dl,
                            };
                            if h + 1 == p.heads {
                                F86Run::Done((t, c + 1, 0))
                            } else {
                                F86Run::Done((t, c, h + 1))
                            }
                        }
                    },
                    (None, _) => F86Run::Failed(F86Error::UnsupportedFormat),
                    (_, None) => F86Run::Failed(F86Error::UnsupportedFormat),
                }
            },
        }
    }
}

/// Read the tracks `j` on (see [f86_track_step]), the next at cylinder `c`, head `h`, after
/// `acc`.
pub open spec fn f86_tracks_run(
    s: Seq<u8>,
    p: F86DiskParams,
    offs: Seq<u32>,
    j: int,
    c: int,
    h: int,
    rpm: Option<DiskRpm>,
    acc: Seq<F86TrackView>,
) -> F86Run<F86TracksView>
    decreases offs.len() - j,
{
    if j < 0 || j >= offs.len() {
        F86Run::Done(F86TracksView { tracks: acc, c, rpm })
    } else {
        match f86_track_step(s, p, offs, j, c, h, rpm) {
            F86Run::Failed(e) => F86Run::Failed(e),
            F86Run::Panics => F86Run::Panics,
            F86Run::Done((t, c2, h2)) => f86_tracks_run(s, p, offs, j + 1, c2, h2, Some(t.rpm), acc.push(t)),
        }
    }
}

/// What loading an image gives: its disk parameters and its tracks.
pub struct F86LoadView {
    pub params: F86DiskParams,
    pub tracks: F86TracksView,
}

/// Load an 86F image: its header, the disk parameters its flags give, the track offset
/// table, then the tracks.
pub open spec fn f86_load(s: Seq<u8>) -> F86Run<F86LoadView> {
    if s.len() < 8 {
        F86Run::Failed(F86Error::Io)
    } else {
        match f86_disk_params(le16(s, 6) as u16) {
            Err(e) => F86Run::Failed(e),
            Ok(p) => match f86_offsets(s) {
                F86Run::Failed(e) => F86Run::Failed(e),
                F86Run::Panics => F86Run::Panics,
                F86Run::Done(offs) => match f86_tracks_run(s, p, offs, 0, 0, 0, None, Seq::empty()) {
                    F86Run::Failed(e) => F86Run::Failed(e),
                    F86Run::Panics => F86Run::Panics,
                    F86Run::Done(t) => F86Run::Done(F86LoadView { params: p, tracks: t }),
                },
            },
        }
    }
}


/// A track of a loaded image.
pub struct F86Track {
    pub ch: DiskCh,
    pub encoding: TrackDataEncoding,
    pub data_rate: TrackDataRate,
    pub rpm: DiskRpm,
    /// The absolute bit cell count, where the image gives one.
    pub bitcell_ct: Option<u32>,
    pub data: Vec<u8>,
}

/// Whether `t` is the track that `v` describes, its data taken from `s`.
pub open spec fn f86_track_matches(s: Seq<u8>, t: F86Track, v: F86TrackView) -> bool {
    &&& t.ch.c == v.c
    &&& t.ch.h == v.h
    &&& t.encoding == v.encoding
    &&& t.data_rate == v.data_rate
    &&& t.rpm == v.rpm
    &&& t.bitcell_ct == v.bitcell_ct
    &&& t.data@ == s.subrange(v.start, v.start + v.len)
}

/// A loaded 86F image.
pub struct F86Image {
    /// What the disk flags say.
    pub params: F86DiskParams,
    /// The cylinder after the last track, and the heads.
    pub geometry: DiskCh,
    /// The rotation rate of the tracks, if there are any.
    pub rpm: Option<DiskRpm>,
    pub tracks: Vec<F86Track>,
}

fn disk_params(flags: u16) -> (r: Result<F86DiskParams, F86Error>)
    ensures
        r == f86_disk_params(flags),
{
    let hole = (flags & F86_DISK_HOLE_MASK) >> 1u16;
    let extra = flags & F86_DISK_BITCELL_MODE != 0;
    let abs = f86_disk_time_shift(flags) == F86TimeShift::ZeroPercent && flags & F86_DISK_SPEEDUP_FLAG != 0 && extra;
    if hole == 3 || flags & F86_DISK_TYPE != 0 || flags & F86_DISK_REVERSE_ENDIAN != 0 || (extra && !abs) {
        return Err(F86Error::UnsupportedFormat);
    }
    Ok(F86DiskParams {
        heads: if flags & F86_DISK_SIDES != 0 { 2 } else { 1 },
        density: if hole == 0 { TrackDensity::Double } else if hole == 1 { TrackDensity::High } else { TrackDensity::Extended },
        data_rate: if hole == 0 {
            TrackDataRate::Rate250Kbps
        } else if hole == 1 {
            TrackDataRate::Rate500Kbps
        } else {
            TrackDataRate::Rate1000Kbps
        },
        has_surface_desc: flags & F86_DISK_HAS_SURFACE_DESC != 0,
        extra_bitcell_mode: extra,
        absolute_bitcell_count: abs,
        write_protect: flags & F86_DISK_WRITE_PROTECT != 0,
    })
}

/// Whether the offsets do not decrease, and none passes the end of the image.
pub open spec fn offsets_sound(s: Seq<u8>, offs: Seq<u32>) -> bool {
    &&& offs.len() > 0
    &&& forall|i: int, j: int| 0 <= i <= j < offs.len() ==> offs[i] <= offs[j]
    &&& offs.last() <= s.len()
}

fn read_offsets(image: &[u8]) -> (r: F86Run<Vec<u32>>)
    ensures
        match f86_offsets(image@) {
            F86Run::Done(o) => r matches F86Run::Done(v) && v@ == o && offsets_sound(image@, o),
            F86Run::Failed(e) => r matches F86Run::Failed(e2) && e2 == e,
            F86Run::Panics => r is Panics,
        },
{
    let first = match read_u32_le(image, 8) {
        Some(v) => v,
        None => return F86Run::Failed(F86Error::Io),
    };
    if first < 8 {
        return F86Run::Panics;
    }
    let n = ((first - 8) / 4) as usize;
    let mut offs: Vec<u32> = Vec::new();
    offs.push(first);
    let ghost target = f86_table_run(image@, 1, n as int, seq![first]);
    assert(offs@ =~= seq![first]);
    let mut i: usize = 1;
    while i < n
        invariant
            image@.len() >= 12,
            1 <= i,
            offs@.len() > 0,
            forall|a: int, b: int| 0 <= a <= b < offs@.len() ==> offs@[a] <= offs@[b],
            target == f86_table_run(image@, 1, n as int, seq![first]),
            target == f86_table_run(image@, i as int, n as int, offs@),
            first == le32(image@, 8) as u32,
            first >= 8,
            n == (first - 8) / 4,
        ensures
            target == F86Run::Done(offs@),
            offs@.len() > 0,
            forall|a: int, b: int| 0 <= a <= b < offs@.len() ==> offs@[a] <= offs@[b],
        decreases n - i,
    {
        if i > (image.len() - 12) / 4 {
            assert(8 + 4 * i + 4 > image@.len()) by (nonlinear_arith)
                requires
                    i > (image@.len() - 12) / 4,
                    image@.len() >= 12,
            ;
            assert(target == F86Run::<Seq<u32>>::Failed(F86Error::Io));
            assert(f86_offsets(image@) == target);
            return F86Run::Failed(F86Error::Io);
        }
        assert(8 + 4 * i + 4 <= image@.len()) by (nonlinear_arith)
            requires
                i <= (image@.len() - 12) / 4,
                image@.len() >= 12,
        ;
        let o = match read_u32_le(image, 8 + 4 * i) {
            Some(v) => v,
            None => return F86Run::Failed(F86Error::Io),
        };
        if o == 0 {
            break;
        }
        if o < offs[offs.len() - 1] {
            return F86Run::Panics;
        }
        offs.push(o);
        i += 1;
    }
    let last = offs[offs.len() - 1];
    if last as u64 > image.len() as u64 {
        return F86Run::Panics;
    }
    F86Run::Done(offs)
}

fn read_track(
    image: &[u8],
    p: F86DiskParams,
    offs: &Vec<u32>,
    j: usize,
    c: u16,
    h: u8,
    rpm: Option<DiskRpm>,
) -> (r: F86Run<(F86Track, u16, u8)>)
    requires
        offsets_sound(image@, offs@),
        p.heads == 1 || p.heads == 2,
        h < p.heads,
        j < offs@.len(),
    ensures
        match f86_track_step(image@, p, offs@, j as int, c as int, h as int, rpm) {
            F86Run::Done((v, c2, h2)) => r matches F86Run::Done((t, rc, rh)) && f86_track_matches(image@, t, v)
                && rc == c2 && rh == h2 && rh < p.heads,
            F86Run::Failed(e) => r matches F86Run::Failed(e2) && e2 == e,
            F86Run::Panics => r is Panics,
        },
{
    let o = offs[j] as usize;
    assert(offs@[j as int] <= offs@.last());
    let size: usize = if j < offs.len() - 1 {
        assert(offs@[j as int] <= offs@[j + 1]);
        (offs[j + 1] - offs[j]) as usize
    } else {
        image.len() - o
    };
    let hdr: usize = if p.extra_bitcell_mode { 10 } else { 6 };
    if image.len() - o < hdr {
        return F86Run::Failed(F86Error::Io);
    }
    let tf = match read_u16_le(image, o) {
        Some(v) => v,
        None => return F86Run::Failed(F86Error::Io),
    };
    let r = match f86_track_rpm(tf) {
        Some(r) => r,
        None => return F86Run::Failed(F86Error::UnsupportedFormat),
    };
    match rpm {
        Some(x) => {
            if x != r {
                return F86Run::Failed(F86Error::UnsupportedFormat);
            }
        },
        None => {},
    }
    let enc = match f86_track_encoding(tf) {
        Some(e) => e,
        None => return F86Run::Failed(F86Error::UnsupportedFormat),
    };
    let rate = match f86_track_data_rate(tf) {
        Some(x) => x,
        None => return F86Run::Failed(F86Error::UnsupportedFormat),
    };
    if size < hdr {
        return F86Run::Panics;
    }
    let dl0 = if p.has_surface_desc { (size - hdr) / 2 } else { size - hdr };
    let dl = if p.absolute_bitcell_count { dl0 } else { dl0 / 2 };
    if dl > image.len() - o - hdr {
        return F86Run::Failed(F86Error::Io);
    }
    if h + 1 == p.heads && c == u16::MAX {
        return F86Run::Panics;
    }
    let bitcell_ct = if p.absolute_bitcell_count {
        match read_u32_le(image, o + 2) {
            Some(v) => Some(v),
            None => return F86Run::Failed(F86Error::Io),
        }
    } else {
        None
    };
    let data = copy_range(image, o + hdr, dl);
    let t = F86Track { ch: DiskCh { c, h }, encoding: enc, data_rate: rate, rpm: r, bitcell_ct, data };
    if h + 1 == p.heads {
        F86Run::Done((t, c + 1, 0))
    } else {
        F86Run::Done((t, c, h + 1))
    }
}

fn read_tracks(image: &[u8], p: F86DiskParams, offs: &Vec<u32>) -> (r: F86Run<(Vec<F86Track>, u16, Option<DiskRpm>)>)
    requires
        offsets_sound(image@, offs@),
        p.heads == 1 || p.heads == 2,
    ensures
        match f86_tracks_run(image@, p, offs@, 0, 0, 0, None, Seq::empty()) {
            F86Run::Done(v) => r matches F86Run::Done((ts, c, rpm)) && c == v.c && rpm == v.rpm
                && ts@.len() == v.tracks.len()
                && forall|i: int| 0 <= i < ts@.len() ==> f86_track_matches(image@, #[trigger] ts@[i], v.tracks[i]),
            F86Run::Failed(e) => r matches F86Run::Failed(e2) && e2 == e,
            F86Run::Panics => r is Panics,
        },
{
    let ghost target = f86_tracks_run(image@, p, offs@, 0, 0, 0, None, Seq::empty());
    let ghost mut acc: Seq<F86TrackView> = Seq::empty();
    let mut tracks: Vec<F86Track> = Vec::new();
    let mut c: u16 = 0;
    let mut h: u8 = 0;
    let mut rpm: Option<DiskRpm> = None;
    let mut j: usize = 0;
    while j < offs.len()
        invariant
            offsets_sound(image@, offs@),
            p.heads == 1 || p.heads == 2,
            h < p.heads,
            j <= offs@.len(),
            target == f86_tracks_run(image@, p, offs@, 0, 0, 0, None, Seq::empty()),
            target == f86_tracks_run(image@, p, offs@, j as int, c as int, h as int, rpm, acc),
            tracks@.len() == acc.len(),
            forall|i: int| 0 <= i < acc.len() ==> f86_track_matches(image@, #[trigger] tracks@[i], acc[i]),
        decreases offs.len() - j,
    {
        let ghost step = f86_track_step(image@, p, offs@, j as int, c as int, h as int, rpm);
        let (t, c2, h2) = match read_track(image, p, offs, j, c, h, rpm) {
            F86Run::Done(x) => x,
            F86Run::Failed(e) => return F86Run::Failed(e),
            F86Run::Panics => return F86Run::Panics,
        };
        let ghost v = match step {
            F86Run::Done((v, _, _)) => v,
            _ => arbitrary(),
        };
        rpm = Some(t.rpm);
        tracks.push(t);
        proof {
            acc = acc.push(v);
        }
        c = c2;
        h = h2;
        j += 1;
    }
    F86Run::Done((tracks, c, rpm))
}

/// What loading an image ended with.
fn load_outcome(image: &[u8]) -> (r: F86Run<F86Image>)
    ensures
        match f86_load(image@) {
            F86Run::Done(v) => r matches F86Run::Done(img) && img.params == v.params
                && img.geometry.c == v.tracks.c && img.geometry.h == v.params.heads && img.rpm == v.tracks.rpm
                && img.tracks@.len() == v.tracks.tracks.len()
                && forall|i: int| 0 <= i < img.tracks@.len() ==> f86_track_matches(image@, #[trigger] img.tracks@[i], v.tracks.tracks[i]),
            F86Run::Failed(e) => r matches F86Run::Failed(e2) && e2 == e,
            F86Run::Panics => r is Panics,
        },
{
    let header = match FileHeader::read(image) {
        Some(h) => h,
        None => return F86Run::Failed(F86Error::Io),
    };
    let p = match disk_params(header.flags) {
        Ok(p) => p,
        Err(e) => return F86Run::Failed(e),
    };
    let offs = match read_offsets(image) {
        F86Run::Done(o) => o,
        F86Run::Failed(e) => return F86Run::Failed(e),
        F86Run::Panics => return F86Run::Panics,
    };
    match read_tracks(image, p, &offs) {
        F86Run::Done((tracks, c, rpm)) => F86Run::Done(F86Image { params: p, geometry: DiskCh { c, h: p.heads }, rpm, tracks }),
        F86Run::Failed(e) => F86Run::Failed(e),
        F86Run::Panics => F86Run::Panics,
    }
}

impl F86Format {
    /// Load an 86F image (see [f86_load]). Images on which reading would panic (an unsigned
    /// subtraction underflowing, or the cylinder count overflowing) are left out.
    pub fn load_image(image: &[u8]) -> (r: Result<F86Image, F86Error>)
        requires
            !(f86_load(image@) is Panics),
        ensures
            match f86_load(image@) {
                F86Run::Done(v) => r matches Ok(img) && img.params == v.params
                    && img.geometry.c == v.tracks.c && img.geometry.h == v.params.heads && img.rpm == v.tracks.rpm
                    && img.tracks@.len() == v.tracks.tracks.len()
                    && forall|i: int| 0 <= i < img.tracks@.len() ==> f86_track_matches(image@, #[trigger] img.tracks@[i], v.tracks.tracks[i]),
                F86Run::Failed(e) => r == Err::<F86Image, F86Error>(e),
                F86Run::Panics => true,
            },
    {
        match load_outcome(image) {
            F86Run::Done(img) => Ok(img),
            F86Run::Failed(e) => Err(e),
            F86Run::Panics => Err(F86Error::Io),
        }
    }

    /// Whether loading the image would panic (see [f86_load]).
    pub fn load_panics(image: &[u8]) -> (r: bool)
        ensures
            r == (f86_load(image@) is Panics),
    {
        match load_outcome(image) {
            F86Run::Panics => true,
            _ => false,
        }
    }
}

} // verus!
