//! TransCopy images.
use vstd::prelude::*;
use crate::file_parsers::{
    bitstream_bits, bitstream_flags, str_views, FormatCaps, CAP_COMMENT, CAP_ENCODING_FM,
    CAP_ENCODING_MFM, CAP_TRACK_ENCODING, CAP_WEAK_BITS,
};
use crate::types::{DiskRpm, Platform, TrackDataEncoding, TrackDataRate};
use crate::file_parsers::ParserWriteCompatibility;
use crate::file_parsers::bytes::{be16, copy_range, le16};
use vstd::utf8::{decode_utf8, valid_utf8};

verus! {

/// The parser of TransCopy images.
pub struct TCFormat {}

impl TCFormat {
    /// The file extensions advertised for the format.
    pub fn extensions() -> (r: Vec<&'static str>)
        ensures
            str_views(r@) == seq!["tc"@],
    {
        let r = vec!["tc"];
        assert(str_views(r@) =~= seq!["tc"@]);
        r
    }

    /// The capability flags of the format.
    pub fn capabilities() -> (r: FormatCaps)
        ensures
            r@ == bitstream_bits() | (CAP_TRACK_ENCODING | CAP_ENCODING_FM | CAP_ENCODING_MFM),
    {
        bitstream_flags().union(FormatCaps::from_bits(CAP_TRACK_ENCODING | CAP_ENCODING_FM | CAP_ENCODING_MFM))
    }
}

/// The disk type used by tools that do not know it.
pub const TC_DISK_TYPE_UNKNOWN: u8 = 0xFF;
/// A high density MFM disk.
pub const TC_DISK_TYPE_MFM_HD: u8 = 0x02;
/// A double density MFM disk spinning at 360 RPM.
pub const TC_DISK_TYPE_MFM_DD_360: u8 = 0x03;
/// A double density MFM disk.
pub const TC_DISK_TYPE_MFM_DD: u8 = 0x07;
/// The value of an empty track skew entry.
pub const TC_EMPTY_TRACK_SKEW: u16 = 0x1111;
/// The value of an empty track size entry.
pub const TC_EMPTY_TRACK_DATA: u16 = 0x3333;
/// The value of an empty track flags entry.
pub const TC_EMPTY_TRACK_FLAGS: u16 = 0x4444;

/// Errors of TransCopy decoding.
#[derive(Clone, Copy, Debug, PartialEq, Eq, Structural)]
pub enum TcError {
    /// The input ended before a complete record.
    ReadError,
    /// The data is not a TransCopy image.
    UnsupportedFormat,
    /// The data is not laid out as the format says.
    FormatParseError,
    /// The image is valid but not of a kind that can be loaded.
    IncompatibleImage,
}

/// The disk information block of a TransCopy image.
#[derive(Clone, Debug)]
pub struct TCDiskInfo {
    pub disk_type: u8,
    pub starting_c: u8,
    pub ending_c: u8,
    pub num_sides: u8,
    pub cylinder_increment: u8,
    pub track_skews: Vec<u16>,
    pub track_offsets: Vec<u16>,
    pub track_sizes: Vec<u16>,
    pub track_flags: Vec<u16>,
}

/// Where a track of a TransCopy image lies and which cylinder and head it is.
#[derive(Clone, Copy, Debug, PartialEq, Eq, Structural)]
pub struct TcTrack {
    pub c: u16,
    pub h: u8,
    pub offset: u64,
    pub size: u64,
}

/// The encoding, data rate and rotation rate of a supported disk type.
pub open spec fn tc_disk_type_spec(t: u8) -> Result<(TrackDataEncoding, TrackDataRate, DiskRpm), TcError> {
    if t == TC_DISK_TYPE_UNKNOWN {
        Ok((TrackDataEncoding::Mfm, TrackDataRate::Rate250Kbps, DiskRpm::Rpm300))
    } else if t == TC_DISK_TYPE_MFM_HD {
        Ok((TrackDataEncoding::Mfm, TrackDataRate::Rate500Kbps, DiskRpm::Rpm300))
    } else if t == TC_DISK_TYPE_MFM_DD_360 {
        Ok((TrackDataEncoding::Mfm, TrackDataRate::Rate500Kbps, DiskRpm::Rpm360))
    } else if t == TC_DISK_TYPE_MFM_DD {
        Ok((TrackDataEncoding::Mfm, TrackDataRate::Rate250Kbps, DiskRpm::Rpm300))
    } else {
        Err(TcError::UnsupportedFormat)
    }
}

/// TransCopy disk types: double density MFM (0x07), and the unknown type 0xFF, are read as
/// 250 Kbps MFM at 300 RPM; high density (0x02) as 500 Kbps at 300 RPM; double density at
/// 360 RPM (0x03) as 500 Kbps at 360 RPM; every other type is refused. All are MFM, and the
/// data rate is 500 Kbps exactly for the two high rate types.
pub proof fn law_tc_disk_type(t: u8)
    ensures
        (t == 0x07 || t == 0xFF) ==> tc_disk_type_spec(t)
            == Ok::<(TrackDataEncoding, TrackDataRate, DiskRpm), TcError>((TrackDataEncoding::Mfm, TrackDataRate::Rate250Kbps, DiskRpm::Rpm300)),
        t == 0x02 ==> tc_disk_type_spec(t)
            == Ok::<(TrackDataEncoding, TrackDataRate, DiskRpm), TcError>((TrackDataEncoding::Mfm, TrackDataRate::Rate500Kbps, DiskRpm::Rpm300)),
        t == 0x03 ==> tc_disk_type_spec(t)
            == Ok::<(TrackDataEncoding, TrackDataRate, DiskRpm), TcError>((TrackDataEncoding::Mfm, TrackDataRate::Rate500Kbps, DiskRpm::Rpm360)),
        (tc_disk_type_spec(t) is Ok) <==> (t == 0x02 || t == 0x03 || t == 0x07 || t == 0xFF),
        tc_disk_type_spec(t) matches Ok((_, rate, _)) ==> ((rate == TrackDataRate::Rate500Kbps) <==> (t == 0x02 || t == 0x03)),
        tc_disk_type_spec(t) matches Ok((_, _, rpm)) ==> ((rpm == DiskRpm::Rpm360) <==> t == 0x03),
{
}

/// The encoding, data rate and rotation rate of a disk type; an unknown type is taken as a
/// double density MFM disk, which is what some tools write.
pub fn tc_parse_disk_type(disk_type: u8) -> (r: Result<(TrackDataEncoding, TrackDataRate, DiskRpm), TcError>)
    ensures
        r == tc_disk_type_spec(disk_type),
        disk_type == 0x07 || disk_type == 0xFF
            ==> r == Ok::<(TrackDataEncoding, TrackDataRate, DiskRpm), TcError>((TrackDataEncoding::Mfm, TrackDataRate::Rate250Kbps, DiskRpm::Rpm300)),
        disk_type == 0x02
            ==> r == Ok::<(TrackDataEncoding, TrackDataRate, DiskRpm), TcError>((TrackDataEncoding::Mfm, TrackDataRate::Rate500Kbps, DiskRpm::Rpm300)),
        disk_type == 0x03
            ==> r == Ok::<(TrackDataEncoding, TrackDataRate, DiskRpm), TcError>((TrackDataEncoding::Mfm, TrackDataRate::Rate500Kbps, DiskRpm::Rpm360)),
        !(disk_type == 0x02 || disk_type == 0x03 || disk_type == 0x07 || disk_type == 0xFF)
            ==> r == Err::<(TrackDataEncoding, TrackDataRate, DiskRpm), TcError>(TcError::UnsupportedFormat),
{
    proof { law_tc_disk_type(disk_type); }
    match disk_type {
        TC_DISK_TYPE_UNKNOWN => Ok((TrackDataEncoding::Mfm, TrackDataRate::Rate250Kbps, DiskRpm::Rpm300)),
        TC_DISK_TYPE_MFM_HD => Ok((TrackDataEncoding::Mfm, TrackDataRate::Rate500Kbps, DiskRpm::Rpm300)),
        TC_DISK_TYPE_MFM_DD_360 => Ok((TrackDataEncoding::Mfm, TrackDataRate::Rate500Kbps, DiskRpm::Rpm360)),
        TC_DISK_TYPE_MFM_DD => Ok((TrackDataEncoding::Mfm, TrackDataRate::Rate250Kbps, DiskRpm::Rpm300)),
        _ => Err(TcError::UnsupportedFormat),
    }
}

/// The position of the first zero byte of `s`, or its length.
pub open spec fn nul_pos(s: Seq<u8>, from: int) -> int
    decreases s.len() - from,
{
    if from >= s.len() {
        s.len() as int
    } else if s[from] == 0 {
        from
    } else {
        nul_pos(s, from + 1)
    }
}

/// The text of a comment field: its bytes up to the first zero byte, decoded as UTF-8, or
/// the empty text if they are not valid UTF-8.
pub open spec fn tc_comment_spec(raw: Seq<u8>) -> Seq<char> {
    let b = raw.take(nul_pos(raw, 0));
    if valid_utf8(b) { decode_utf8(b) } else { Seq::empty() }
}

/// Calls `std::str::from_utf8`. Claimed, as its documentation says: it succeeds exactly on
/// valid UTF-8, and then holds the characters that the bytes encode.
#[verifier::external_body]
fn utf8_to_string(bytes: &[u8]) -> (r: Option<String>)
    ensures
        r is Some <==> valid_utf8(bytes@),
        r matches Some(s) ==> s@ == decode_utf8(bytes@),
{
    match std::str::from_utf8(bytes) {
        Ok(s) => Some(s.to_string()),
        Err(_) => None,
    }
}

/// The text of one of the comment fields of the header.
pub fn tc_read_comment(raw_comment: &[u8]) -> (r: String)
    ensures
        r@ == tc_comment_spec(raw_comment@),
{
    let mut end: usize = 0;
    while end < raw_comment.len() && raw_comment[end] != 0
        invariant
            end <= raw_comment@.len(),
            nul_pos(raw_comment@, 0) == nul_pos(raw_comment@, end as int),
        decreases raw_comment.len() - end,
    {
        end += 1;
    }
    let head = vstd::slice::slice_subrange(raw_comment, 0, end);
    match utf8_to_string(head) {
        Some(s) => s,
        None => String::new(),
    }
}

/// The number of entries of `v` before the first one equal to `sentinel`.
pub open spec fn count_until(v: Seq<u16>, sentinel: u16, from: int) -> int
    decreases v.len() - from,
{
    if from >= v.len() || v[from] == sentinel {
        from
    } else {
        count_until(v, sentinel, from + 1)
    }
}

/// The number of entries of `v` before the first one equal to `sentinel`.
fn leading_count(v: &Vec<u16>, sentinel: u16) -> (r: usize)
    ensures
        r == count_until(v@, sentinel, 0),
        r <= v@.len(),
{
    let mut k: usize = 0;
    while k < v.len() && v[k] != sentinel
        invariant
            k <= v@.len(),
            count_until(v@, sentinel, 0) == count_until(v@, sentinel, k as int),
        decreases v.len() - k,
    {
        k += 1;
    }
    k
}

/// The byte size of a track rounded up to whole 256 byte pages.
pub open spec fn page_round(size: int) -> int {
    if size % 256 == 0 { size } else { (size / 256 + 1) * 256 }
}

/// Whether the tracks from `i` to `n` of `info` have a nonzero offset and size and end within
/// an image of `image_size` bytes.
pub open spec fn tc_tracks_ok(offsets: Seq<u16>, sizes: Seq<u16>, i: int, n: int, image_size: int) -> bool
    decreases n - i,
{
    if i >= n {
        true
    } else {
        &&& offsets[i] != 0 && sizes[i] != 0
        &&& offsets[i] * 256 + sizes[i] <= image_size
        &&& tc_tracks_ok(offsets, sizes, i + 1, n, image_size)
    }
}

/// The checks of the disk information block and the track layout that it describes, for an
/// image of `image_size` bytes: the result is the error that the first failing check gives.
pub open spec fn tc_layout_spec(info: TCDiskInfo, image_size: int) -> Result<(), TcError> {
    let skews = count_until(info.track_skews@, TC_EMPTY_TRACK_SKEW, 0);
    let starts = count_until(info.track_offsets@, 0, 0);
    let datas = count_until(info.track_sizes@, TC_EMPTY_TRACK_DATA, 0);
    let flags = count_until(info.track_flags@, TC_EMPTY_TRACK_FLAGS, 0);
    let n = datas - datas % 2;
    if tc_disk_type_spec(info.disk_type) is Err {
        Err(TcError::IncompatibleImage)
    } else if info.starting_c != 0 || info.cylinder_increment != 1 {
        Err(TcError::IncompatibleImage)
    } else if skews != datas || starts != datas || flags != datas {
        Err(TcError::IncompatibleImage)
    } else if !tc_tracks_ok(info.track_offsets@, info.track_sizes@, 0, n, image_size) {
        Err(TcError::IncompatibleImage)
    } else if info.num_sides != 1 && info.num_sides != 2 {
        Err(TcError::IncompatibleImage)
    } else {
        Ok(())
    }
}

impl TCFormat {
    /// Whether `image` starts with the TransCopy signature.
    pub fn detect(image: &[u8]) -> (r: bool)
        ensures
            r == (image@.len() >= 256 && image@[0] == 0x5A && image@[1] == 0xA5),
    {
        image.len() >= 256 && image[0] == 0x5A && image[1] == 0xA5
    }

    /// Writing TransCopy images is not supported.
    pub fn can_write() -> (r: ParserWriteCompatibility)
        ensures
            r == ParserWriteCompatibility::UnsupportedFormat,
    {
        ParserWriteCompatibility::UnsupportedFormat
    }

    /// Read the disk information block at `pos`: five bytes, then 256 track skews (little
    /// endian), 256 track offsets in pages (big endian), 256 track sizes and 256 track flags
    /// (little endian).
    pub fn read_disk_info(data: &[u8], pos: usize) -> (r: Option<TCDiskInfo>)
        ensures
            pos + 2053 > data@.len() ==> r is None,
            pos + 2053 <= data@.len() ==> (r matches Some(i) && i.disk_type == data@[pos as int]
                && i.starting_c == data@[pos + 1] && i.ending_c == data@[pos + 2]
                && i.num_sides == data@[pos + 3] && i.cylinder_increment == data@[pos + 4]
                && i.track_skews@.len() == 256 && i.track_offsets@.len() == 256
                && i.track_sizes@.len() == 256 && i.track_flags@.len() == 256
                && (forall|k: int| 0 <= k < 256 ==> #[trigger] i.track_skews@[k] == le16(data@, pos + 5 + 2 * k))
                && (forall|k: int| 0 <= k < 256 ==> #[trigger] i.track_offsets@[k] == be16(data@, pos + 517 + 2 * k))
                && (forall|k: int| 0 <= k < 256 ==> #[trigger] i.track_sizes@[k] == le16(data@, pos + 1029 + 2 * k))
                && (forall|k: int| 0 <= k < 256 ==> #[trigger] i.track_flags@[k] == le16(data@, pos + 1541 + 2 * k))),
    {
        if pos > data.len() || data.len() - pos < 2053 {
            return None;
        }
        let track_skews = read_u16_table(data, pos + 5, false);
        let track_offsets = read_u16_table(data, pos + 517, true);
        let track_sizes = read_u16_table(data, pos + 1029, false);
        let track_flags = read_u16_table(data, pos + 1541, false);
        Some(TCDiskInfo {
            disk_type: data[pos],
            starting_c: data[pos + 1],
            ending_c: data[pos + 2],
            num_sides: data[pos + 3],
            cylinder_increment: data[pos + 4],
            track_skews,
            track_offsets,
            track_sizes,
            track_flags,
        })
    }

    /// Check the disk information block of an image of `image_size` bytes and list its tracks:
    /// an even number of them, the cylinder of each its index divided by the number of sides,
    /// the heads taking turns.
    pub fn track_layout(info: &TCDiskInfo, image_size: u64) -> (r: Result<Vec<TcTrack>, TcError>)
        requires
            info.track_skews@.len() == 256,
            info.track_offsets@.len() == 256,
            info.track_sizes@.len() == 256,
            info.track_flags@.len() == 256,
        ensures
            match tc_layout_spec(*info, image_size as int) {
                Err(e) => r == Err::<Vec<TcTrack>, TcError>(e),
                Ok(_) => r matches Ok(t) && {
                    let datas = count_until(info.track_sizes@, TC_EMPTY_TRACK_DATA, 0);
                    &&& t@.len() == datas - datas % 2
                    &&& forall|i: int| 0 <= i < t@.len() ==> #[trigger] t@[i] == (TcTrack {
                        c: (i / info.num_sides as int) as u16,
                        h: (i % info.num_sides as int) as u8,
                        offset: (info.track_offsets@[i] * 256) as u64,
                        size: info.track_sizes@[i] as u64,
                    })
                },
            },
    {
        if tc_parse_disk_type(info.disk_type).is_err() {
            return Err(TcError::IncompatibleImage);
        }
        if info.starting_c != 0 || info.cylinder_increment != 1 {
            return Err(TcError::IncompatibleImage);
        }
        let skews = leading_count(&info.track_skews, TC_EMPTY_TRACK_SKEW);
        let starts = leading_count(&info.track_offsets, 0);
        let datas = leading_count(&info.track_sizes, TC_EMPTY_TRACK_DATA);
        let flags = leading_count(&info.track_flags, TC_EMPTY_TRACK_FLAGS);
        if skews != datas || starts != datas || flags != datas {
            return Err(TcError::IncompatibleImage);
        }
        let n = datas - datas % 2;
        let mut i: usize = 0;
        while i < n
            invariant
                n <= 256,
                i <= n,
                info.track_offsets@.len() == 256,
                info.track_sizes@.len() == 256,
                tc_disk_type_spec(info.disk_type) is Ok,
                info.starting_c == 0 && info.cylinder_increment == 1,
                skews == count_until(info.track_skews@, TC_EMPTY_TRACK_SKEW, 0),
                starts == count_until(info.track_offsets@, 0, 0),
                datas == count_until(info.track_sizes@, TC_EMPTY_TRACK_DATA, 0),
                flags == count_until(info.track_flags@, TC_EMPTY_TRACK_FLAGS, 0),
                skews == datas && starts == datas && flags == datas,
                n == datas - datas % 2,
                tc_tracks_ok(info.track_offsets@, info.track_sizes@, 0, n as int, image_size as int)
                    == tc_tracks_ok(info.track_offsets@, info.track_sizes@, i as int, n as int, image_size as int),
            decreases n - i,
        {
            let off = info.track_offsets[i] as u64 * 256;
            let size = info.track_sizes[i] as u64;
            if off == 0 || size == 0 {
                return Err(TcError::IncompatibleImage);
            }
            if off + size > image_size {
                return Err(TcError::IncompatibleImage);
            }
            i += 1;
        }
        if info.num_sides != 1 && info.num_sides != 2 {
            return Err(TcError::IncompatibleImage);
        }
        let sides = info.num_sides;
        let mut tracks: Vec<TcTrack> = Vec::new();
        let mut j: usize = 0;
        let mut head: u8 = 0;
        while j < n
            invariant
                n <= 256,
                j <= n,
                sides == info.num_sides,
                sides == 1 || sides == 2,
                info.track_offsets@.len() == 256,
                info.track_sizes@.len() == 256,
                tracks@.len() == j,
                head as int == j as int % sides as int,
                forall|i: int| 0 <= i < j ==> #[trigger] tracks@[i] == (TcTrack {
                    c: (i / sides as int) as u16,
                    h: (i % sides as int) as u8,
                    offset: (info.track_offsets@[i] * 256) as u64,
                    size: info.track_sizes@[i] as u64,
                }),
            decreases n - j,
        {
            let c = if sides == 2 { (j >> 1usize) as u16 } else { j as u16 };
            proof {
                if sides == 2 {
                    assert(j >> 1usize == j / 2) by (bit_vector);
                }
            }
            tracks.push(TcTrack { c, h: head, offset: info.track_offsets[j] as u64 * 256, size: info.track_sizes[j] as u64 });
            head += 1;
            if head == sides {
                head = 0;
            }
            j += 1;
        }
        Ok(tracks)
    }
}

/// Read a table of 256 16-bit values at `pos`, big endian if `big` is set, else little endian.
fn read_u16_table(data: &[u8], pos: usize, big: bool) -> (r: Vec<u16>)
    requires
        pos + 512 <= data@.len(),
    ensures
        r@.len() == 256,
        forall|k: int| 0 <= k < 256 ==> #[trigger] r@[k] == if big { be16(data@, pos + 2 * k) } else { le16(data@, pos + 2 * k) },
{
    let mut v: Vec<u16> = Vec::new();
    let mut k: usize = 0;
    let dlen = data.len();
    while k < 256
        invariant
            k <= 256,
            pos + 512 <= data@.len(),
            data@.len() == dlen,
            v@.len() == k,
            forall|j: int| 0 <= j < k ==> #[trigger] v@[j] == if big { be16(data@, pos + 2 * j) } else { le16(data@, pos + 2 * j) },
        decreases 256 - k,
    {
        let at = pos + 2 * k;
        let x = if big { data[at] as u16 * 256 + data[at + 1] as u16 } else { data[at] as u16 + data[at + 1] as u16 * 256 };
        v.push(x);
        k += 1;
    }
    v
}

/// Whether `i` is the disk information block stored at `pos` of `s`.
pub open spec fn tc_info_at(s: Seq<u8>, pos: int, i: TCDiskInfo) -> bool {
    &&& i.disk_type == s[pos] && i.starting_c == s[pos + 1] && i.ending_c == s[pos + 2]
    &&& i.num_sides == s[pos + 3] && i.cylinder_increment == s[pos + 4]
    &&& i.track_skews@.len() == 256 && i.track_offsets@.len() == 256
    &&& i.track_sizes@.len() == 256 && i.track_flags@.len() == 256
    &&& forall|k: int| 0 <= k < 256 ==> #[trigger] i.track_skews@[k] == le16(s, pos + 5 + 2 * k)
    &&& forall|k: int| 0 <= k < 256 ==> #[trigger] i.track_offsets@[k] == be16(s, pos + 517 + 2 * k)
    &&& forall|k: int| 0 <= k < 256 ==> #[trigger] i.track_sizes@[k] == le16(s, pos + 1029 + 2 * k)
    &&& forall|k: int| 0 <= k < 256 ==> #[trigger] i.track_flags@[k] == le16(s, pos + 1541 + 2 * k)
}

/// A track of a TransCopy image with its data.
pub struct TcTrackData {
    pub c: u16,
    pub h: u8,
    pub data: Vec<u8>,
}

/// The contents of a TransCopy image.
pub struct TcImage {
    /// The two comment lines of the header, joined by a line break.
    pub comment: String,
    pub encoding: TrackDataEncoding,
    pub data_rate: TrackDataRate,
    pub rpm: DiskRpm,
    pub num_sides: u8,
    pub tracks: Vec<TcTrackData>,
}

/// `a`, a line break, then `b`.
fn join_lines(a: &str, b: &str) -> (r: String)
    ensures
        r@ == a@ + seq!['\n'] + b@,
{
    let mut s = String::from_str(a);
    proof { reveal_strlit("\n"); }
    s.append("\n");
    s.append(b);
    s
}

impl TCFormat {
    /// Read a TransCopy image: the header with its signature and two comment lines, the disk
    /// information block after it, the checks of [TCFormat::track_layout], then the data of
    /// each track. An image whose tables list no tracks gives an image without tracks.
    pub fn load_image(image: &[u8]) -> (r: Result<TcImage, TcError>)
        ensures
            image@.len() < 256 || image@[0] != 0x5A || image@[1] != 0xA5
                ==> r == Err::<TcImage, TcError>(TcError::UnsupportedFormat),
            image@.len() >= 256 && image@[0] == 0x5A && image@[1] == 0xA5 && image@.len() < 256 + 2053
                ==> r == Err::<TcImage, TcError>(TcError::FormatParseError),
            image@.len() >= 256 + 2053 && image@[0] == 0x5A && image@[1] == 0xA5 ==> forall|info: TCDiskInfo|
                #[trigger] tc_info_at(image@, 256, info) ==> match tc_layout_spec(info, image@.len() as int) {
                    Err(e) => r == Err::<TcImage, TcError>(e),
                    Ok(_) => r matches Ok(img) && {
                        let datas = count_until(info.track_sizes@, TC_EMPTY_TRACK_DATA, 0);
                        &&& img.comment@ == tc_comment_spec(image@.subrange(2, 34)) + seq!['\n'] + tc_comment_spec(image@.subrange(34, 66))
                        &&& tc_disk_type_spec(info.disk_type) == Ok::<(TrackDataEncoding, TrackDataRate, DiskRpm), TcError>((img.encoding, img.data_rate, img.rpm))
                        &&& img.num_sides == info.num_sides
                        &&& img.tracks@.len() == datas - datas % 2
                        &&& forall|i: int| 0 <= i < img.tracks@.len() ==> {
                            let off = info.track_offsets@[i] * 256;
                            &&& #[trigger] img.tracks@[i].c == (i / info.num_sides as int) as u16
                            &&& img.tracks@[i].h == (i % info.num_sides as int) as u8
                            &&& img.tracks@[i].data@ == image@.subrange(off, off + info.track_sizes@[i])
                        }
                    },
                },
    {
        if image.len() < 256 || image[0] != 0x5A || image[1] != 0xA5 {
            return Err(TcError::UnsupportedFormat);
        }
        let c0 = tc_read_comment(vstd::slice::slice_subrange(image, 2, 34));
        let c1 = tc_read_comment(vstd::slice::slice_subrange(image, 34, 66));
        let comment = join_lines(c0.as_str(), c1.as_str());
        let info = match TCFormat::read_disk_info(image, 256) {
            Some(i) => i,
            None => return Err(TcError::FormatParseError),
        };
        assert(tc_info_at(image@, 256, info));
        let layout = match TCFormat::track_layout(&info, image.len() as u64) {
            Ok(t) => t,
            Err(e) => {
                assert forall|other: TCDiskInfo| #[trigger] tc_info_at(image@, 256, other)
                    implies tc_layout_spec(other, image@.len() as int) == Err::<(), TcError>(e) by {
                    lemma_tc_info_unique(image@, info, other);
                }
                return Err(e);
            },
        };
        let (encoding, data_rate, rpm) = match tc_parse_disk_type(info.disk_type) {
            Ok(x) => x,
            Err(e) => return Err(e),
        };
        let mut tracks: Vec<TcTrackData> = Vec::new();
        let mut i: usize = 0;
        while i < layout.len()
            invariant
                i <= layout@.len(),
                tc_info_at(image@, 256, info),
                tc_layout_spec(info, image@.len() as int) is Ok,
                tc_tracks_ok(info.track_offsets@, info.track_sizes@, 0, layout@.len() as int, image@.len() as int),
                tracks@.len() == i,
                forall|k: int| 0 <= k < layout@.len() ==> #[trigger] layout@[k] == (TcTrack {
                    c: (k / info.num_sides as int) as u16,
                    h: (k % info.num_sides as int) as u8,
                    offset: (info.track_offsets@[k] * 256) as u64,
                    size: info.track_sizes@[k] as u64,
                }),
                forall|k: int| 0 <= k < i ==> {
                    let off = info.track_offsets@[k] * 256;
                    &&& #[trigger] tracks@[k].c == (k / info.num_sides as int) as u16
                    &&& tracks@[k].h == (k % info.num_sides as int) as u8
                    &&& tracks@[k].data@ == image@.subrange(off, off + info.track_sizes@[k])
                },
            decreases layout.len() - i,
        {
            let t = layout[i];
            proof {
                lemma_tracks_ok_at(info.track_offsets@, info.track_sizes@, 0, layout@.len() as int, image@.len() as int, i as int);
            }
            let data = copy_range(image, t.offset as usize, t.size as usize);
            tracks.push(TcTrackData { c: t.c, h: t.h, data });
            i += 1;
        }
        let img = TcImage { comment, encoding, data_rate, rpm, num_sides: info.num_sides, tracks };
        assert forall|other: TCDiskInfo| #[trigger] tc_info_at(image@, 256, other) implies other.num_sides == info.num_sides
            && other.disk_type == info.disk_type && other.track_sizes@ == info.track_sizes@
            && other.track_offsets@ == info.track_offsets@ && tc_layout_spec(other, image@.len() as int) == tc_layout_spec(info, image@.len() as int) by {
            lemma_tc_info_unique(image@, info, other);
        }
        Ok(img)
    }
}

/// Two disk information blocks read from the same place agree.
proof fn lemma_tc_info_unique(s: Seq<u8>, a: TCDiskInfo, b: TCDiskInfo)
    requires
        tc_info_at(s, 256, a),
        tc_info_at(s, 256, b),
    ensures
        a.disk_type == b.disk_type && a.starting_c == b.starting_c && a.ending_c == b.ending_c,
        a.num_sides == b.num_sides && a.cylinder_increment == b.cylinder_increment,
        a.track_skews@ == b.track_skews@ && a.track_offsets@ == b.track_offsets@,
        a.track_sizes@ == b.track_sizes@ && a.track_flags@ == b.track_flags@,
        tc_layout_spec(a, s.len() as int) == tc_layout_spec(b, s.len() as int),
{
    assert(a.track_skews@ =~= b.track_skews@);
    assert(a.track_offsets@ =~= b.track_offsets@);
    assert(a.track_sizes@ =~= b.track_sizes@);
    assert(a.track_flags@ =~= b.track_flags@);
}

/// A track that passed the checks lies within the image.
proof fn lemma_tracks_ok_at(offsets: Seq<u16>, sizes: Seq<u16>, i: int, n: int, size: int, k: int)
    requires
        tc_tracks_ok(offsets, sizes, i, n, size),
        i <= k < n,
    ensures
        offsets[k] * 256 + sizes[k] <= size,
    decreases k - i,
{
    if i < k {
        lemma_tracks_ok_at(offsets, sizes, i + 1, n, size, k);
    }
}

} // verus!
