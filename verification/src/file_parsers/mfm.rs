//! HxC MFM images.
use vstd::prelude::*;
use crate::file_parsers::{
    bitstream_bits, bitstream_flags, str_views, FormatCaps, CAP_COMMENT, CAP_ENCODING_FM,
    CAP_ENCODING_MFM, CAP_TRACK_ENCODING, CAP_WEAK_BITS,
};
use crate::types::{DiskCh, Platform};
use crate::file_parsers::bytes::{le16, le32, read_u16_le, read_u32_le};

verus! {

/// The parser of HxC MFM images.
pub struct MfmFormat {}

impl MfmFormat {
    /// The file extensions advertised for the format.
    pub fn extensions() -> (r: Vec<&'static str>)
        ensures
            str_views(r@) == seq!["mfm"@],
    {
        let r = vec!["mfm"];
        assert(str_views(r@) =~= seq!["mfm"@]);
        r
    }

    /// The capability flags of the format.
    pub fn capabilities() -> (r: FormatCaps)
        ensures
            r@ == 0,
    {
        FormatCaps::empty()
    }
}

/// Why an MFM image could not be read.
#[derive(Clone, Copy, Debug, PartialEq, Eq, Structural)]
pub enum MfmError {
    /// The image does not carry the `HXCMFM` signature.
    UnsupportedFormat,
    /// The track table runs past the end of the image.
    FormatParseError,
    /// A track's data runs past the end of the image.
    Io,
}

/// The file header of an MFM image.
#[derive(Clone, Copy, Debug)]
pub struct MfmFileHeader {
    pub id: [u8; 6],
    pub unused: u8,
    pub track_ct: u16,
    pub head_ct: u8,
    pub rpm: u16,
    pub bit_rate: u16,
    pub if_type: u8,
    pub track_list_offset: u32,
}

/// A standard entry of the track table.
#[derive(Clone, Copy, Debug, PartialEq, Eq, Structural)]
pub struct MfmTrackHeader {
    pub track_no: u16,
    pub side_no: u8,
    pub track_size: u32,
    pub track_offset: u32,
}

/// An advanced entry of the track table, which gives the track's rotation speed, bit rate
/// and size in bit cells.
#[derive(Clone, Copy, Debug, PartialEq, Eq, Structural)]
pub struct MfmAdvancedTrackHeader {
    pub track_no: u16,
    pub side_no: u8,
    pub rpm: u16,
    pub bit_rate: u16,
    pub track_size: u32,
    pub track_offset: u32,
}

/// An entry of the track table.
#[derive(Clone, Copy, Debug, PartialEq, Eq, Structural)]
pub enum TrackHeader {
    Standard(MfmTrackHeader),
    Advanced(MfmAdvancedTrackHeader),
}

/// The size of the file header in bytes.
pub const MFM_HEADER_SIZE: usize = 19;

/// The signature `HXCMFM`.
pub open spec fn mfm_signature() -> Seq<u8> {
    seq![0x48u8, 0x58u8, 0x43u8, 0x4Du8, 0x46u8, 0x4Du8]
}

/// Whether `h` is the little endian file header stored at the start of `s`.
pub open spec fn is_mfm_header(s: Seq<u8>, h: MfmFileHeader) -> bool {
    &&& h.id@ == s.subrange(0, 6)
    &&& h.unused == s[6]
    &&& h.track_ct == le16(s, 7) as u16
    &&& h.head_ct == s[9]
    &&& h.rpm == le16(s, 10) as u16
    &&& h.bit_rate == le16(s, 12) as u16
    &&& h.if_type == s[14]
    &&& h.track_list_offset == le32(s, 15) as u32
}

/// Whether `h` is the header of zeros used when an image is too short to hold one.
pub open spec fn is_zero_header(h: MfmFileHeader) -> bool {
    h.id@ == seq![0u8, 0u8, 0u8, 0u8, 0u8, 0u8] && h.unused == 0 && h.track_ct == 0 && h.head_ct == 0
        && h.rpm == 0 && h.bit_rate == 0 && h.if_type == 0 && h.track_list_offset == 0
}

/// Whether the track table holds advanced entries.
pub open spec fn mfm_advanced(h: MfmFileHeader) -> bool {
    h.if_type & 0x80 != 0
}

/// The entry `t` of a track table stored at `base` of `s`.
pub open spec fn mfm_entry_of(s: Seq<u8>, base: int, adv: bool, t: int) -> TrackHeader {
    if adv {
        let p = base + 15 * t;
        TrackHeader::Advanced(MfmAdvancedTrackHeader {
            track_no: le16(s, p) as u16,
            side_no: s[p + 2],
            rpm: le16(s, p + 3) as u16,
            bit_rate: le16(s, p + 5) as u16,
            track_size: le32(s, p + 7) as u32,
            track_offset: le32(s, p + 11) as u32,
        })
    } else {
        let p = base + 11 * t;
        TrackHeader::Standard(MfmTrackHeader {
            track_no: le16(s, p) as u16,
            side_no: s[p + 2],
            track_size: le32(s, p + 3) as u32,
            track_offset: le32(s, p + 7) as u32,
        })
    }
}

/// Whether a track table of `total` entries stored at `base` fits in `s`.
pub open spec fn mfm_table_fits(s: Seq<u8>, base: int, adv: bool, total: int) -> bool {
    if adv { base + 15 * total <= s.len() } else { base + 11 * total <= s.len() }
}

/// A track of an MFM image: its address, its bit rate in units of 100 bits per second... as
/// the file gives it times 100, its size in bit cells where the file gives it, and its data.
pub struct MfmTrack {
    pub ch: DiskCh,
    pub data_rate: u32,
    pub bitcell_ct: Option<usize>,
    pub data: Vec<u8>,
}

/// A track, with its data as a sequence.
pub struct MfmTrackView {
    pub ch: DiskCh,
    pub data_rate: u32,
    pub bitcell_ct: Option<usize>,
    pub data: Seq<u8>,
}

/// The track that entry `e` of an image `s` with header `h` describes: an error where its
/// data runs past the end of the image. The cylinder is the low byte of the track number.
pub open spec fn mfm_track_of(s: Seq<u8>, h: MfmFileHeader, e: TrackHeader) -> Result<MfmTrackView, MfmError> {
    let (no, side, off, len, rate, cells) = match e {
        TrackHeader::Standard(t) => (t.track_no, t.side_no, t.track_offset as int, t.track_size as int,
            (h.bit_rate * 100) as u32, None::<usize>),
        TrackHeader::Advanced(t) => (t.track_no, t.side_no, t.track_offset as int, (t.track_size + 7) / 8,
            (t.bit_rate * 100) as u32, Some(t.track_size as usize)),
    };
    if len > 0 && off + len > s.len() {
        Err(MfmError::Io)
    } else {
        Ok(MfmTrackView {
            ch: DiskCh { c: no as u8 as u16, h: side },
            data_rate: rate,
            bitcell_ct: cells,
            data: if len == 0 { Seq::empty() } else { s.subrange(off, off + len) },
        })
    }
}

/// The tracks of the entries `i` on of `entries`, after `acc`, or the first error.
pub open spec fn mfm_tracks_run(s: Seq<u8>, h: MfmFileHeader, entries: Seq<TrackHeader>, i: int,
    acc: Seq<MfmTrackView>) -> Result<Seq<MfmTrackView>, MfmError>
    decreases entries.len() - i,
{
    if i >= entries.len() || i < 0 {
        Ok(acc)
    } else {
        match mfm_track_of(s, h, entries[i]) {
            Err(e) => Err(e),
            Ok(t) => mfm_tracks_run(s, h, entries, i + 1, acc.push(t)),
        }
    }
}

/// The outcome of reading the MFM image `s` whose header (or header of zeros, for an image
/// too short to hold one) is `h`: the signature is checked only on a header that was read;
/// then the track table of tracks-per-side times heads entries, then each track's data.
pub open spec fn mfm_parse(s: Seq<u8>, h: MfmFileHeader) -> Result<Seq<MfmTrackView>, MfmError> {
    if s.len() >= MFM_HEADER_SIZE && s.subrange(0, 6) != mfm_signature() {
        Err(MfmError::UnsupportedFormat)
    } else {
        let adv = mfm_advanced(h);
        let total = h.track_ct * h.head_ct;
        let base = h.track_list_offset as int;
        if !mfm_table_fits(s, base, adv, total) {
            Err(MfmError::FormatParseError)
        } else {
            mfm_tracks_run(s, h, Seq::new(total as nat, |t: int| mfm_entry_of(s, base, adv, t)), 0, Seq::empty())
        }
    }
}

/// The contents of an MFM image.
pub struct MfmImage {
    pub header: MfmFileHeader,
    pub tracks: Vec<MfmTrack>,
}

/// The views of a list of tracks.
pub open spec fn mfm_track_views(v: Seq<MfmTrack>) -> Seq<MfmTrackView> {
    v.map_values(|t: MfmTrack| MfmTrackView { ch: t.ch, data_rate: t.data_rate, bitcell_ct: t.bitcell_ct, data: t.data@ })
}

impl MfmFileHeader {
    /// Read the file header from the start of `d`; `None` if `d` is too short.
    pub fn read(d: &[u8]) -> (r: Option<MfmFileHeader>)
        ensures
            d@.len() < MFM_HEADER_SIZE ==> r is None,
            d@.len() >= MFM_HEADER_SIZE ==> (r matches Some(h) && is_mfm_header(d@, h)),
    {
        if d.len() < MFM_HEADER_SIZE {
            return None;
        }
        let id = [d[0], d[1], d[2], d[3], d[4], d[5]];
        assert(id@ =~= d@.subrange(0, 6));
        Some(MfmFileHeader {
            id,
            unused: d[6],
            track_ct: read_u16_le(d, 7).unwrap(),
            head_ct: d[9],
            rpm: read_u16_le(d, 10).unwrap(),
            bit_rate: read_u16_le(d, 12).unwrap(),
            if_type: d[14],
            track_list_offset: read_u32_le(d, 15).unwrap(),
        })
    }
}

/// Whether a six byte identifier is `HXCMFM`.
fn is_mfm_signature(id: &[u8; 6]) -> (r: bool)
    ensures
        r == (id@ == mfm_signature()),
{
    let r = id[0] == 0x48 && id[1] == 0x58 && id[2] == 0x43 && id[3] == 0x4D && id[4] == 0x46 && id[5] == 0x4D;
    proof {
        if r {
            assert(id@ =~= mfm_signature());
        }
    }
    r
}

/// Read entry `t` of the track table stored at `base`, which fits in `image`.
fn read_entry(image: &[u8], base: usize, adv: bool, t: usize) -> (r: TrackHeader)
    requires
        if adv { base + 15 * (t + 1) <= image.len() } else { base + 11 * (t + 1) <= image.len() },
    ensures
        r == mfm_entry_of(image@, base as int, adv, t as int),
{
    if adv {
        let p = base + 15 * t;
        TrackHeader::Advanced(MfmAdvancedTrackHeader {
            track_no: read_u16_le(image, p).unwrap(),
            side_no: image[p + 2],
            rpm: read_u16_le(image, p + 3).unwrap(),
            bit_rate: read_u16_le(image, p + 5).unwrap(),
            track_size: read_u32_le(image, p + 7).unwrap(),
            track_offset: read_u32_le(image, p + 11).unwrap(),
        })
    } else {
        let p = base + 11 * t;
        TrackHeader::Standard(MfmTrackHeader {
            track_no: read_u16_le(image, p).unwrap(),
            side_no: image[p + 2],
            track_size: read_u32_le(image, p + 3).unwrap(),
            track_offset: read_u32_le(image, p + 7).unwrap(),
        })
    }
}

/// Read the track that entry `e` describes.
fn read_track(image: &[u8], h: &MfmFileHeader, e: TrackHeader) -> (r: Result<MfmTrack, MfmError>)
    ensures
        match mfm_track_of(image@, *h, e) {
            Ok(t) => r matches Ok(x) && t == (MfmTrackView { ch: x.ch, data_rate: x.data_rate, bitcell_ct: x.bitcell_ct, data: x.data@ }),
            Err(err) => r == Err::<MfmTrack, MfmError>(err),
        },
{
    let (no, side, off, len, rate, cells): (u16, u8, u32, u64, u32, Option<usize>) = match e {
        TrackHeader::Standard(t) => (t.track_no, t.side_no, t.track_offset, t.track_size as u64,
            h.bit_rate as u32 * 100, None),
        TrackHeader::Advanced(t) => (t.track_no, t.side_no, t.track_offset, (t.track_size as u64 + 7) / 8,
            t.bit_rate as u32 * 100, Some(t.track_size as usize)),
    };
    if len > 0 && (off as u64 + len > image.len() as u64) {
        return Err(MfmError::Io);
    }
    let mut data: Vec<u8> = Vec::new();
    if len > 0 {
        let start = off as usize;
        let n = len as usize;
        let mut i: usize = 0;
        while i < n
            invariant
                start + n <= image.len(),
                i <= n,
                data@ == image@.subrange(start as int, start + i),
            decreases n - i,
        {
            data.push(image[start + i]);
            i += 1;
            assert(data@ =~= image@.subrange(start as int, start + i));
        }
    }
    assert(len == 0 ==> data@ =~= Seq::<u8>::empty());
    Ok(MfmTrack { ch: DiskCh { c: no as u8 as u16, h: side }, data_rate: rate, bitcell_ct: cells, data })
}

impl MfmFormat {
    /// Whether `image` starts with an MFM file header carrying the signature `HXCMFM`.
    pub fn detect(image: &[u8]) -> (r: bool)
        ensures
            r == (image@.len() >= MFM_HEADER_SIZE && image@.subrange(0, 6) == mfm_signature()),
    {
        match MfmFileHeader::read(image) {
            Some(h) => is_mfm_signature(&h.id),
            None => false,
        }
    }

    /// Read an MFM image: the file header, the track table, then each track's data. An image
    /// too short to hold a header is read as if its header were all zeros, which gives no
    /// tracks.
    pub fn load_image(image: &[u8]) -> (r: Result<MfmImage, MfmError>)
        ensures
            image@.len() >= MFM_HEADER_SIZE ==> match r {
                Ok(img) => is_mfm_header(image@, img.header) && mfm_parse(image@, img.header) == Ok::<Seq<MfmTrackView>, MfmError>(mfm_track_views(img.tracks@)),
                Err(e) => exists|h: MfmFileHeader| is_mfm_header(image@, h) && mfm_parse(image@, h) == Err::<Seq<MfmTrackView>, MfmError>(e),
            },
            image@.len() < MFM_HEADER_SIZE ==> (r matches Ok(img) && is_zero_header(img.header) && img.tracks@.len() == 0),
    {
        let header = match MfmFileHeader::read(image) {
            Some(h) => {
                if !is_mfm_signature(&h.id) {
                    assert(is_mfm_header(image@, h) && mfm_parse(image@, h) == Err::<Seq<MfmTrackView>, MfmError>(MfmError::UnsupportedFormat));
                    return Err(MfmError::UnsupportedFormat);
                }
                h
            },
            None => {
                let h = MfmFileHeader { id: [0u8; 6], unused: 0, track_ct: 0, head_ct: 0, rpm: 0, bit_rate: 0, if_type: 0, track_list_offset: 0 };
                assert(h.id@ =~= seq![0u8, 0u8, 0u8, 0u8, 0u8, 0u8]);
                return Ok(MfmImage { header: h, tracks: Vec::new() });
            },
        };
        let adv = header.if_type & 0x80 != 0;
        assert(header.track_ct * header.head_ct <= 65535 * 255) by (nonlinear_arith)
            requires
                header.track_ct <= 65535,
                header.head_ct <= 255,
        ;
        let total: usize = header.track_ct as usize * header.head_ct as usize;
        let base = header.track_list_offset as usize;
        let need: u64 = if adv { base as u64 + 15 * total as u64 } else { base as u64 + 11 * total as u64 };
        if need > image.len() as u64 {
            assert(is_mfm_header(image@, header) && mfm_parse(image@, header) == Err::<Seq<MfmTrackView>, MfmError>(MfmError::FormatParseError));
            return Err(MfmError::FormatParseError);
        }
        let ghost entries = Seq::new(total as nat, |t: int| mfm_entry_of(image@, base as int, adv, t));
        let mut tracks: Vec<MfmTrack> = Vec::new();
        let mut t: usize = 0;
        assert(mfm_track_views(tracks@) =~= Seq::<MfmTrackView>::empty());
        while t < total
            invariant
                t <= total,
                total == header.track_ct * header.head_ct,
                base == header.track_list_offset,
                adv == mfm_advanced(header),
                is_mfm_header(image@, header),
                image@.len() >= MFM_HEADER_SIZE,
                image@.subrange(0, 6) == mfm_signature(),
                total <= 65535 * 255,
                mfm_table_fits(image@, base as int, adv, total as int),
                mfm_parse(image@, header) == mfm_tracks_run(image@, header, entries, 0, Seq::empty()),
                entries == Seq::new(total as nat, |k: int| mfm_entry_of(image@, base as int, adv, k)),
                mfm_tracks_run(image@, header, entries, 0, Seq::empty())
                    == mfm_tracks_run(image@, header, entries, t as int, mfm_track_views(tracks@)),
            decreases total - t,
        {
            let e = read_entry(image, base, adv, t);
            let tr = match read_track(image, &header, e) {
                Ok(x) => x,
                Err(err) => {
                    assert(is_mfm_header(image@, header) && mfm_parse(image@, header) == Err::<Seq<MfmTrackView>, MfmError>(err));
                    return Err(err);
                },
            };
            let ghost before = mfm_track_views(tracks@);
            let ghost tv = MfmTrackView { ch: tr.ch, data_rate: tr.data_rate, bitcell_ct: tr.bitcell_ct, data: tr.data@ };
            tracks.push(tr);
            assert(mfm_track_views(tracks@) =~= before.push(tv));
            t += 1;
        }
        Ok(MfmImage { header, tracks })
    }
}

} // verus!
