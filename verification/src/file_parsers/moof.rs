//! Applesauce MOOF images.
use vstd::prelude::*;
use crate::file_parsers::{
    bitstream_bits, bitstream_flags, str_views, FormatCaps, CAP_COMMENT, CAP_ENCODING_FM,
    CAP_ENCODING_MFM, CAP_TRACK_ENCODING, CAP_WEAK_BITS,
};
use crate::types::{DiskCh, Platform, TrackDataEncoding, TrackDensity};
use crate::file_parsers::bytes::copy_range;
use crate::file_parsers::ipf::crc::{ipf_crc_fold, ipf_crc_init, ipf_crc_u32r};
use crate::file_parsers::bytes::{le16, le32, read_u16_le, read_u32_le};

verus! {

/// The parser of Applesauce MOOF images.
pub struct MoofFormat {}

impl MoofFormat {
    /// The file extensions advertised for the format.
    pub fn extensions() -> (r: Vec<&'static str>)
        ensures
            str_views(r@) == seq!["moof"@],
    {
        let r = vec!["moof"];
        assert(str_views(r@) =~= seq!["moof"@]);
        r
    }

    /// The capability flags of the format.
    pub fn capabilities() -> (r: FormatCaps)
        ensures
            r@ == bitstream_bits() | (CAP_COMMENT | CAP_WEAK_BITS),
    {
        bitstream_flags().union(FormatCaps::from_bits(CAP_COMMENT | CAP_WEAK_BITS))
    }

    /// The platforms that the format supports.
    pub fn platforms() -> (r: Vec<Platform>)
        ensures
            r@ == seq![Platform::Macintosh],
    {
        let r = vec![Platform::Macintosh];
        assert(r@ =~= seq![Platform::Macintosh]);
        r
    }
}

/// The signature at the start of a MOOF image.
pub open spec fn moof_magic(s: Seq<u8>, i: int) -> bool {
    s[i] == 0x4D && s[i + 1] == 0x4F && s[i + 2] == 0x4F && s[i + 3] == 0x46
}

/// The largest number of tracks of a MOOF image.
pub const MAX_TRACKS: u8 = 160;

/// The kind of disk that a MOOF image holds.
#[derive(Clone, Copy, Debug, PartialEq, Eq, Structural)]
pub enum MoofDiskType {
    SsDdGcr400K,
    DsDsGcr800K,
    DsHdMfm144M,
    Twiggy,
    Unknown,
}

/// The disk type that a disk type byte names.
pub open spec fn disk_type_spec(v: u8) -> MoofDiskType {
    if v == 1 {
        MoofDiskType::SsDdGcr400K
    } else if v == 2 {
        MoofDiskType::DsDsGcr800K
    } else if v == 3 {
        MoofDiskType::DsHdMfm144M
    } else if v == 4 {
        MoofDiskType::Twiggy
    } else {
        MoofDiskType::Unknown
    }
}

/// The disk type bytes 1 to 4 name the 400K single sided GCR disk, the 800K double sided GCR
/// disk, the 1.44M high density MFM disk and the Twiggy disk, each a different type; every other
/// byte names no known type. Only the 400K disk has one side.
pub proof fn law_moof_disk_type(v: u8)
    ensures
        v == 1 ==> disk_type_spec(v) == MoofDiskType::SsDdGcr400K,
        v == 2 ==> disk_type_spec(v) == MoofDiskType::DsDsGcr800K,
        v == 3 ==> disk_type_spec(v) == MoofDiskType::DsHdMfm144M,
        v == 4 ==> disk_type_spec(v) == MoofDiskType::Twiggy,
        (disk_type_spec(v) == MoofDiskType::Unknown) <==> !(1 <= v <= 4),
        forall|w: u8| 1 <= v <= 4 && 1 <= w <= 4 && v != w ==> #[trigger] disk_type_spec(w) != disk_type_spec(v),
        (disk_type_spec(v) == MoofDiskType::SsDdGcr400K) <==> v == 1,
{
}

impl MoofDiskType {
    /// The disk type that a disk type byte names.
    pub fn from_code(v: u8) -> (r: MoofDiskType)
        ensures
            r == disk_type_spec(v),
            v == 1 ==> r == MoofDiskType::SsDdGcr400K,
            v == 2 ==> r == MoofDiskType::DsDsGcr800K,
            v == 3 ==> r == MoofDiskType::DsHdMfm144M,
            v == 4 ==> r == MoofDiskType::Twiggy,
            !(1 <= v <= 4) ==> r == MoofDiskType::Unknown,
    {
        proof { law_moof_disk_type(v); }
        match v {
            1 => MoofDiskType::SsDdGcr400K,
            2 => MoofDiskType::DsDsGcr800K,
            3 => MoofDiskType::DsHdMfm144M,
            4 => MoofDiskType::Twiggy,
            _ => MoofDiskType::Unknown,
        }
    }

    /// The number of heads of the disk type; two for an unknown type.
    pub fn heads(&self) -> (r: u8)
        ensures
            r == if *self == MoofDiskType::SsDdGcr400K { 1u8 } else { 2u8 },
    {
        match self {
            MoofDiskType::SsDdGcr400K => 1,
            MoofDiskType::DsDsGcr800K => 2,
            MoofDiskType::DsHdMfm144M => 2,
            MoofDiskType::Twiggy => 2,
            MoofDiskType::Unknown => 2,
        }
    }

    /// The track encoding of the disk type, if it is known.
    pub open spec fn spec_encoding(&self) -> Option<TrackDataEncoding> {
        match self {
            MoofDiskType::DsHdMfm144M => Some(TrackDataEncoding::Mfm),
            MoofDiskType::Unknown => None,
            _ => Some(TrackDataEncoding::Gcr),
        }
    }

    /// The track density of the disk type, if it is known.
    pub open spec fn spec_density(&self) -> Option<TrackDensity> {
        match self {
            MoofDiskType::SsDdGcr400K => Some(TrackDensity::Standard),
            MoofDiskType::DsDsGcr800K => Some(TrackDensity::Double),
            MoofDiskType::DsHdMfm144M => Some(TrackDensity::High),
            MoofDiskType::Twiggy => Some(TrackDensity::Double),
            MoofDiskType::Unknown => None,
        }
    }

    /// The track encoding of the disk type, if it is known.
    pub fn encoding(&self) -> (r: Option<TrackDataEncoding>)
        ensures
            r == self.spec_encoding(),
    {
        match self {
            MoofDiskType::SsDdGcr400K => Some(TrackDataEncoding::Gcr),
            MoofDiskType::DsDsGcr800K => Some(TrackDataEncoding::Gcr),
            MoofDiskType::DsHdMfm144M => Some(TrackDataEncoding::Mfm),
            MoofDiskType::Twiggy => Some(TrackDataEncoding::Gcr),
            MoofDiskType::Unknown => None,
        }
    }

    /// The track density of the disk type, if it is known.
    pub fn density(&self) -> (r: Option<TrackDensity>)
        ensures
            r == self.spec_density(),
    {
        match self {
            MoofDiskType::SsDdGcr400K => Some(TrackDensity::Standard),
            MoofDiskType::DsDsGcr800K => Some(TrackDensity::Double),
            MoofDiskType::DsHdMfm144M => Some(TrackDensity::High),
            MoofDiskType::Twiggy => Some(TrackDensity::Double),
            MoofDiskType::Unknown => None,
        }
    }
}

/// Errors of MOOF decoding.
#[derive(Clone, Copy, Debug, PartialEq, Eq, Structural)]
pub enum MoofError {
    /// The input ended before a complete record.
    ReadError,
    /// The header does not start with the MOOF signature.
    BadMagic,
    /// The header CRC does not match the rest of the image.
    CrcMismatch,
    /// The INFO chunk has a version other than 1.
    UnsupportedInfoVersion,
    /// The image has no INFO chunk.
    MissingInfo,
    /// The disk type of the INFO chunk is unknown.
    UnsupportedDiskType,
    /// The image lacks its track map or its track table.
    MissingTrackMap,
    /// The track map names a track past the table.
    InvalidTrackIndex,
}

/// The file header of a MOOF image.
#[derive(Clone, Copy, Debug)]
pub struct MoofHeader {
    pub magic: [u8; 4],
    pub data_check: u32,
    pub crc: u32,
}

impl MoofHeader {
    /// Read the header from the start of `data`.
    pub fn read(data: &[u8]) -> (r: Option<MoofHeader>)
        ensures
            data@.len() < 12 ==> r is None,
            data@.len() >= 12 ==> (r matches Some(h) && h.magic@ == data@.subrange(0, 4)
                && h.data_check == le32(data@, 4) && h.crc == le32(data@, 8)),
    {
        if data.len() < 12 {
            return None;
        }
        let data_check = match read_u32_le(data, 4) {
            Some(v) => v,
            None => return None,
        };
        let crc = match read_u32_le(data, 8) {
            Some(v) => v,
            None => return None,
        };
        let magic = [data[0], data[1], data[2], data[3]];
        proof { assert(magic@ =~= data@.subrange(0, 4)); }
        Some(MoofHeader { magic, data_check, crc })
    }
}

/// The header of a chunk of a MOOF image.
#[derive(Clone, Copy, Debug)]
pub struct MoofChunkHeader {
    pub id: [u8; 4],
    pub size: u32,
}

/// The INFO chunk of a MOOF image.
#[derive(Clone, Debug)]
pub struct InfoChunk {
    pub info_version: u8,
    pub disk_type: MoofDiskType,
    pub write_protected: u8,
    pub synchronized: u8,
    pub optimal_bit_timing: u8,
    /// The creator field, without its trailing padding.
    pub creator: Vec<u8>,
    pub largest_track: u16,
    pub flux_block: u16,
    pub largest_flux_track: u16,
}

impl InfoChunk {
    /// Whether the image has a flux block.
    pub fn has_flux_block(&self) -> (r: bool)
        ensures
            r == (self.flux_block > 0 && self.largest_flux_track > 0),
    {
        self.flux_block > 0 && self.largest_flux_track > 0
    }
}

/// The track map chunk: the track index of each quarter track and head.
#[derive(Clone, Debug)]
pub struct TMapChunk {
    pub track_map: Vec<u8>,
}

/// The flux map chunk: the flux track index of each quarter track and head.
#[derive(Clone, Debug)]
pub struct FluxChunk {
    pub track_map: Vec<u8>,
}

/// One entry of the track table: where a track's data starts, in bytes, how many blocks it
/// takes and how many bits it holds.
#[derive(Clone, Copy, Debug)]
pub struct Trk {
    pub starting_block: u64,
    pub block_ct: u16,
    pub bit_ct: u32,
}

/// The track table chunk.
#[derive(Clone, Debug)]
pub struct TrksChunk {
    pub trks: Vec<Trk>,
}

/// A chunk of a MOOF image.
#[derive(Clone, Debug)]
pub enum MoofChunk {
    Info(InfoChunk),
    TMap(TMapChunk),
    Trks(TrksChunk),
    Flux(FluxChunk),
    Meta(Vec<u8>),
    Unknown,
}

/// Whether a byte is ASCII white space.
pub open spec fn is_space(b: u8) -> bool {
    b == 0x20 || b == 0x09 || b == 0x0A || b == 0x0B || b == 0x0C || b == 0x0D
}

/// The length of `s` without its trailing ASCII white space, looking at its first `k` bytes.
pub open spec fn trimmed_len(s: Seq<u8>, k: int) -> int
    decreases k,
{
    if k <= 0 {
        0
    } else if is_space(s[k - 1]) {
        trimmed_len(s, k - 1)
    } else {
        k
    }
}

/// Whether a byte is ASCII white space.
fn is_space_byte(b: u8) -> (r: bool)
    ensures
        r == is_space(b),
{
    b == 0x20 || b == 0x09 || b == 0x0A || b == 0x0B || b == 0x0C || b == 0x0D
}

/// Whether the four bytes of `s` at `pos` are `a`, `b`, `c`, `d`.
pub open spec fn chunk_id(s: Seq<u8>, pos: int, a: u8, b: u8, c: u8, d: u8) -> bool {
    s[pos] == a && s[pos + 1] == b && s[pos + 2] == c && s[pos + 3] == d
}

/// The `n` bytes of `data` at `pos` without their trailing ASCII white space.
fn trimmed_bytes(data: &[u8], pos: usize, n: usize) -> (r: Vec<u8>)
    requires
        pos + n <= data@.len(),
    ensures
        r@ == data@.subrange(pos as int, pos + n).take(trimmed_len(data@.subrange(pos as int, pos + n), n as int)),
{
    let _dl = data.len();
    let s = vstd::slice::slice_subrange(data, pos, pos + n);
    let mut k: usize = n;
    while k > 0 && is_space_byte(s[k - 1])
        invariant
            k <= n,
            s@.len() == n,
            trimmed_len(s@, n as int) == trimmed_len(s@, k as int),
        decreases k,
    {
        k -= 1;
    }
    vstd::slice::slice_to_vec(vstd::slice::slice_subrange(s, 0, k))
}


/// The INFO chunk body at `p`.
pub open spec fn info_at(s: Seq<u8>, p: int, c: InfoChunk) -> bool {
    &&& c.info_version == s[p]
    &&& c.disk_type == disk_type_spec(s[p + 1])
    &&& c.write_protected == s[p + 2]
    &&& c.synchronized == s[p + 3]
    &&& c.optimal_bit_timing == s[p + 4]
    &&& c.creator@ == s.subrange(p + 5, p + 37).take(trimmed_len(s.subrange(p + 5, p + 37), 32))
    &&& c.largest_track == le16(s, p + 38)
    &&& c.flux_block == le16(s, p + 40)
    &&& c.largest_flux_track == le16(s, p + 42)
}

/// The start, in bytes, of the data of entry `j` of the track table at `t`.
pub open spec fn trk_start(s: Seq<u8>, t: int, j: int) -> int {
    le16(s, t + 8 * j) * 512
}

/// The length, in bytes, of the data of entry `j` of the track table at `t`.
pub open spec fn trk_len(s: Seq<u8>, t: int, j: int) -> int {
    le16(s, t + 8 * j + 2) * 512
}

/// The bit count of entry `j` of the track table at `t`.
pub open spec fn trk_bits(s: Seq<u8>, t: int, j: int) -> u32 {
    le32(s, t + 8 * j + 4) as u32
}

/// The track table body at `p`: 160 entries.
pub open spec fn trks_at(s: Seq<u8>, p: int, c: TrksChunk) -> bool {
    &&& c.trks@.len() == 160
    &&& forall|i: int| 0 <= i < 160 ==> (#[trigger] c.trks@[i]).starting_block == trk_start(s, p, i)
        && c.trks@[i].block_ct * 512 == trk_len(s, p, i) && c.trks@[i].bit_ct == trk_bits(s, p, i)
}

/// The number of body bytes that a chunk whose header is at `pos` needs to be read.
pub open spec fn moof_body_len(s: Seq<u8>, pos: int) -> int {
    if chunk_id(s, pos, 0x49, 0x4E, 0x46, 0x4F) {
        44
    } else if chunk_id(s, pos, 0x54, 0x4D, 0x41, 0x50) || chunk_id(s, pos, 0x46, 0x4C, 0x55, 0x58) {
        160
    } else if chunk_id(s, pos, 0x54, 0x52, 0x4B, 0x53) {
        1280
    } else if chunk_id(s, pos, 0x4D, 0x45, 0x54, 0x41) {
        le32(s, pos + 4)
    } else {
        0
    }
}

/// What reading the chunk at `pos` gives.
pub enum MoofChunkRead {
    /// The end of the image.
    End,
    /// The image ends inside the chunk.
    Fail,
    /// A chunk, and where the next one starts (its size field after its header).
    Chunk { next: int },
}

/// What reading the chunk at `pos` gives.
pub open spec fn moof_chunk_read(s: Seq<u8>, pos: int) -> MoofChunkRead {
    if pos == s.len() {
        MoofChunkRead::End
    } else if pos > s.len() || pos + 8 > s.len() || pos + 8 + moof_body_len(s, pos) > s.len() {
        MoofChunkRead::Fail
    } else if pos + 8 + le32(s, pos + 4) > usize::MAX {
        MoofChunkRead::Fail
    } else {
        MoofChunkRead::Chunk { next: pos + 8 + le32(s, pos + 4) }
    }
}

/// Whether `c` is what the chunk at `pos` holds.
pub open spec fn moof_chunk_content(s: Seq<u8>, pos: int, c: MoofChunk) -> bool {
    let body = pos + 8;
    if chunk_id(s, pos, 0x49, 0x4E, 0x46, 0x4F) {
        c matches MoofChunk::Info(i) && info_at(s, body, i)
    } else if chunk_id(s, pos, 0x54, 0x4D, 0x41, 0x50) {
        c matches MoofChunk::TMap(t) && t.track_map@ == s.subrange(body, body + 160)
    } else if chunk_id(s, pos, 0x54, 0x52, 0x4B, 0x53) {
        c matches MoofChunk::Trks(t) && trks_at(s, body, t)
    } else if chunk_id(s, pos, 0x46, 0x4C, 0x55, 0x58) {
        c matches MoofChunk::Flux(f) && f.track_map@ == s.subrange(body, body + 160)
    } else if chunk_id(s, pos, 0x4D, 0x45, 0x54, 0x41) {
        c matches MoofChunk::Meta(m) && m@ == s.subrange(body, body + le32(s, pos + 4)).take(
            trimmed_len(s.subrange(body, body + le32(s, pos + 4)), le32(s, pos + 4)),
        )
    } else {
        c is Unknown
    }
}


/// Where the chunks of an image start: after the header, whose signature and CRC (the
/// CRC-32 of the rest of the image) must match, or at the start of an image too short for
/// a header.
pub open spec fn moof_start(s: Seq<u8>) -> Result<int, MoofError> {
    if s.len() < 12 {
        Ok(0)
    } else if !moof_magic(s, 0) {
        Err(MoofError::BadMagic)
    } else if le32(s, 8) as u32 != !ipf_crc_fold(ipf_crc_init(), s.subrange(12, s.len() as int)) {
        Err(MoofError::CrcMismatch)
    } else {
        Ok(12)
    }
}

/// Where the bodies of the last chunk of each kind read start.
pub struct MoofChunksState {
    pub info: Option<int>,
    pub tmap: Option<int>,
    pub trks: Option<int>,
    pub flux: Option<int>,
}

/// Read the chunks from `pos` on, up to the end of the image or the first chunk that cannot
/// be read; an INFO chunk of a version other than 1 is an error.
pub open spec fn moof_chunks_run(s: Seq<u8>, pos: int, st: MoofChunksState) -> Result<MoofChunksState, MoofError>
    decreases s.len() - pos,
{
    match moof_chunk_read(s, pos) {
        MoofChunkRead::End => Ok(st),
        MoofChunkRead::Fail => Ok(st),
        MoofChunkRead::Chunk { next } => {
            let body = pos + 8;
            if chunk_id(s, pos, 0x49, 0x4E, 0x46, 0x4F) && s[body] != 1 {
                Err(MoofError::UnsupportedInfoVersion)
            } else {
                let st2 = if chunk_id(s, pos, 0x49, 0x4E, 0x46, 0x4F) {
                    MoofChunksState { info: Some(body), ..st }
                } else if chunk_id(s, pos, 0x54, 0x4D, 0x41, 0x50) {
                    MoofChunksState { tmap: Some(body), ..st }
                } else if chunk_id(s, pos, 0x54, 0x52, 0x4B, 0x53) {
                    MoofChunksState { trks: Some(body), ..st }
                } else if chunk_id(s, pos, 0x46, 0x4C, 0x55, 0x58) {
                    MoofChunksState { flux: Some(body), ..st }
                } else {
                    st
                };
                if next <= pos || next > s.len() {
                    Ok(st2)
                } else {
                    moof_chunks_run(s, next, st2)
                }
            }
        },
    }
}

/// What a track of the image holds.
pub enum MoofTrackKind {
    /// Bit stream data: where it is in the image, and its bit count.
    Bitstream { start: int, len: int, bit_ct: u32 },
    /// Flux data: where it is in the image.
    Flux { start: int, len: int },
    /// Nothing: an empty track.
    Empty,
}

/// A track of the image: its cylinder and head, and what it holds.
pub struct MoofTrackPlan {
    pub c: int,
    pub h: int,
    pub kind: MoofTrackKind,
}

/// Walk the track map at `tm` from entry `k` of the disk's tracks (each map entry pair a
/// cylinder, of which the first `heads` are used; the `k`-th track being cylinder
/// `k / heads`, head `k % heads`): an entry names a track of the table at `tr` (an index
/// past the table is an error), whose data must lie within the image; an entry 0xFF names
/// the flux track of the flux map, if there is one, or an empty track where the flux map
/// names none; without a flux map it adds nothing.
pub open spec fn moof_walk(
    s: Seq<u8>,
    tm: int,
    tr: int,
    flux: Option<int>,
    heads: int,
    k: int,
    acc: Seq<MoofTrackPlan>,
) -> Result<Seq<MoofTrackPlan>, MoofError>
    decreases 80 * heads - k,
{
    if k < 0 || heads < 1 || k >= 80 * heads {
        Ok(acc)
    } else {
        let e = 2 * (k / heads) + k % heads;
        let idx = s[tm + e];
        let c = k / heads;
        let h = k % heads;
        if idx != 0xFF {
            if idx >= 160 {
                Err(MoofError::InvalidTrackIndex)
            } else if trk_start(s, tr, idx as int) + trk_len(s, tr, idx as int) > s.len() {
                Err(MoofError::ReadError)
            } else {
                moof_walk(s, tm, tr, flux, heads, k + 1, acc.push(MoofTrackPlan {
                    c,
                    h,
                    kind: MoofTrackKind::Bitstream {
                        start: trk_start(s, tr, idx as int),
                        len: trk_len(s, tr, idx as int),
                        bit_ct: trk_bits(s, tr, idx as int),
                    },
                }))
            }
        } else {
            match flux {
                None => moof_walk(s, tm, tr, flux, heads, k + 1, acc),
                Some(f) => {
                    let fidx = s[f + e];
                    if fidx < 160 {
                        if trk_start(s, tr, fidx as int) + trk_len(s, tr, fidx as int) > s.len() {
                            Err(MoofError::ReadError)
                        } else {
                            moof_walk(s, tm, tr, flux, heads, k + 1, acc.push(MoofTrackPlan {
                                c,
                                h,
                                kind: MoofTrackKind::Flux {
                                    start: trk_start(s, tr, fidx as int),
                                    len: trk_len(s, tr, fidx as int),
                                },
                            }))
                        }
                    } else {
                        moof_walk(s, tm, tr, flux, heads, k + 1, acc.push(MoofTrackPlan { c, h, kind: MoofTrackKind::Empty }))
                    }
                },
            }
        }
    }
}

/// The number of heads of a disk type.
pub open spec fn heads_spec(t: MoofDiskType) -> int {
    if t == MoofDiskType::SsDdGcr400K { 1 } else { 2 }
}

/// What loading an image gives: where its INFO body is, and its tracks.
pub struct MoofLoadView {
    pub info: int,
    pub tracks: Seq<MoofTrackPlan>,
}

/// Load a MOOF image: the header check, the chunks, then the INFO chunk (which must name a
/// known disk type) and the track map and table (which must both be there), walked for the
/// tracks.
pub open spec fn moof_load(s: Seq<u8>) -> Result<MoofLoadView, MoofError> {
    match moof_start(s) {
        Err(e) => Err(e),
        Ok(p) => match moof_chunks_run(s, p, MoofChunksState { info: None, tmap: None, trks: None, flux: None }) {
            Err(e) => Err(e),
            Ok(st) => match st.info {
                None => Err(MoofError::MissingInfo),
                Some(i) => {
                    let dt = disk_type_spec(s[i + 1]);
                    if dt == MoofDiskType::Unknown {
                        Err(MoofError::UnsupportedDiskType)
                    } else {
                        match (st.tmap, st.trks) {
                            (Some(tm), Some(tr)) => match moof_walk(s, tm, tr, st.flux, heads_spec(dt), 0, Seq::empty()) {
                                Err(e) => Err(e),
                                Ok(tracks) => Ok(MoofLoadView { info: i, tracks }),
                            },
                            _ => Err(MoofError::MissingTrackMap),
                        }
                    }
                },
            },
        },
    }
}

/// What a loaded track holds.
pub enum MoofTrackData {
    /// Bit stream data and its bit count.
    Bitstream { data: Vec<u8>, bit_ct: u32 },
    /// Flux data, in the Applesauce flux encoding.
    Flux { data: Vec<u8> },
    /// Nothing.
    Empty,
}

/// A loaded track.
pub struct MoofTrack {
    pub ch: DiskCh,
    pub data: MoofTrackData,
}

/// Whether `t` is the track that `p` describes, its data taken from `s`.
pub open spec fn moof_track_matches(s: Seq<u8>, t: MoofTrack, p: MoofTrackPlan) -> bool {
    &&& t.ch.c == p.c
    &&& t.ch.h == p.h
    &&& match p.kind {
        MoofTrackKind::Bitstream { start, len, bit_ct } => t.data matches MoofTrackData::Bitstream { data, bit_ct: b }
            && data@ == s.subrange(start, start + len) && b == bit_ct,
        MoofTrackKind::Flux { start, len } => t.data matches MoofTrackData::Flux { data } && data@ == s.subrange(start, start + len),
        MoofTrackKind::Empty => t.data is Empty,
    }
}

/// A loaded MOOF image.
pub struct MoofImage {
    pub info: InfoChunk,
    pub encoding: TrackDataEncoding,
    pub density: TrackDensity,
    /// The cylinders (the cylinder after the last track walked) and heads of the disk.
    pub geometry: DiskCh,
    pub write_protect: bool,
    /// Whether the image holds flux tracks beside bit stream ones.
    pub multires: bool,
    pub tracks: Vec<MoofTrack>,
}

impl MoofFormat {
    /// Whether `image` starts with a MOOF header.
    pub fn detect(image: &[u8]) -> (r: bool)
        ensures
            r == (image@.len() >= 12 && moof_magic(image@, 0)),
    {
        match MoofHeader::read(image) {
            Some(h) => h.magic[0] == 0x4D && h.magic[1] == 0x4F && h.magic[2] == 0x4F && h.magic[3] == 0x46,
            None => false,
        }
    }

    /// Read the INFO chunk body at `pos`.
    pub fn read_info(data: &[u8], pos: usize) -> (r: Option<InfoChunk>)
        ensures
            pos + 44 > data@.len() ==> r is None,
            r matches Some(c) ==> info_at(data@, pos as int, c),
            pos + 44 <= data@.len() ==> (r matches Some(c) && c.info_version == data@[pos as int]
                && c.disk_type == disk_type_spec(data@[pos + 1]) && c.write_protected == data@[pos + 2]
                && c.synchronized == data@[pos + 3] && c.optimal_bit_timing == data@[pos + 4]
                && c.creator@ == data@.subrange(pos + 5, pos + 37).take(trimmed_len(data@.subrange(pos + 5, pos + 37), 32))
                && c.largest_track == le16(data@, pos + 38) && c.flux_block == le16(data@, pos + 40)
                && c.largest_flux_track == le16(data@, pos + 42)),
    {
        if pos > data.len() || data.len() - pos < 44 {
            return None;
        }
        let largest_track = match read_u16_le(data, pos + 38) { Some(v) => v, None => return None };
        let flux_block = match read_u16_le(data, pos + 40) { Some(v) => v, None => return None };
        let largest_flux_track = match read_u16_le(data, pos + 42) { Some(v) => v, None => return None };
        Some(InfoChunk {
            info_version: data[pos],
            disk_type: MoofDiskType::from_code(data[pos + 1]),
            write_protected: data[pos + 2],
            synchronized: data[pos + 3],
            optimal_bit_timing: data[pos + 4],
            creator: trimmed_bytes(data, pos + 5, 32),
            largest_track,
            flux_block,
            largest_flux_track,
        })
    }

    /// Read a table of 160 track entries at `pos`.
    pub fn read_trks(data: &[u8], pos: usize) -> (r: Option<TrksChunk>)
        ensures
            pos + 1280 > data@.len() ==> r is None,
            pos + 1280 <= data@.len() ==> (r matches Some(c) && c.trks@.len() == 160
                && forall|i: int| 0 <= i < 160 ==> (#[trigger] c.trks@[i]).starting_block == le16(data@, pos + 8 * i) * 512
                    && c.trks@[i].block_ct == le16(data@, pos + 8 * i + 2)
                    && c.trks@[i].bit_ct == le32(data@, pos + 8 * i + 4)),
            r matches Some(c) ==> trks_at(data@, pos as int, c),
    {
        if pos > data.len() || data.len() - pos < 1280 {
            return None;
        }
        let mut trks: Vec<Trk> = Vec::new();
        let mut i: usize = 0;
        let dlen = data.len();
        while i < 160
            invariant
                i <= 160,
                pos + 1280 <= data@.len(),
                data@.len() == dlen,
                trks@.len() == i,
                forall|j: int| 0 <= j < i ==> (#[trigger] trks@[j]).starting_block == le16(data@, pos + 8 * j) * 512
                    && trks@[j].block_ct == le16(data@, pos + 8 * j + 2)
                    && trks@[j].bit_ct == le32(data@, pos + 8 * j + 4),
            decreases 160 - i,
        {
            let at = pos + 8 * i;
            let sb = match read_u16_le(data, at) { Some(v) => v, None => return None };
            let bc = match read_u16_le(data, at + 2) { Some(v) => v, None => return None };
            let bits = match read_u32_le(data, at + 4) { Some(v) => v, None => return None };
            trks.push(Trk { starting_block: sb as u64 * 512, block_ct: bc, bit_ct: bits });
            i += 1;
        }
        Some(TrksChunk { trks })
    }

    /// Read the chunk at `pos` of `data` (see [moof_chunk_read] and [moof_chunk_content]):
    /// `None` at the end of the data, else the chunk and the position of the next one, which
    /// its size field gives.
    pub fn read_chunk(data: &[u8], pos: usize) -> (r: Result<Option<(MoofChunk, usize)>, MoofError>)
        ensures
            match moof_chunk_read(data@, pos as int) {
                MoofChunkRead::End => r == Ok::<Option<(MoofChunk, usize)>, MoofError>(None),
                MoofChunkRead::Fail => r == Err::<Option<(MoofChunk, usize)>, MoofError>(MoofError::ReadError),
                MoofChunkRead::Chunk { next } => r matches Ok(Some((c, n))) && n == next
                    && moof_chunk_content(data@, pos as int, c),
            },
    {
        if pos == data.len() {
            return Ok(None);
        }
        if pos > data.len() || data.len() - pos < 8 {
            return Err(MoofError::ReadError);
        }
        let size = match read_u32_le(data, pos + 4) { Some(v) => v, None => return Err(MoofError::ReadError) };
        let body = pos + 8;
        let (a, b, c, d) = (data[pos], data[pos + 1], data[pos + 2], data[pos + 3]);
        let chunk = if a == 0x49 && b == 0x4E && c == 0x46 && d == 0x4F {
            match Self::read_info(data, body) {
                Some(info) => MoofChunk::Info(info),
                None => return Err(MoofError::ReadError),
            }
        } else if a == 0x54 && b == 0x4D && c == 0x41 && d == 0x50 {
            if data.len() - body < 160 {
                return Err(MoofError::ReadError);
            }
            MoofChunk::TMap(TMapChunk { track_map: vstd::slice::slice_to_vec(vstd::slice::slice_subrange(data, body, body + 160)) })
        } else if a == 0x54 && b == 0x52 && c == 0x4B && d == 0x53 {
            match Self::read_trks(data, body) {
                Some(t) => MoofChunk::Trks(t),
                None => return Err(MoofError::ReadError),
            }
        } else if a == 0x46 && b == 0x4C && c == 0x55 && d == 0x58 {
            if data.len() - body < 160 {
                return Err(MoofError::ReadError);
            }
            MoofChunk::Flux(FluxChunk { track_map: vstd::slice::slice_to_vec(vstd::slice::slice_subrange(data, body, body + 160)) })
        } else if a == 0x4D && b == 0x45 && c == 0x54 && d == 0x41 {
            if ((data.len() - body) as u64) < size as u64 {
                return Err(MoofError::ReadError);
            }
            MoofChunk::Meta(trimmed_bytes(data, body, size as usize))
        } else {
            MoofChunk::Unknown
        };
        if (usize::MAX - body) < size as usize {
            return Err(MoofError::ReadError);
        }
        Ok(Some((chunk, body + size as usize)))
    }
}


fn moof_start_exec(image: &[u8]) -> (r: Result<usize, MoofError>)
    ensures
        match moof_start(image@) {
            Ok(p) => r == Ok::<usize, MoofError>(p as usize) && p <= image@.len(),
            Err(e) => r == Err::<usize, MoofError>(e),
        },
{
    let header = match MoofHeader::read(image) {
        Some(h) => h,
        None => return Ok(0),
    };
    if !(header.magic[0] == 0x4D && header.magic[1] == 0x4F && header.magic[2] == 0x4F && header.magic[3] == 0x46) {
        return Err(MoofError::BadMagic);
    }
    let rest = vstd::slice::slice_subrange(image, 12, image.len());
    let crc = ipf_crc_u32r(rest, None);
    if header.crc != crc {
        return Err(MoofError::CrcMismatch);
    }
    Ok(12)
}

/// The chunks read, with the body positions they were read at.
pub open spec fn chunks_match(
    s: Seq<u8>,
    st: MoofChunksState,
    info: Option<InfoChunk>,
    tmap: Option<TMapChunk>,
    trks: Option<TrksChunk>,
    flux: Option<FluxChunk>,
) -> bool {
    &&& match st.info {
        Some(p) => info matches Some(i) && info_at(s, p, i) && 0 <= p && p + 44 <= s.len(),
        None => info is None,
    }
    &&& match st.tmap {
        Some(p) => tmap matches Some(t) && t.track_map@ == s.subrange(p, p + 160) && 0 <= p && p + 160 <= s.len(),
        None => tmap is None,
    }
    &&& match st.trks {
        Some(p) => trks matches Some(t) && trks_at(s, p, t) && 0 <= p && p + 1280 <= s.len(),
        None => trks is None,
    }
    &&& match st.flux {
        Some(p) => flux matches Some(f) && f.track_map@ == s.subrange(p, p + 160) && 0 <= p && p + 160 <= s.len(),
        None => flux is None,
    }
}

/// The chunks of an image that are kept: the last of each kind.
pub struct MoofChunks {
    pub info: Option<InfoChunk>,
    pub tmap: Option<TMapChunk>,
    pub trks: Option<TrksChunk>,
    pub flux: Option<FluxChunk>,
}

fn read_chunks(image: &[u8], start: usize) -> (r: Result<MoofChunks, MoofError>)
    requires
        start <= image.len(),
    ensures
        match moof_chunks_run(image@, start as int, MoofChunksState { info: None, tmap: None, trks: None, flux: None }) {
            Ok(st) => r matches Ok(c) && chunks_match(image@, st, c.info, c.tmap, c.trks, c.flux),
            Err(e) => r matches Err(e2) && e2 == e,
        },
{
    let mut chunks = MoofChunks { info: None, tmap: None, trks: None, flux: None };
    let mut pos = start;
    let ghost mut st = MoofChunksState { info: None, tmap: None, trks: None, flux: None };
    let ghost target = moof_chunks_run(image@, start as int, st);
    loop
        invariant
            pos <= image.len(),
            target == moof_chunks_run(image@, start as int, MoofChunksState { info: None, tmap: None, trks: None, flux: None }),
            target == moof_chunks_run(image@, pos as int, st),
            chunks_match(image@, st, chunks.info, chunks.tmap, chunks.trks, chunks.flux),
        decreases image.len() - pos,
    {
        let (chunk, next) = match MoofFormat::read_chunk(image, pos) {
            Ok(Some(x)) => x,
            Ok(None) => return Ok(chunks),
            Err(_) => return Ok(chunks),
        };
        let body = pos + 8;
        match chunk {
            MoofChunk::Info(info) => {
                if info.info_version != 1 {
                    return Err(MoofError::UnsupportedInfoVersion);
                }
                chunks.info = Some(info);
                proof {
                    st = MoofChunksState { info: Some(body as int), ..st };
                }
            },
            MoofChunk::TMap(t) => {
                chunks.tmap = Some(t);
                proof {
                    st = MoofChunksState { tmap: Some(body as int), ..st };
                }
            },
            MoofChunk::Trks(t) => {
                chunks.trks = Some(t);
                proof {
                    st = MoofChunksState { trks: Some(body as int), ..st };
                }
            },
            MoofChunk::Flux(f) => {
                chunks.flux = Some(f);
                proof {
                    st = MoofChunksState { flux: Some(body as int), ..st };
                }
            },
            _ => {},
        }
        if next > image.len() {
            return Ok(chunks);
        }
        pos = next;
    }
}


fn read_track_data(image: &[u8], trk: &Trk) -> (r: Option<Vec<u8>>)
    ensures
        trk.starting_block + trk.block_ct * 512 > image@.len() ==> r is None,
        trk.starting_block + trk.block_ct * 512 <= image@.len() ==> (r matches Some(v)
            && v@ == image@.subrange(trk.starting_block as int, trk.starting_block + trk.block_ct * 512)),
{
    let start = trk.starting_block;
    let len = trk.block_ct as u64 * 512;
    if start > image.len() as u64 || len > image.len() as u64 - start {
        return None;
    }
    Some(copy_range(image, start as usize, len as usize))
}

fn walk_tracks(
    image: &[u8],
    tmap: &TMapChunk,
    trks: &TrksChunk,
    flux: &Option<FluxChunk>,
    heads: u8,
    Ghost(tm): Ghost<int>,
    Ghost(tr): Ghost<int>,
    Ghost(fl): Ghost<Option<int>>,
) -> (r: Result<Vec<MoofTrack>, MoofError>)
    requires
        heads == 1 || heads == 2,
        0 <= tm && tm + 160 <= image@.len(),
        tmap.track_map@ == image@.subrange(tm, tm + 160),
        0 <= tr && tr + 1280 <= image@.len(),
        trks_at(image@, tr, *trks),
        match fl {
            Some(p) => flux matches Some(f) && f.track_map@ == image@.subrange(p, p + 160) && 0 <= p && p + 160 <= image@.len(),
            None => flux is None,
        },
    ensures
        match moof_walk(image@, tm, tr, fl, heads as int, 0, Seq::empty()) {
            Ok(plans) => r matches Ok(v) && v@.len() == plans.len()
                && forall|i: int| 0 <= i < plans.len() ==> moof_track_matches(image@, #[trigger] v@[i], plans[i]),
            Err(e) => r matches Err(e2) && e2 == e,
        },
{
    let ghost target = moof_walk(image@, tm, tr, fl, heads as int, 0, Seq::empty());
    let ghost mut acc: Seq<MoofTrackPlan> = Seq::empty();
    let mut tracks: Vec<MoofTrack> = Vec::new();
    let n: usize = 80 * heads as usize;
    let hd = heads as usize;
    let mut k: usize = 0;
    while k < n
        invariant
            heads == 1 || heads == 2,
            hd == heads as usize,
            n == 80 * hd,
            k <= n,
            0 <= tm && tm + 160 <= image@.len(),
            tmap.track_map@ == image@.subrange(tm, tm + 160),
            0 <= tr && tr + 1280 <= image@.len(),
            trks_at(image@, tr, *trks),
            match fl {
                Some(p) => flux matches Some(f) && f.track_map@ == image@.subrange(p, p + 160) && 0 <= p && p + 160 <= image@.len(),
                None => flux is None,
            },
            target == moof_walk(image@, tm, tr, fl, heads as int, 0, Seq::empty()),
            target == moof_walk(image@, tm, tr, fl, heads as int, k as int, acc),
            tracks@.len() == acc.len(),
            forall|i: int| 0 <= i < acc.len() ==> moof_track_matches(image@, #[trigger] tracks@[i], acc[i]),
        decreases n - k,
    {
        let e = 2 * (k / hd) + k % hd;
        assert(e < 160) by (nonlinear_arith)
            requires
                e == 2 * (k / hd) + k % hd,
                k < 80 * hd,
                hd == 1 || hd == 2,
        ;
        let idx = tmap.track_map[e];
        assert(idx == image@[tm + e]);
        let ch = DiskCh { c: (k / hd) as u16, h: (k % hd) as u8 };
        let ghost c = k / hd;
        let ghost h = k % hd;
        if idx != 0xFF {
            if idx >= MAX_TRACKS {
                return Err(MoofError::InvalidTrackIndex);
            }
            let trk = &trks.trks[idx as usize];
            assert(trk.starting_block == trk_start(image@, tr, idx as int));
            let data = match read_track_data(image, trk) {
                Some(d) => d,
                None => return Err(MoofError::ReadError),
            };
            let ghost plan = MoofTrackPlan {
                c: c as int,
                h: h as int,
                kind: MoofTrackKind::Bitstream {
                    start: trk_start(image@, tr, idx as int),
                    len: trk_len(image@, tr, idx as int),
                    bit_ct: trk_bits(image@, tr, idx as int),
                },
            };
            tracks.push(MoofTrack { ch, data: MoofTrackData::Bitstream { data, bit_ct: trk.bit_ct } });
            proof {
                acc = acc.push(plan);
            }
        } else {
            match flux {
                None => {},
                Some(f) => {
                    let fidx = f.track_map[e];
                    assert(fidx == image@[fl.unwrap() + e]);
                    if fidx < MAX_TRACKS {
                        let trk = &trks.trks[fidx as usize];
                        assert(trk.starting_block == trk_start(image@, tr, fidx as int));
                        let data = match read_track_data(image, trk) {
                            Some(d) => d,
                            None => return Err(MoofError::ReadError),
                        };
                        let ghost plan = MoofTrackPlan {
                            c: c as int,
                            h: h as int,
                            kind: MoofTrackKind::Flux {
                                start: trk_start(image@, tr, fidx as int),
                                len: trk_len(image@, tr, fidx as int),
                            },
                        };
                        tracks.push(MoofTrack { ch, data: MoofTrackData::Flux { data } });
                        proof {
                            acc = acc.push(plan);
                        }
                    } else {
                        let ghost plan = MoofTrackPlan { c: c as int, h: h as int, kind: MoofTrackKind::Empty };
                        tracks.push(MoofTrack { ch, data: MoofTrackData::Empty });
                        proof {
                            acc = acc.push(plan);
                        }
                    }
                },
            }
        }
        k += 1;
    }
    Ok(tracks)
}

impl MoofFormat {
    /// Load a MOOF image (see [moof_load]): its INFO chunk, what the disk type gives (the
    /// encoding, density and heads; eighty cylinders), the write protection, whether flux
    /// tracks are present, and the tracks in the order of the track map.
    pub fn load_image(image: &[u8]) -> (r: Result<MoofImage, MoofError>)
        ensures
            match moof_load(image@) {
                Ok(v) => r matches Ok(img) && info_at(image@, v.info, img.info)
                    && Some(img.encoding) == img.info.disk_type.spec_encoding()
                    && Some(img.density) == img.info.disk_type.spec_density()
                    && img.geometry.c == 80 && img.geometry.h == heads_spec(img.info.disk_type)
                    && img.write_protect == (img.info.write_protected != 0)
                    && img.multires == (img.info.flux_block > 0 && img.info.largest_flux_track > 0)
                    && img.tracks@.len() == v.tracks.len()
                    && forall|i: int| 0 <= i < v.tracks.len() ==> moof_track_matches(image@, #[trigger] img.tracks@[i], v.tracks[i]),
                Err(e) => r == Err::<MoofImage, MoofError>(e),
            },
    {
        let start = match moof_start_exec(image) {
            Ok(p) => p,
            Err(e) => return Err(e),
        };
        let chunks = match read_chunks(image, start) {
            Ok(c) => c,
            Err(e) => return Err(e),
        };
        let ghost st = match moof_chunks_run(image@, start as int, MoofChunksState { info: None, tmap: None, trks: None, flux: None }) {
            Ok(st) => st,
            Err(_) => MoofChunksState { info: None, tmap: None, trks: None, flux: None },
        };
        let info = match chunks.info {
            Some(i) => i,
            None => return Err(MoofError::MissingInfo),
        };
        let encoding = match info.disk_type.encoding() {
            Some(e) => e,
            None => return Err(MoofError::UnsupportedDiskType),
        };
        let density = match info.disk_type.density() {
            Some(d) => d,
            None => return Err(MoofError::UnsupportedDiskType),
        };
        let heads = info.disk_type.heads();
        let (tmap, trks) = match (chunks.tmap, chunks.trks) {
            (Some(t), Some(k)) => (t, k),
            _ => return Err(MoofError::MissingTrackMap),
        };
        let tracks = match walk_tracks(
            image,
            &tmap,
            &trks,
            &chunks.flux,
            heads,
            Ghost(st.tmap.unwrap()),
            Ghost(st.trks.unwrap()),
            Ghost(st.flux),
        ) {
            Ok(t) => t,
            Err(e) => return Err(e),
        };
        let multires = info.has_flux_block();
        let write_protect = info.write_protected != 0;
        Ok(MoofImage {
            info,
            encoding,
            density,
            geometry: DiskCh { c: 80, h: heads },
            write_protect,
            multires,
            tracks,
        })
    }
}


/// The flux transitions of Applesauce flux data, in ticks of 125 ns, and the ticks pending
/// after the last one: each byte is the ticks since the last transition, a byte 255 adding
/// 255 ticks to the next transition and a byte 0 adding nothing.
pub open spec fn as_flux_ticks(buf: Seq<u8>) -> (Seq<u64>, int)
    decreases buf.len(),
{
    if buf.len() == 0 {
        (Seq::empty(), 0)
    } else {
        let (fts, t) = as_flux_ticks(buf.drop_last());
        let b = buf.last();
        if b == 255 {
            (fts, t + 255)
        } else if b > 0 {
            (fts.push((t + b) as u64), 0)
        } else {
            (fts, t)
        }
    }
}

proof fn lemma_as_flux_pending(buf: Seq<u8>)
    ensures
        0 <= as_flux_ticks(buf).1 <= 255 * buf.len(),
    decreases buf.len(),
{
    if buf.len() > 0 {
        lemma_as_flux_pending(buf.drop_last());
    }
}

/// Decode Applesauce flux data into the tick counts of its transitions (see [as_flux_ticks]).
/// The data must be short enough for its tick total to fit in 64 bits.
pub fn decode_as_flux_ticks(buf: &[u8]) -> (r: Vec<u64>)
    requires
        255 * buf@.len() + 255 <= u64::MAX,
    ensures
        r@ == as_flux_ticks(buf@).0,
{
    let mut fts: Vec<u64> = Vec::new();
    let mut ticks: u64 = 0;
    let mut i: usize = 0;
    while i < buf.len()
        invariant
            i <= buf@.len(),
            255 * buf@.len() + 255 <= u64::MAX,
            (fts@, ticks as int) == as_flux_ticks(buf@.take(i as int)),
        decreases buf.len() - i,
    {
        proof {
            assert(buf@.take(i + 1).drop_last() =~= buf@.take(i as int));
            lemma_as_flux_pending(buf@.take(i as int));
        }
        let b = buf[i];
        if b == 255 {
            ticks = ticks + 255;
        } else if b > 0 {
            fts.push(ticks + b as u64);
            ticks = 0;
        }
        i += 1;
    }
    assert(buf@.take(buf@.len() as int) =~= buf@);
    fts
}

} // verus!
