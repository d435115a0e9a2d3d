//! PCE bitstream images (PRI): a chunked format that stores the bitstream of each track,
//! with optional weak bit masks and clock changes.
use vstd::prelude::*;
use vstd::string::StringSliceAdditionalSpecFns;
use crate::file_parsers::bytes::{be16, be32};
use crate::file_parsers::pce::{
    be_bytes, id_is, lemma_pce_chunk_round_trip, pce_chunk_bytes, pce_chunk_error, pce_crc,
    pce_crc_spec, read_pce_chunk, write_pce_chunk, PceError,
};
use crate::file_parsers::{
    bitstream_bits, bitstream_flags, str_views, FormatCaps, ParserWriteCompatibility, CAP_COMMENT,
    CAP_WEAK_BITS,
};
use crate::types::{DiskCh, DiskDataResolution, Platform};

verus! {

/// The largest chunk data accepted, 1 MiB.
pub const MAXIMUM_CHUNK_SIZE: usize = 0x100000;

/// The header of a chunk.
pub struct PriChunkHeader {
    pub id: [u8; 4],
    pub size: u32,
}

/// The END chunk that closes a file.
pub struct PriChunkFooter {
    pub id: [u8; 4],
    pub size: u32,
    pub footer: u32,
}

impl Default for PriChunkFooter {
    /// The END chunk, with no data and the CRC of its header.
    fn default() -> (r: Self)
        ensures
            r.id@ == seq![0x45u8, 0x4Eu8, 0x44u8, 0x20u8],
            r.size == 0,
            r.footer == 0x3d64af78,
    {
        let r = PriChunkFooter { id: [0x45, 0x4E, 0x44, 0x20], size: 0, footer: 0x3d64af78 };
        assert(r.id@ =~= seq![0x45u8, 0x4Eu8, 0x44u8, 0x20u8]);
        r
    }
}

/// The data of the file header chunk.
#[derive(Clone, Copy, Debug, PartialEq, Eq, Structural)]
pub struct PriHeader {
    pub version: u16,
    pub reserved: u16,
}

/// The CRC that ends a chunk.
pub struct PriChunkCrc {
    pub crc: u32,
}

/// The data of a track header chunk.
#[derive(Clone, Copy, Debug, PartialEq, Eq, Structural)]
pub struct PriTrackHeader {
    pub cylinder: u32,
    pub head: u32,
    pub bit_length: u32,
    pub clock_rate: u32,
}

/// An entry of a weak bit mask chunk: a bit position and the mask of weak bits there.
#[derive(Clone, Copy, Debug, PartialEq, Eq, Structural)]
pub struct PriWeakMaskEntry {
    pub bit_offset: u32,
    pub bit_mask: u32,
}

/// The data of an alternate bit clock chunk.
#[derive(Clone, Copy, Debug, PartialEq, Eq, Structural)]
pub struct PriAlternateClock {
    pub bit_offset: u32,
    pub new_clock: u32,
}

/// The kinds of chunk.
#[derive(Clone, Copy, Debug, PartialEq, Eq, Structural)]
pub enum PriChunkType {
    FileHeader,
    Text,
    TrackHeader,
    TrackData,
    WeakMask,
    AlternateBitClock,
    End,
    Unknown,
}

/// The identifier written for each kind of chunk; `Unknown` is written as `UNKN`.
pub open spec fn pri_chunk_id(t: PriChunkType) -> Seq<u8> {
    match t {
        PriChunkType::FileHeader => seq![0x50u8, 0x52u8, 0x49u8, 0x20u8],
        PriChunkType::Text => seq![0x54u8, 0x45u8, 0x58u8, 0x54u8],
        PriChunkType::End => seq![0x45u8, 0x4Eu8, 0x44u8, 0x20u8],
        PriChunkType::TrackHeader => seq![0x54u8, 0x52u8, 0x41u8, 0x4Bu8],
        PriChunkType::TrackData => seq![0x44u8, 0x41u8, 0x54u8, 0x41u8],
        PriChunkType::WeakMask => seq![0x57u8, 0x45u8, 0x41u8, 0x4Bu8],
        PriChunkType::AlternateBitClock => seq![0x42u8, 0x43u8, 0x4Cu8, 0x4Bu8],
        PriChunkType::Unknown => seq![0x55u8, 0x4Eu8, 0x4Bu8, 0x4Eu8],
    }
}

/// The kind of chunk an identifier names.
pub open spec fn pri_chunk_type_of(id: Seq<u8>) -> PriChunkType {
    if id == pri_chunk_id(PriChunkType::FileHeader) { PriChunkType::FileHeader }
    else if id == pri_chunk_id(PriChunkType::Text) { PriChunkType::Text }
    else if id == pri_chunk_id(PriChunkType::End) { PriChunkType::End }
    else if id == pri_chunk_id(PriChunkType::TrackHeader) { PriChunkType::TrackHeader }
    else if id == pri_chunk_id(PriChunkType::TrackData) { PriChunkType::TrackData }
    else if id == pri_chunk_id(PriChunkType::WeakMask) { PriChunkType::WeakMask }
    else if id == pri_chunk_id(PriChunkType::AlternateBitClock) { PriChunkType::AlternateBitClock }
    else { PriChunkType::Unknown }
}

/// The kind of chunk an identifier names.
fn pri_chunk_type(id: &[u8; 4]) -> (r: PriChunkType)
    ensures
        r == pri_chunk_type_of(id@),
{
    if id_is(id, 0x50, 0x52, 0x49, 0x20) { PriChunkType::FileHeader }
    else if id_is(id, 0x54, 0x45, 0x58, 0x54) { PriChunkType::Text }
    else if id_is(id, 0x45, 0x4E, 0x44, 0x20) { PriChunkType::End }
    else if id_is(id, 0x54, 0x52, 0x41, 0x4B) { PriChunkType::TrackHeader }
    else if id_is(id, 0x44, 0x41, 0x54, 0x41) { PriChunkType::TrackData }
    else if id_is(id, 0x57, 0x45, 0x41, 0x4B) { PriChunkType::WeakMask }
    else if id_is(id, 0x42, 0x43, 0x4C, 0x4B) { PriChunkType::AlternateBitClock }
    else { PriChunkType::Unknown }
}

/// The identifier written for a kind of chunk.
fn pri_chunk_id_bytes(t: PriChunkType) -> (r: [u8; 4])
    ensures
        r@ == pri_chunk_id(t),
{
    let r = match t {
        PriChunkType::FileHeader => [0x50u8, 0x52u8, 0x49u8, 0x20u8],
        PriChunkType::Text => [0x54u8, 0x45u8, 0x58u8, 0x54u8],
        PriChunkType::End => [0x45u8, 0x4Eu8, 0x44u8, 0x20u8],
        PriChunkType::TrackHeader => [0x54u8, 0x52u8, 0x41u8, 0x4Bu8],
        PriChunkType::TrackData => [0x44u8, 0x41u8, 0x54u8, 0x41u8],
        PriChunkType::WeakMask => [0x57u8, 0x45u8, 0x41u8, 0x4Bu8],
        PriChunkType::AlternateBitClock => [0x42u8, 0x43u8, 0x4Cu8, 0x4Bu8],
        PriChunkType::Unknown => [0x55u8, 0x4Eu8, 0x4Bu8, 0x4Eu8],
    };
    assert(r@ =~= pri_chunk_id(t));
    r
}

/// A chunk of a PRI image.
pub struct PriChunk {
    pub chunk_type: PriChunkType,
    pub size: u32,
    pub data: Vec<u8>,
}

/// The track that chunks are being read for and its bit clock.
#[derive(Clone, Copy, Debug, PartialEq, Eq, Structural)]
pub struct TrackContext {
    pub phys_ch: DiskCh,
    pub bit_clock: u32,
}

/// The CRC of PRI chunks.
pub fn pri_crc(buf: &[u8]) -> (r: u32)
    ensures
        r == pce_crc_spec(buf@),
{
    pce_crc(buf)
}

/// The index of the first non-zero byte of `buf`, if it has one.
fn first_nonzero(buf: &[u8]) -> (r: Option<usize>)
    ensures
        r is None ==> forall|j: int| 0 <= j < buf@.len() ==> buf@[j] == 0,
        r matches Some(i) ==> i < buf@.len() && buf@[i as int] != 0
            && forall|j: int| 0 <= j < i ==> buf@[j] == 0,
{
    let mut i: usize = 0;
    while i < buf.len()
        invariant
            i <= buf@.len(),
            forall|j: int| 0 <= j < i ==> buf@[j] == 0,
        decreases buf.len() - i,
    {
        if buf[i] != 0 {
            return Some(i);
        }
        i += 1;
    }
    None
}

/// The index of the last non-zero byte of `buf`, if it has one.
fn last_nonzero(buf: &[u8]) -> (r: Option<usize>)
    ensures
        r is None ==> forall|j: int| 0 <= j < buf@.len() ==> buf@[j] == 0,
        r matches Some(i) ==> i < buf@.len() && buf@[i as int] != 0
            && forall|j: int| i < j < buf@.len() ==> buf@[j] == 0,
{
    let mut k: usize = buf.len();
    while k > 0
        invariant
            k <= buf@.len(),
            forall|j: int| k <= j < buf@.len() ==> buf@[j] == 0,
        decreases k,
    {
        if buf[k - 1] != 0 {
            return Some(k - 1);
        }
        k -= 1;
    }
    None
}

/// The bounds of the non-zero part of a weak bit mask: the index of its first non-zero byte
/// and that of its last, or zeros where every byte is zero.
pub fn pri_weak_bounds(buf: &[u8]) -> (r: (usize, usize))
    ensures
        (forall|j: int| 0 <= j < buf@.len() ==> buf@[j] == 0) ==> r == (0usize, 0usize),
        (exists|j: int| 0 <= j < buf@.len() && buf@[j] != 0) ==> {
            &&& r.0 < buf@.len() && buf@[r.0 as int] != 0
            &&& forall|j: int| 0 <= j < r.0 ==> buf@[j] == 0
            &&& r.1 < buf@.len() && buf@[r.1 as int] != 0
            &&& forall|j: int| r.1 < j < buf@.len() ==> buf@[j] == 0
        },
{
    let start = match first_nonzero(buf) {
        Some(i) => i,
        None => 0,
    };
    let end = match last_nonzero(buf) {
        Some(i) => i,
        None => 0,
    };
    (start, end)
}

/// The file header stored at the start of `d`.
pub open spec fn pri_header_of(d: Seq<u8>) -> PriHeader {
    PriHeader { version: be16(d, 0) as u16, reserved: be16(d, 2) as u16 }
}

/// The track header stored at the start of `d`.
pub open spec fn pri_track_header_of(d: Seq<u8>) -> PriTrackHeader {
    PriTrackHeader {
        cylinder: be32(d, 0) as u32,
        head: be32(d, 4) as u32,
        bit_length: be32(d, 8) as u32,
        clock_rate: be32(d, 12) as u32,
    }
}

impl PriHeader {
    /// Read a file header from the data of a file header chunk; `None` if it is too short.
    pub fn read(d: &[u8]) -> (r: Option<PriHeader>)
        ensures
            d@.len() < 4 ==> r is None,
            d@.len() >= 4 ==> r == Some(pri_header_of(d@)),
    {
        if d.len() < 4 {
            return None;
        }
        Some(PriHeader { version: d[0] as u16 * 256 + d[1] as u16, reserved: d[2] as u16 * 256 + d[3] as u16 })
    }
}

impl PriTrackHeader {
    /// Read a track header from the data of a track header chunk; `None` if it is too short.
    pub fn read(d: &[u8]) -> (r: Option<PriTrackHeader>)
        ensures
            d@.len() < 16 ==> r is None,
            d@.len() >= 16 ==> r == Some(pri_track_header_of(d@)),
    {
        if d.len() < 16 {
            return None;
        }
        let cylinder = crate::file_parsers::bytes::read_u32_be(d, 0).unwrap();
        let head = crate::file_parsers::bytes::read_u32_be(d, 4).unwrap();
        let bit_length = crate::file_parsers::bytes::read_u32_be(d, 8).unwrap();
        let clock_rate = crate::file_parsers::bytes::read_u32_be(d, 12).unwrap();
        Some(PriTrackHeader { cylinder, head, bit_length, clock_rate })
    }

    /// The number of bytes that hold the track's bits.
    pub fn data_size(&self) -> (r: usize)
        ensures
            r == (self.bit_length / 8) + (if self.bit_length % 8 != 0 { 1int } else { 0int }),
    {
        self.bit_length as usize / 8 + if self.bit_length % 8 != 0 { 1 } else { 0 }
    }
}

/// The parser of PCE bitstream images.
pub struct PriFormat {}

impl PriFormat {
    /// The file extensions advertised for the format.
    pub fn extensions() -> (r: Vec<&'static str>)
        ensures
            str_views(r@) == seq!["pri"@],
    {
        let r = vec!["pri"];
        assert(str_views(r@) =~= seq!["pri"@]);
        r
    }

    /// The capability flags of the format.
    pub fn capabilities() -> (r: FormatCaps)
        ensures
            r@ == bitstream_bits() | (CAP_COMMENT | CAP_WEAK_BITS),
    {
        bitstream_flags().union(FormatCaps::from_bits(CAP_COMMENT | CAP_WEAK_BITS))
    }

    /// The platforms that the format supports.
    pub fn platforms() -> (r: Vec<Platform>)
        ensures
            r@ == seq![Platform::IbmPc, Platform::Macintosh],
    {
        let r = vec![Platform::IbmPc, Platform::Macintosh];
        assert(r@ =~= seq![Platform::IbmPc, Platform::Macintosh]);
        r
    }

    /// Whether `image` starts with the header of a PRI file header chunk.
    pub fn detect(image: &[u8]) -> (r: bool)
        ensures
            r == (image@.len() >= 8 && image@.take(4) == pri_chunk_id(PriChunkType::FileHeader)),
    {
        if image.len() < 8 {
            return false;
        }
        let id = [image[0], image[1], image[2], image[3]];
        assert(id@ =~= image@.take(4));
        id_is(&id, 0x50, 0x52, 0x49, 0x20)
    }

    /// Whether an image can be written in the format. `None` asks about writing in general,
    /// which is supported. Otherwise `image` gives the resolutions of the image's tracks, each
    /// once, and the capabilities it needs: it must be all bitstream tracks, and loses data
    /// where it needs capabilities the format lacks.
    pub fn can_write(image: Option<(&[DiskDataResolution], FormatCaps)>) -> (r: ParserWriteCompatibility)
        ensures
            match image {
                None => r == ParserWriteCompatibility::Compatible,
                Some((res, caps)) => r == (if res@.len() > 1 || !res@.contains(DiskDataResolution::BitStream) {
                    ParserWriteCompatibility::Incompatible
                } else if (bitstream_bits() | (CAP_COMMENT | CAP_WEAK_BITS)) & caps@ == caps@ {
                    ParserWriteCompatibility::Compatible
                } else {
                    ParserWriteCompatibility::DataLoss
                }),
            },
    {
        match image {
            None => ParserWriteCompatibility::Compatible,
            Some((res, caps)) => {
                let mut has_bitstream = false;
                let mut i: usize = 0;
                while i < res.len()
                    invariant
                        i <= res@.len(),
                        has_bitstream == (exists|j: int| 0 <= j < i && res@[j] == DiskDataResolution::BitStream),
                    decreases res.len() - i,
                {
                    if res[i] == DiskDataResolution::BitStream {
                        has_bitstream = true;
                    }
                    i += 1;
                }
                if res.len() > 1 || !has_bitstream {
                    ParserWriteCompatibility::Incompatible
                } else if PriFormat::capabilities().contains(caps) {
                    ParserWriteCompatibility::Compatible
                } else {
                    ParserWriteCompatibility::DataLoss
                }
            },
        }
    }

    /// Read and check the chunk stored at `pos` of `image`; returns it and the position
    /// after it.
    pub fn read_chunk(image: &[u8], pos: usize) -> (r: Result<(PriChunk, usize), PceError>)
        ensures
            match pce_chunk_error(image@, pos as int, MAXIMUM_CHUNK_SIZE as int) {
                Some(e) => r == Err::<(PriChunk, usize), PceError>(e),
                None => r matches Ok((c, next)) && pri_chunk_at(image@, pos as int, c, next as int),
            },
    {
        let raw = read_pce_chunk(image, pos, MAXIMUM_CHUNK_SIZE)?;
        let chunk_type = pri_chunk_type(&raw.id);
        Ok((PriChunk { chunk_type, size: raw.size, data: raw.data }, raw.next))
    }

    /// Append to `out` a chunk of type `chunk_type` holding `data`.
    pub fn write_chunk_raw(out: &mut Vec<u8>, chunk_type: PriChunkType, data: &[u8])
        requires
            data@.len() <= u32::MAX,
        ensures
            final(out)@ == old(out)@ + pce_chunk_bytes(pri_chunk_id(chunk_type), data@),
    {
        let id = pri_chunk_id_bytes(chunk_type);
        write_pce_chunk(out, id, data);
    }

    /// Append to `out` a TEXT chunk holding the bytes of `text`, which may hold at most 1000
    /// bytes.
    pub fn write_text(out: &mut Vec<u8>, text: &str)
        requires
            text.spec_bytes().len() <= 1000,
        ensures
            final(out)@ == old(out)@ + pce_chunk_bytes(pri_chunk_id(PriChunkType::Text), text.spec_bytes()),
    {
        let id = pri_chunk_id_bytes(PriChunkType::Text);
        write_pce_chunk(out, id, text.as_bytes());
    }
}

/// Whether `c` is the good chunk stored at `pos` of `s`, followed by `next`.
pub open spec fn pri_chunk_at(s: Seq<u8>, pos: int, c: PriChunk, next: int) -> bool {
    let size = be32(s, pos + 4);
    &&& c.chunk_type == pri_chunk_type_of(s.subrange(pos, pos + 4))
    &&& c.size == size
    &&& c.data@ == s.subrange(pos + 8, pos + 8 + size)
    &&& next == pos + 8 + size + 4
}

/// A chunk written by [PriFormat::write_chunk_raw] reads back as the same kind of chunk
/// with the same data, whatever comes before or after it, when its data fits the chunk
/// size limit.
pub proof fn lemma_pri_chunk_round_trip(prefix: Seq<u8>, t: PriChunkType, data: Seq<u8>, rest: Seq<u8>)
    requires
        data.len() <= MAXIMUM_CHUNK_SIZE,
    ensures
        ({
            let s = prefix + pce_chunk_bytes(pri_chunk_id(t), data) + rest;
            let p = prefix.len() as int;
            &&& pce_chunk_error(s, p, MAXIMUM_CHUNK_SIZE as int) is None
            &&& pri_chunk_type_of(s.subrange(p, p + 4)) == t
            &&& be32(s, p + 4) == data.len()
            &&& s.subrange(p + 8, p + 8 + be32(s, p + 4)) == data
        }),
{
    lemma_pce_chunk_round_trip(prefix, pri_chunk_id(t), data, rest, MAXIMUM_CHUNK_SIZE as int);
}

} // verus!
