//! PCE sector images (PSI): a chunked format that stores the sectors of each track with
//! their address marks and error flags.
use vstd::prelude::*;
use crate::file_parsers::bytes::{be16, be32};
use crate::file_parsers::pce::{id_is, pce_chunk_at, pce_chunk_error, pce_crc, pce_crc_spec, read_pce_chunk, PceError};
use crate::file_parsers::{str_views, FormatCaps, ParserWriteCompatibility};
use crate::types::{DiskCh, DiskChs, DiskChsn, Platform, TrackDataEncoding, TrackDensity};

verus! {

/// The largest chunk data accepted, 1 MiB.
pub const MAXIMUM_CHUNK_SIZE: usize = 0x100000;
/// Sector header flag: the sector is stored as one repeated byte.
pub const SH_FLAG_COMPRESSED: u8 = 0b0001;
/// Sector header flag: the sector is an alternate copy.
pub const SH_FLAG_ALTERNATE: u8 = 0b0010;
/// Sector header flag: the sector data has a CRC error.
pub const SH_FLAG_CRC_ERROR: u8 = 0b0100;
/// IBM sector header flag: the address mark has a CRC error.
pub const SH_IBM_FLAG_CRC_ERROR_ID: u8 = 0b0001;
/// IBM sector header flag: the sector data has a CRC error.
pub const SH_IBM_FLAG_CRC_ERROR_DATA: u8 = 0b0010;
/// IBM sector header flag: the data mark is a deleted data mark.
pub const SH_IBM_DELETED_DATA: u8 = 0b0100;
/// IBM sector header flag: the sector has no data mark.
pub const SH_IBM_MISSING_DATA: u8 = 0b1000;

/// What is known of the sector being read, gathered from the chunks that describe it.
#[derive(Clone, Copy, Debug, PartialEq, Eq, Structural)]
pub struct SectorContext {
    pub phys_chs: Option<DiskChs>,
    pub phys_size: usize,
    pub ibm_chsn: Option<DiskChsn>,
    pub data_crc_error: bool,
    pub address_crc_error: bool,
    pub deleted: bool,
    pub no_dam: bool,
    pub alternate: bool,
    pub bit_offset: Option<u32>,
}

/// The context of no sector.
pub open spec fn empty_context() -> SectorContext {
    SectorContext {
        phys_chs: None,
        phys_size: 0,
        ibm_chsn: None,
        data_crc_error: false,
        address_crc_error: false,
        deleted: false,
        no_dam: false,
        alternate: false,
        bit_offset: None,
    }
}

impl Default for SectorContext {
    fn default() -> (r: Self)
        ensures
            r == empty_context(),
    {
        SectorContext {
            phys_chs: None,
            phys_size: 0,
            ibm_chsn: None,
            data_crc_error: false,
            address_crc_error: false,
            deleted: false,
            no_dam: false,
            alternate: false,
            bit_offset: None,
        }
    }
}

impl SectorContext {
    /// Whether a sector header has been seen.
    pub fn have_context(&self) -> (r: bool)
        ensures
            r == self.phys_chs is Some,
    {
        self.phys_chs.is_some()
    }

    /// Forget the sector.
    pub fn reset(&mut self)
        ensures
            *final(self) == empty_context(),
    {
        *self = SectorContext::default();
    }
}

/// The header of a chunk.
pub struct PsiChunkHeader {
    pub id: [u8; 4],
    pub size: u32,
}

/// The data of the file header chunk.
#[derive(Clone, Copy, Debug)]
pub struct PsiHeader {
    pub version: u16,
    pub sector_format: [u8; 2],
}

/// The CRC that ends a chunk.
pub struct PsiChunkCrc {
    pub crc: u32,
}

/// The data of a sector header chunk.
#[derive(Clone, Copy, Debug, PartialEq, Eq, Structural)]
pub struct PsiSectorHeader {
    pub cylinder: u16,
    pub head: u8,
    pub sector: u8,
    pub size: u16,
    pub flags: u8,
    pub compressed_data: u8,
}

/// The data of an IBM sector header chunk.
#[derive(Clone, Copy, Debug, PartialEq, Eq, Structural)]
pub struct PsiIbmSectorHeader {
    pub cylinder: u8,
    pub head: u8,
    pub sector: u8,
    pub n: u8,
    pub flags: u8,
    pub encoding: u8,
}

/// The kinds of chunk.
#[derive(Clone, Copy, Debug, PartialEq, Eq, Structural)]
pub enum PsiChunkType {
    FileHeader,
    Text,
    SectorHeader,
    SectorData,
    WeakMask,
    IbmFmSectorHeader,
    IbmMfmSectorHeader,
    MacintoshSectorHeader,
    SectorPositionOffset,
    ClockRateAdjustment,
    End,
    Unknown,
}

/// The kind of chunk an identifier names.
pub open spec fn psi_chunk_type_of(id: Seq<u8>) -> PsiChunkType {
    if id == seq![0x50u8, 0x53u8, 0x49u8, 0x20u8] { PsiChunkType::FileHeader }
    else if id == seq![0x54u8, 0x45u8, 0x58u8, 0x54u8] { PsiChunkType::Text }
    else if id == seq![0x45u8, 0x4Eu8, 0x44u8, 0x20u8] { PsiChunkType::End }
    else if id == seq![0x53u8, 0x45u8, 0x43u8, 0x54u8] { PsiChunkType::SectorHeader }
    else if id == seq![0x44u8, 0x41u8, 0x54u8, 0x41u8] { PsiChunkType::SectorData }
    else if id == seq![0x57u8, 0x45u8, 0x41u8, 0x4Bu8] { PsiChunkType::WeakMask }
    else if id == seq![0x49u8, 0x42u8, 0x4Du8, 0x46u8] { PsiChunkType::IbmFmSectorHeader }
    else if id == seq![0x49u8, 0x42u8, 0x4Du8, 0x4Du8] { PsiChunkType::IbmMfmSectorHeader }
    else if id == seq![0x4Du8, 0x41u8, 0x43u8, 0x47u8] { PsiChunkType::MacintoshSectorHeader }
    else if id == seq![0x4Fu8, 0x46u8, 0x46u8, 0x53u8] { PsiChunkType::SectorPositionOffset }
    else if id == seq![0x54u8, 0x49u8, 0x4Du8, 0x45u8] { PsiChunkType::ClockRateAdjustment }
    else { PsiChunkType::Unknown }
}

/// The kind of chunk an identifier names.
fn psi_chunk_type(id: &[u8; 4]) -> (r: PsiChunkType)
    ensures
        r == psi_chunk_type_of(id@),
{
    if id_is(id, 0x50, 0x53, 0x49, 0x20) { PsiChunkType::FileHeader }
    else if id_is(id, 0x54, 0x45, 0x58, 0x54) { PsiChunkType::Text }
    else if id_is(id, 0x45, 0x4E, 0x44, 0x20) { PsiChunkType::End }
    else if id_is(id, 0x53, 0x45, 0x43, 0x54) { PsiChunkType::SectorHeader }
    else if id_is(id, 0x44, 0x41, 0x54, 0x41) { PsiChunkType::SectorData }
    else if id_is(id, 0x57, 0x45, 0x41, 0x4B) { PsiChunkType::WeakMask }
    else if id_is(id, 0x49, 0x42, 0x4D, 0x46) { PsiChunkType::IbmFmSectorHeader }
    else if id_is(id, 0x49, 0x42, 0x4D, 0x4D) { PsiChunkType::IbmMfmSectorHeader }
    else if id_is(id, 0x4D, 0x41, 0x43, 0x47) { PsiChunkType::MacintoshSectorHeader }
    else if id_is(id, 0x4F, 0x46, 0x46, 0x53) { PsiChunkType::SectorPositionOffset }
    else if id_is(id, 0x54, 0x49, 0x4D, 0x45) { PsiChunkType::ClockRateAdjustment }
    else { PsiChunkType::Unknown }
}

/// A chunk of a PSI image.
pub struct PsiChunk {
    pub chunk_type: PsiChunkType,
    pub data: Vec<u8>,
}

/// The CRC of PSI chunks.
pub fn psi_crc(buf: &[u8]) -> (r: u32)
    ensures
        r == pce_crc_spec(buf@),
{
    pce_crc(buf)
}

/// The encoding and density that a file header's sector format names.
pub open spec fn psi_sector_format_spec(f: Seq<u8>) -> Option<(TrackDataEncoding, TrackDensity)> {
    if f == seq![0x00u8, 0x00u8] { Some((TrackDataEncoding::Fm, TrackDensity::Standard)) }
    else if f == seq![0x01u8, 0x00u8] { Some((TrackDataEncoding::Fm, TrackDensity::Double)) }
    else if f == seq![0x02u8, 0x00u8] { Some((TrackDataEncoding::Fm, TrackDensity::High)) }
    else if f == seq![0x02u8, 0x01u8] { Some((TrackDataEncoding::Fm, TrackDensity::High)) }
    else if f == seq![0x02u8, 0x02u8] { Some((TrackDataEncoding::Mfm, TrackDensity::Extended)) }
    else if f == seq![0x03u8, 0x00u8] { Some((TrackDataEncoding::Gcr, TrackDensity::Double)) }
    else { None }
}

/// The encoding and density that a file header's sector format names, if it names any.
pub fn decode_psi_sector_format(sector_format: [u8; 2]) -> (r: Option<(TrackDataEncoding, TrackDensity)>)
    ensures
        r == psi_sector_format_spec(sector_format@),
{
    let a = sector_format[0];
    let b = sector_format[1];
    proof {
        assert(sector_format@ =~= seq![a, b]);
    }
    if a == 0 && b == 0 {
        Some((TrackDataEncoding::Fm, TrackDensity::Standard))
    } else if a == 1 && b == 0 {
        Some((TrackDataEncoding::Fm, TrackDensity::Double))
    } else if a == 2 && b == 0 {
        Some((TrackDataEncoding::Fm, TrackDensity::High))
    } else if a == 2 && b == 1 {
        Some((TrackDataEncoding::Fm, TrackDensity::High))
    } else if a == 2 && b == 2 {
        Some((TrackDataEncoding::Mfm, TrackDensity::Extended))
    } else if a == 3 && b == 0 {
        Some((TrackDataEncoding::Gcr, TrackDensity::Double))
    } else {
        None
    }
}

/// The parser of PCE sector images.
pub struct PsiFormat {}

impl PsiFormat {
    /// The file extensions advertised for the format.
    pub fn extensions() -> (r: Vec<&'static str>)
        ensures
            str_views(r@) == seq!["psi"@],
    {
        let r = vec!["psi"];
        assert(str_views(r@) =~= seq!["psi"@]);
        r
    }

    /// The capability flags of the format.
    pub fn capabilities() -> (r: FormatCaps)
        ensures
            r@ == 0,
    {
        FormatCaps::empty()
    }

    /// The platforms that the format supports.
    pub fn platforms() -> (r: Vec<Platform>)
        ensures
            r@ == seq![Platform::IbmPc, Platform::Macintosh],
    {
        let r = vec![Platform::IbmPc, Platform::Macintosh];
        assert(r@ =~= seq![Platform::IbmPc, Platform::Macintosh]);
        r
    }

    /// Whether `image` starts with the header of a PSI file header chunk.
    pub fn detect(image: &[u8]) -> (r: bool)
        ensures
            r == (image@.len() >= 8 && image@.take(4) == seq![0x50u8, 0x53u8, 0x49u8, 0x20u8]),
    {
        if image.len() < 8 {
            return false;
        }
        let id = [image[0], image[1], image[2], image[3]];
        assert(id@ =~= image@.take(4));
        id_is(&id, 0x50, 0x53, 0x49, 0x20)
    }

    /// The format cannot be written.
    pub fn can_write() -> (r: ParserWriteCompatibility)
        ensures
            r == ParserWriteCompatibility::UnsupportedFormat,
    {
        ParserWriteCompatibility::UnsupportedFormat
    }

    /// Read and check the chunk stored at `pos` of `image`; returns it and the position
    /// after it.
    pub fn read_chunk(image: &[u8], pos: usize) -> (r: Result<(PsiChunk, usize), PceError>)
        ensures
            match pce_chunk_error(image@, pos as int, MAXIMUM_CHUNK_SIZE as int) {
                Some(e) => r == Err::<(PsiChunk, usize), PceError>(e),
                None => r matches Ok((c, next)) && psi_chunk_at(image@, pos as int, c, next as int),
            },
    {
        let raw = read_pce_chunk(image, pos, MAXIMUM_CHUNK_SIZE)?;
        let chunk_type = psi_chunk_type(&raw.id);
        Ok((PsiChunk { chunk_type, data: raw.data }, raw.next))
    }
}

/// Whether `c` is the good chunk stored at `pos` of `s`, followed by `next`.
pub open spec fn psi_chunk_at(s: Seq<u8>, pos: int, c: PsiChunk, next: int) -> bool {
    let size = be32(s, pos + 4);
    &&& c.chunk_type == psi_chunk_type_of(s.subrange(pos, pos + 4))
    &&& c.data@ == s.subrange(pos + 8, pos + 8 + size)
    &&& next == pos + 8 + size + 4
}

/// The sector header stored at the start of `d`.
pub open spec fn sector_header_of(d: Seq<u8>) -> PsiSectorHeader {
    PsiSectorHeader {
        cylinder: be16(d, 0) as u16,
        head: d[2],
        sector: d[3],
        size: be16(d, 4) as u16,
        flags: d[6],
        compressed_data: d[7],
    }
}

/// The IBM sector header stored at the start of `d`.
pub open spec fn ibm_header_of(d: Seq<u8>) -> PsiIbmSectorHeader {
    PsiIbmSectorHeader { cylinder: d[0], head: d[1], sector: d[2], n: d[3], flags: d[4], encoding: d[5] }
}

impl PsiSectorHeader {
    /// Read a sector header from the data of a SECT chunk; `None` if the data is too short.
    pub fn read(d: &[u8]) -> (r: Option<PsiSectorHeader>)
        ensures
            d@.len() < 8 ==> r is None,
            d@.len() >= 8 ==> r == Some(sector_header_of(d@)),
    {
        if d.len() < 8 {
            return None;
        }
        Some(PsiSectorHeader {
            cylinder: d[0] as u16 * 256 + d[1] as u16,
            head: d[2],
            sector: d[3],
            size: d[4] as u16 * 256 + d[5] as u16,
            flags: d[6],
            compressed_data: d[7],
        })
    }
}

impl PsiIbmSectorHeader {
    /// Read an IBM sector header from the data of an IBMM chunk; `None` if the data is too
    /// short.
    pub fn read(d: &[u8]) -> (r: Option<PsiIbmSectorHeader>)
        ensures
            d@.len() < 6 ==> r is None,
            d@.len() >= 6 ==> r == Some(ibm_header_of(d@)),
    {
        if d.len() < 6 {
            return None;
        }
        Some(PsiIbmSectorHeader { cylinder: d[0], head: d[1], sector: d[2], n: d[3], flags: d[4], encoding: d[5] })
    }
}

/// A sector read from a PSI image. Its identity is `ibm_chsn` where an IBM header gave one,
/// else its physical address with its size.
pub struct PsiSector {
    /// The index of the track it was added to, among the tracks in the order they were added.
    pub track: usize,
    pub phys_chs: DiskChs,
    pub phys_size: usize,
    pub ibm_chsn: Option<DiskChsn>,
    pub data: Vec<u8>,
    pub address_crc_valid: bool,
    pub data_crc_valid: bool,
    pub deleted_mark: bool,
    pub no_dam: bool,
    pub alternate: bool,
    pub bit_index: Option<u32>,
}

/// A sector, with its data as a sequence.
pub struct PsiSectorView {
    pub track: int,
    pub phys_chs: DiskChs,
    pub phys_size: usize,
    pub ibm_chsn: Option<DiskChsn>,
    pub data: Seq<u8>,
    pub address_crc_valid: bool,
    pub data_crc_valid: bool,
    pub deleted_mark: bool,
    pub no_dam: bool,
    pub alternate: bool,
    pub bit_index: Option<u32>,
}

impl View for PsiSector {
    type V = PsiSectorView;

    open spec fn view(&self) -> PsiSectorView {
        PsiSectorView {
            track: self.track as int,
            phys_chs: self.phys_chs,
            phys_size: self.phys_size,
            ibm_chsn: self.ibm_chsn,
            data: self.data@,
            address_crc_valid: self.address_crc_valid,
            data_crc_valid: self.data_crc_valid,
            deleted_mark: self.deleted_mark,
            no_dam: self.no_dam,
            alternate: self.alternate,
            bit_index: self.bit_index,
        }
    }
}

/// What has been read of a PSI image so far: its encoding and density, its tracks in the
/// order they were added, the heads seen, the sectors, and the sector being described.
pub struct PsiState {
    pub encoding: TrackDataEncoding,
    pub density: TrackDensity,
    pub tracks: Seq<DiskCh>,
    pub heads: Seq<u8>,
    pub sectors: Seq<PsiSectorView>,
    pub ctx: SectorContext,
}

/// `s` with `x` appended unless it already holds it.
pub open spec fn add_unique<T>(s: Seq<T>, x: T) -> Seq<T> {
    if s.contains(x) {
        s
    } else {
        s.push(x)
    }
}

/// The outcome of one chunk: the next state, an error, or a panic of the reader.
pub enum PsiStep {
    Next(PsiState),
    Failed(PceError),
    Aborts,
}

/// The sector that a compressed sector header stands for, added to the last track.
pub open spec fn compressed_sector(tracks: Seq<DiskCh>, sh: PsiSectorHeader, ctx: SectorContext) -> PsiSectorView {
    PsiSectorView {
        track: tracks.len() - 1,
        phys_chs: DiskChs { c: sh.cylinder, h: sh.head, s: sh.sector },
        phys_size: sh.size as usize,
        ibm_chsn: None,
        data: Seq::new(sh.size as nat, |i: int| sh.compressed_data),
        address_crc_valid: true,
        data_crc_valid: !ctx.data_crc_error,
        deleted_mark: false,
        no_dam: false,
        alternate: ctx.alternate,
        bit_index: ctx.bit_offset,
    }
}

/// The sector that a DATA chunk with data `d` completes, added to the last track.
pub open spec fn data_sector(tracks: Seq<DiskCh>, ctx: SectorContext, d: Seq<u8>) -> PsiSectorView {
    PsiSectorView {
        track: tracks.len() - 1,
        phys_chs: ctx.phys_chs.unwrap(),
        phys_size: ctx.phys_size,
        ibm_chsn: ctx.ibm_chsn,
        data: d,
        address_crc_valid: !ctx.address_crc_error,
        data_crc_valid: !ctx.data_crc_error,
        deleted_mark: ctx.deleted,
        no_dam: ctx.no_dam,
        alternate: ctx.alternate,
        bit_index: ctx.bit_offset,
    }
}

/// The context after a sector header.
pub open spec fn context_after_header(ctx: SectorContext, sh: PsiSectorHeader) -> SectorContext {
    SectorContext {
        phys_chs: Some(DiskChs { c: sh.cylinder, h: sh.head, s: sh.sector }),
        phys_size: sh.size as usize,
        data_crc_error: sh.flags & SH_FLAG_CRC_ERROR != 0,
        alternate: sh.flags & SH_FLAG_ALTERNATE != 0,
        ..ctx
    }
}

/// The context after an IBM sector header.
pub open spec fn context_after_ibm_header(ctx: SectorContext, ih: PsiIbmSectorHeader) -> SectorContext {
    SectorContext {
        ibm_chsn: Some(DiskChsn { c: ih.cylinder as u16, h: ih.head, s: ih.sector, n: ih.n }),
        data_crc_error: ih.flags & SH_IBM_FLAG_CRC_ERROR_DATA != 0,
        address_crc_error: ih.flags & SH_IBM_FLAG_CRC_ERROR_ID != 0,
        deleted: ih.flags & SH_IBM_DELETED_DATA != 0,
        no_dam: ih.flags & SH_IBM_MISSING_DATA != 0,
        ..ctx
    }
}

/// What a chunk of type `ty` with data `d` does to the state. A SECT chunk adds its track
/// and head if they are new and starts a sector, which it completes at once if it is
/// compressed; an IBMM chunk gives the sector's identity and flags; an OFFS chunk its bit
/// position; a DATA chunk completes it. Sectors go to the track added last. Other chunks
/// are passed over.
pub open spec fn psi_step(st: PsiState, ty: PsiChunkType, d: Seq<u8>) -> PsiStep {
    match ty {
        PsiChunkType::SectorHeader => {
            if d.len() < 8 {
                PsiStep::Failed(PceError::FormatParseError)
            } else {
                let sh = sector_header_of(d);
                let heads = add_unique(st.heads, sh.head);
                let tracks = add_unique(st.tracks, DiskCh { c: sh.cylinder, h: sh.head });
                let ctx = context_after_header(st.ctx, sh);
                if sh.flags & SH_FLAG_COMPRESSED != 0 {
                    PsiStep::Next(PsiState {
                        tracks,
                        heads,
                        sectors: st.sectors.push(compressed_sector(tracks, sh, ctx)),
                        ctx: empty_context(),
                        ..st
                    })
                } else {
                    PsiStep::Next(PsiState { tracks, heads, ctx, ..st })
                }
            }
        },
        PsiChunkType::SectorData => {
            if st.ctx.phys_chs is None || st.tracks.len() == 0 {
                PsiStep::Failed(PceError::FormatParseError)
            } else {
                PsiStep::Next(PsiState {
                    sectors: st.sectors.push(data_sector(st.tracks, st.ctx, d)),
                    ctx: empty_context(),
                    ..st
                })
            }
        },
        PsiChunkType::SectorPositionOffset => {
            if d.len() < 4 {
                PsiStep::Aborts
            } else {
                PsiStep::Next(PsiState { ctx: SectorContext { bit_offset: Some(be32(d, 0) as u32), ..st.ctx }, ..st })
            }
        },
        PsiChunkType::IbmMfmSectorHeader => {
            if d.len() < 6 {
                PsiStep::Failed(PceError::FormatParseError)
            } else {
                PsiStep::Next(PsiState { ctx: context_after_ibm_header(st.ctx, ibm_header_of(d)), ..st })
            }
        },
        _ => PsiStep::Next(st),
    }
}

/// The outcome of reading a PSI image: the state at its END chunk, an error, or a panic of
/// the reader.
pub enum PsiOutcome {
    Done(PsiState),
    Failed(PceError),
    Aborts,
}

/// Read the chunks of `s` from `pos` on in state `st`, up to and not including the END
/// chunk.
pub open spec fn psi_run(s: Seq<u8>, pos: int, st: PsiState) -> PsiOutcome
    decreases s.len() - pos,
{
    match pce_chunk_error(s, pos, MAXIMUM_CHUNK_SIZE as int) {
        Some(e) => PsiOutcome::Failed(e),
        None => {
            let size = be32(s, pos + 4);
            let ty = psi_chunk_type_of(s.subrange(pos, pos + 4));
            if ty == PsiChunkType::End {
                PsiOutcome::Done(st)
            } else {
                match psi_step(st, ty, s.subrange(pos + 8, pos + 8 + size)) {
                    PsiStep::Next(st2) => psi_run(s, pos + 8 + size + 4, st2),
                    PsiStep::Failed(e) => PsiOutcome::Failed(e),
                    PsiStep::Aborts => PsiOutcome::Aborts,
                }
            }
        },
    }
}

/// The state before any chunk after the file header.
pub open spec fn psi_initial(encoding: TrackDataEncoding, density: TrackDensity) -> PsiState {
    PsiState {
        encoding,
        density,
        tracks: Seq::empty(),
        heads: Seq::empty(),
        sectors: Seq::empty(),
        ctx: empty_context(),
    }
}

/// The outcome of reading the PSI image `s`: it must start with a file header chunk whose
/// sector format is known, and is read up to its END chunk.
pub open spec fn psi_parse(s: Seq<u8>) -> PsiOutcome {
    match pce_chunk_error(s, 0, MAXIMUM_CHUNK_SIZE as int) {
        Some(e) => PsiOutcome::Failed(e),
        None => {
            let size = be32(s, 4);
            let d = s.subrange(8, 8 + size);
            if psi_chunk_type_of(s.subrange(0, 4)) != PsiChunkType::FileHeader {
                PsiOutcome::Failed(PceError::UnknownFormat)
            } else if d.len() < 4 {
                PsiOutcome::Failed(PceError::FormatParseError)
            } else {
                match psi_sector_format_spec(d.subrange(2, 4)) {
                    None => PsiOutcome::Failed(PceError::FormatParseError),
                    Some((encoding, density)) => psi_run(s, 8 + size + 4, psi_initial(encoding, density)),
                }
            }
        },
    }
}

/// The contents of a PSI image.
pub struct PsiImage {
    pub encoding: TrackDataEncoding,
    pub density: TrackDensity,
    /// The tracks, in the order they were added.
    pub tracks: Vec<DiskCh>,
    /// The heads seen, each once.
    pub heads: Vec<u8>,
    pub sectors: Vec<PsiSector>,
}

/// The views of a list of sectors.
pub open spec fn sector_views(v: Seq<PsiSector>) -> Seq<PsiSectorView> {
    v.map_values(|x: PsiSector| x@)
}

/// The state that `b` is, with `ctx`.
pub open spec fn build_state(img: PsiImage, ctx: SectorContext) -> PsiState {
    PsiState {
        encoding: img.encoding,
        density: img.density,
        tracks: img.tracks@,
        heads: img.heads@,
        sectors: sector_views(img.sectors@),
        ctx,
    }
}

/// Whether `v` holds `x`.
fn contains_ch(v: &Vec<DiskCh>, x: DiskCh) -> (r: bool)
    ensures
        r == v@.contains(x),
{
    let mut i: usize = 0;
    while i < v.len()
        invariant
            i <= v@.len(),
            forall|j: int| 0 <= j < i ==> v@[j] != x,
        decreases v.len() - i,
    {
        if v[i] == x {
            assert(v@[i as int] == x);
            return true;
        }
        i += 1;
    }
    false
}

/// Whether `v` holds `x`.
fn contains_u8(v: &Vec<u8>, x: u8) -> (r: bool)
    ensures
        r == v@.contains(x),
{
    let mut i: usize = 0;
    while i < v.len()
        invariant
            i <= v@.len(),
            forall|j: int| 0 <= j < i ==> v@[j] != x,
        decreases v.len() - i,
    {
        if v[i] == x {
            assert(v@[i as int] == x);
            return true;
        }
        i += 1;
    }
    false
}

/// `n` copies of `b`.
fn repeat_byte(b: u8, n: usize) -> (r: Vec<u8>)
    ensures
        r@ == Seq::new(n as nat, |i: int| b),
{
    let mut r: Vec<u8> = Vec::new();
    let mut i: usize = 0;
    while i < n
        invariant
            i <= n,
            r@ == Seq::new(i as nat, |k: int| b),
        decreases n - i,
    {
        r.push(b);
        i += 1;
        assert(r@ =~= Seq::new(i as nat, |k: int| b));
    }
    r
}

/// What applying a chunk of type `ty` with data `d` to `img` and `ctx` must give.
pub open spec fn applied(img0: PsiImage, ctx0: SectorContext, ty: PsiChunkType, d: Seq<u8>,
    img1: PsiImage, ctx1: SectorContext, r: Result<(), PceError>) -> bool {
    match psi_step(build_state(img0, ctx0), ty, d) {
        PsiStep::Next(st) => r is Ok && build_state(img1, ctx1) == st,
        PsiStep::Failed(e) => r == Err::<(), PceError>(e),
        PsiStep::Aborts => true,
    }
}

/// Apply a SECT chunk.
fn apply_sector_header(img: &mut PsiImage, ctx: &mut SectorContext, d: &[u8]) -> (r: Result<(), PceError>)
    ensures
        applied(*old(img), *old(ctx), PsiChunkType::SectorHeader, d@, *final(img), *final(ctx), r),
{
    let ghost st = build_state(*img, *ctx);
    let sh = match PsiSectorHeader::read(d) {
        Some(h) => h,
        None => return Err(PceError::FormatParseError),
    };
    if !contains_u8(&img.heads, sh.head) {
        img.heads.push(sh.head);
    }
    let ch = DiskCh { c: sh.cylinder, h: sh.head };
    if !contains_ch(&img.tracks, ch) {
        img.tracks.push(ch);
    }
    let chs = DiskChs { c: sh.cylinder, h: sh.head, s: sh.sector };
    ctx.alternate = sh.flags & SH_FLAG_ALTERNATE != 0;
    ctx.phys_chs = Some(chs);
    ctx.phys_size = sh.size as usize;
    ctx.data_crc_error = sh.flags & SH_FLAG_CRC_ERROR != 0;
    assert(*ctx == context_after_header(st.ctx, sh));
    assert(img.tracks@ == add_unique(st.tracks, ch));
    assert(img.heads@ == add_unique(st.heads, sh.head));
    if sh.flags & SH_FLAG_COMPRESSED != 0 {
        let data = repeat_byte(sh.compressed_data, sh.size as usize);
        let sector = PsiSector {
            track: img.tracks.len() - 1,
            phys_chs: chs,
            phys_size: sh.size as usize,
            ibm_chsn: None,
            data,
            address_crc_valid: true,
            data_crc_valid: !ctx.data_crc_error,
            deleted_mark: false,
            no_dam: false,
            alternate: ctx.alternate,
            bit_index: ctx.bit_offset,
        };
        let ghost before = img.sectors@;
        assert(sector@ == compressed_sector(img.tracks@, sh, *ctx));
        img.sectors.push(sector);
        assert(sector_views(img.sectors@) =~= sector_views(before).push(sector@));
        ctx.reset();
    }
    Ok(())
}

/// Apply a DATA chunk.
fn apply_sector_data(img: &mut PsiImage, ctx: &mut SectorContext, d: Vec<u8>) -> (r: Result<(), PceError>)
    ensures
        applied(*old(img), *old(ctx), PsiChunkType::SectorData, d@, *final(img), *final(ctx), r),
{
    if !ctx.have_context() || img.tracks.len() == 0 {
        return Err(PceError::FormatParseError);
    }
    let phys = match ctx.phys_chs {
        Some(p) => p,
        None => return Err(PceError::FormatParseError),
    };
    let ghost dv = d@;
    let sector = PsiSector {
        track: img.tracks.len() - 1,
        phys_chs: phys,
        phys_size: ctx.phys_size,
        ibm_chsn: ctx.ibm_chsn,
        data: d,
        address_crc_valid: !ctx.address_crc_error,
        data_crc_valid: !ctx.data_crc_error,
        deleted_mark: ctx.deleted,
        no_dam: ctx.no_dam,
        alternate: ctx.alternate,
        bit_index: ctx.bit_offset,
    };
    let ghost before = img.sectors@;
    assert(sector@ == data_sector(img.tracks@, *ctx, dv));
    img.sectors.push(sector);
    assert(sector_views(img.sectors@) =~= sector_views(before).push(sector@));
    ctx.reset();
    Ok(())
}

/// Apply an IBMM chunk.
fn apply_ibm_header(img: &mut PsiImage, ctx: &mut SectorContext, d: &[u8]) -> (r: Result<(), PceError>)
    ensures
        applied(*old(img), *old(ctx), PsiChunkType::IbmMfmSectorHeader, d@, *final(img), *final(ctx), r),
{
    let ih = match PsiIbmSectorHeader::read(d) {
        Some(h) => h,
        None => return Err(PceError::FormatParseError),
    };
    ctx.ibm_chsn = Some(DiskChsn { c: ih.cylinder as u16, h: ih.head, s: ih.sector, n: ih.n });
    ctx.data_crc_error = ih.flags & SH_IBM_FLAG_CRC_ERROR_DATA != 0;
    ctx.address_crc_error = ih.flags & SH_IBM_FLAG_CRC_ERROR_ID != 0;
    ctx.deleted = ih.flags & SH_IBM_DELETED_DATA != 0;
    ctx.no_dam = ih.flags & SH_IBM_MISSING_DATA != 0;
    Ok(())
}

/// Apply one chunk to the image read so far.
fn psi_apply(img: &mut PsiImage, ctx: &mut SectorContext, ty: PsiChunkType, d: Vec<u8>) -> (r: Result<(), PceError>)
    requires
        !(psi_step(build_state(*old(img), *old(ctx)), ty, d@) is Aborts),
    ensures
        applied(*old(img), *old(ctx), ty, d@, *final(img), *final(ctx), r),
{
    match ty {
        PsiChunkType::SectorHeader => apply_sector_header(img, ctx, d.as_slice()),
        PsiChunkType::SectorData => apply_sector_data(img, ctx, d),
        PsiChunkType::SectorPositionOffset => {
            let offset = d[0] as u32 * 0x100_0000 + d[1] as u32 * 0x1_0000 + d[2] as u32 * 0x100 + d[3] as u32;
            ctx.bit_offset = Some(offset);
            Ok(())
        },
        PsiChunkType::IbmMfmSectorHeader => apply_ibm_header(img, ctx, d.as_slice()),
        _ => Ok(()),
    }
}

impl PsiImage {
    /// The geometry of the disk: the number of tracks per head and the number of heads, as
    /// the 16 and 8 bit counts of tracks and heads give them. The head count must not be
    /// zero as a byte.
    pub fn geometry(&self) -> (r: DiskCh)
        requires
            self.heads@.len() as u8 != 0,
        ensures
            r.h == self.heads@.len() as u8,
            r.c == (self.tracks@.len() as u16) / (self.heads@.len() as u8 as u16),
    {
        let head_ct = self.heads.len() as u8;
        let track_ct = self.tracks.len() as u16;
        DiskCh { c: track_ct / head_ct as u16, h: head_ct }
    }
}

impl PsiFormat {
    /// Read a PSI image: the file header chunk, then chunk after chunk up to the END chunk,
    /// collecting the tracks, heads and sectors that the chunks describe. Images on which
    /// reading would panic (a sector position chunk shorter than four bytes) are left out.
    pub fn load_image(image: &[u8]) -> (r: Result<PsiImage, PceError>)
        requires
            !(psi_parse(image@) is Aborts),
        ensures
            match psi_parse(image@) {
                PsiOutcome::Done(st) => r matches Ok(img) && build_state(img, st.ctx) == st,
                PsiOutcome::Failed(e) => r == Err::<PsiImage, PceError>(e),
                PsiOutcome::Aborts => true,
            },
    {
        let (first, mut pos) = PsiFormat::read_chunk(image, 0)?;
        if first.chunk_type != PsiChunkType::FileHeader {
            return Err(PceError::UnknownFormat);
        }
        if first.data.len() < 4 {
            return Err(PceError::FormatParseError);
        }
        let format = [first.data[2], first.data[3]];
        assert(format@ =~= first.data@.subrange(2, 4));
        let (encoding, density) = match decode_psi_sector_format(format) {
            Some(f) => f,
            None => return Err(PceError::FormatParseError),
        };
        let mut img = PsiImage { encoding, density, tracks: Vec::new(), heads: Vec::new(), sectors: Vec::new() };
        let mut ctx = SectorContext::default();
        assert(sector_views(img.sectors@) =~= Seq::<PsiSectorView>::empty());
        let ghost target = psi_parse(image@);
        assert(target == psi_run(image@, pos as int, build_state(img, ctx)));
        loop
            invariant
                target == psi_parse(image@),
                !(target is Aborts),
                target == psi_run(image@, pos as int, build_state(img, ctx)),
                img.encoding == encoding,
                img.density == density,
            decreases image.len() - pos,
        {
            let (chunk, next) = match PsiFormat::read_chunk(image, pos) {
                Ok(c) => c,
                Err(e) => return Err(e),
            };
            if chunk.chunk_type == PsiChunkType::End {
                return Ok(img);
            }
            match psi_apply(&mut img, &mut ctx, chunk.chunk_type, chunk.data) {
                Ok(()) => {},
                Err(e) => return Err(e),
            }
            pos = next;
        }
    }
}

} // verus!
