//! PCE flux images (PFI): a chunked format that stores the flux transitions of each track
//! as clock counts, with the index positions of each revolution.
use vstd::prelude::*;
use crate::file_parsers::bytes::{be16, be32, read_u32_be};
use crate::file_parsers::pce::{id_is, pce_chunk_error, pce_crc, pce_crc_spec, read_pce_chunk, PceError};
use crate::file_parsers::{bitstream_bits, bitstream_flags, str_views, FormatCaps, ParserWriteCompatibility, CAP_COMMENT, CAP_WEAK_BITS};

verus! {

/// The largest chunk data accepted, 16 MiB.
pub const MAXIMUM_CHUNK_SIZE: usize = 0x1000000;

/// The header of a chunk.
pub struct PfiChunkHeader {
    pub id: [u8; 4],
    pub size: u32,
}

/// The data of the file header chunk.
#[derive(Clone, Copy, Debug, PartialEq, Eq, Structural)]
pub struct PfiHeader {
    pub version: u16,
    pub reserved: u16,
}

/// The CRC that ends a chunk.
pub struct PfiChunkCrc {
    pub crc: u32,
}

/// The data of a track header chunk.
#[derive(Clone, Copy, Debug, PartialEq, Eq, Structural)]
pub struct PfiTrackHeader {
    pub cylinder: u32,
    pub head: u32,
    pub clock_rate: u32,
}

/// The kinds of chunk.
#[derive(Clone, Copy, Debug, PartialEq, Eq, Structural)]
pub enum PfiChunkType {
    FileHeader,
    Text,
    TrackHeader,
    Index,
    TrackData,
    End,
    Unknown,
}

/// The kind of chunk an identifier names.
pub open spec fn pfi_chunk_type_of(id: Seq<u8>) -> PfiChunkType {
    if id == seq![0x50u8, 0x46u8, 0x49u8, 0x20u8] { PfiChunkType::FileHeader }
    else if id == seq![0x54u8, 0x45u8, 0x58u8, 0x54u8] { PfiChunkType::Text }
    else if id == seq![0x45u8, 0x4Eu8, 0x44u8, 0x20u8] { PfiChunkType::End }
    else if id == seq![0x54u8, 0x52u8, 0x41u8, 0x4Bu8] { PfiChunkType::TrackHeader }
    else if id == seq![0x49u8, 0x4Eu8, 0x44u8, 0x58u8] { PfiChunkType::Index }
    else if id == seq![0x44u8, 0x41u8, 0x54u8, 0x41u8] { PfiChunkType::TrackData }
    else { PfiChunkType::Unknown }
}

/// The kind of chunk an identifier names.
fn pfi_chunk_type(id: &[u8; 4]) -> (r: PfiChunkType)
    ensures
        r == pfi_chunk_type_of(id@),
{
    if id_is(id, 0x50, 0x46, 0x49, 0x20) { PfiChunkType::FileHeader }
    else if id_is(id, 0x54, 0x45, 0x58, 0x54) { PfiChunkType::Text }
    else if id_is(id, 0x45, 0x4E, 0x44, 0x20) { PfiChunkType::End }
    else if id_is(id, 0x54, 0x52, 0x41, 0x4B) { PfiChunkType::TrackHeader }
    else if id_is(id, 0x49, 0x4E, 0x44, 0x58) { PfiChunkType::Index }
    else if id_is(id, 0x44, 0x41, 0x54, 0x41) { PfiChunkType::TrackData }
    else { PfiChunkType::Unknown }
}

/// A chunk of a PFI image.
pub struct PfiChunk {
    pub chunk_type: PfiChunkType,
    pub size: u32,
    pub data: Vec<u8>,
}

/// Whether `c` is the good chunk stored at `pos` of `s`, followed by `next`.
pub open spec fn pfi_chunk_at(s: Seq<u8>, pos: int, c: PfiChunk, next: int) -> bool {
    let size = be32(s, pos + 4);
    &&& c.chunk_type == pfi_chunk_type_of(s.subrange(pos, pos + 4))
    &&& c.size == size
    &&& c.data@ == s.subrange(pos + 8, pos + 8 + size)
    &&& next == pos + 8 + size + 4
}

/// The CRC of PFI chunks.
pub fn pfi_crc(buf: &[u8]) -> (r: u32)
    ensures
        r == pce_crc_spec(buf@),
{
    pce_crc(buf)
}

/// The track header stored at the start of `d`.
pub open spec fn pfi_track_header_of(d: Seq<u8>) -> PfiTrackHeader {
    PfiTrackHeader { cylinder: be32(d, 0) as u32, head: be32(d, 4) as u32, clock_rate: be32(d, 8) as u32 }
}

impl PfiTrackHeader {
    /// Read a track header from the data of a track header chunk; `None` if it is too short.
    pub fn read(d: &[u8]) -> (r: Option<PfiTrackHeader>)
        ensures
            d@.len() < 12 ==> r is None,
            d@.len() >= 12 ==> r == Some(pfi_track_header_of(d@)),
    {
        if d.len() < 12 {
            return None;
        }
        Some(PfiTrackHeader {
            cylinder: read_u32_be(d, 0).unwrap(),
            head: read_u32_be(d, 4).unwrap(),
            clock_rate: read_u32_be(d, 8).unwrap(),
        })
    }
}

/// One revolution of a track: the clock counts between its flux transitions, and the clock
/// count from its index to the next.
pub struct PfiRevolution {
    pub transitions: Vec<u32>,
    pub index_time: u64,
}

/// A revolution, with its transitions as a sequence.
pub struct PfiRevView {
    pub transitions: Seq<u32>,
    pub index_time: int,
}

impl View for PfiRevolution {
    type V = PfiRevView;

    open spec fn view(&self) -> PfiRevView {
        PfiRevView { transitions: self.transitions@, index_time: self.index_time as int }
    }
}

/// One entry of PFI flux data at `p`: a clock count and the number of bytes it takes, a
/// zero byte (invalid), or an entry cut short by the end of the data.
pub enum PfiToken {
    Time(u32, nat),
    Invalid,
    Truncated,
}

/// The entry of flux data at `p`, which lies inside `s`. A byte of 8 or more is itself the
/// count; 1, 2 and 3 precede a 16, 24 or 32 bit big endian count; 4 to 7 give the high
/// bits of a count whose low byte follows; 0 is invalid.
pub open spec fn pfi_token(s: Seq<u8>, p: int) -> PfiToken {
    let b = s[p];
    if b == 0 {
        PfiToken::Invalid
    } else if b == 1 {
        if p + 3 > s.len() { PfiToken::Truncated } else { PfiToken::Time((s[p + 1] * 256 + s[p + 2]) as u32, 3) }
    } else if b == 2 {
        if p + 4 > s.len() { PfiToken::Truncated } else {
            PfiToken::Time((s[p + 1] * 65536 + s[p + 2] * 256 + s[p + 3]) as u32, 4)
        }
    } else if b == 3 {
        if p + 5 > s.len() { PfiToken::Truncated } else {
            PfiToken::Time((s[p + 1] * 16777216 + s[p + 2] * 65536 + s[p + 3] * 256 + s[p + 4]) as u32, 5)
        }
    } else if b < 8 {
        if p + 2 > s.len() { PfiToken::Truncated } else { PfiToken::Time(((b - 4) * 256 + s[p + 1]) as u32, 2) }
    } else {
        PfiToken::Time(b as u32, 1)
    }
}

/// `revs` with the index time of its last revolution set to `t`.
pub open spec fn close_last(revs: Seq<PfiRevView>, t: int) -> Seq<PfiRevView> {
    if revs.len() == 0 {
        revs
    } else {
        revs.update(revs.len() - 1, PfiRevView { transitions: revs.last().transitions, index_time: t })
    }
}

/// `revs` with `t` added to the transitions of its last revolution.
pub open spec fn add_transition(revs: Seq<PfiRevView>, t: u32) -> Seq<PfiRevView> {
    if revs.len() == 0 {
        revs
    } else {
        revs.update(revs.len() - 1, PfiRevView { transitions: revs.last().transitions.push(t), index_time: revs.last().index_time })
    }
}

/// Decode the flux data `s` from `pos` on, with `clocks` counted so far, `ri` the number of
/// index positions passed, `last` the clock count at the last of them, and `revs` the
/// revolutions begun. Transitions before the first index belong to no revolution. Reaching
/// an index position closes the current revolution and begins the next, unless it is the
/// last index position, where decoding stops.
pub open spec fn pfi_decode(s: Seq<u8>, idx: Seq<u32>, pos: int, clocks: int, ri: int, last: int,
    revs: Seq<PfiRevView>) -> Result<Seq<PfiRevView>, PceError>
    decreases s.len() - pos,
{
    if pos >= s.len() || pos < 0 || ri < 0 || ri >= idx.len() {
        Ok(close_last(revs, clocks - last))
    } else if clocks >= idx[ri] && ri + 1 >= idx.len() {
        Ok(close_last(revs, clocks - last))
    } else {
        let passed = clocks >= idx[ri];
        let ri2 = if passed { ri + 1 } else { ri };
        let last2 = if passed { clocks } else { last };
        let revs2 = if passed {
            close_last(revs, clocks - last).push(PfiRevView { transitions: Seq::empty(), index_time: 0 })
        } else {
            revs
        };
        match pfi_token(s, pos) {
            PfiToken::Invalid => Err(PceError::FormatParseError),
            PfiToken::Truncated => Err(PceError::Io),
            PfiToken::Time(t, len) => pfi_decode(s, idx, pos + len, clocks + t, ri2, last2, add_transition(revs2, t)),
        }
    }
}

/// The revolutions that flux data `s` with index positions `idx` decodes to.
pub open spec fn pfi_track_data(s: Seq<u8>, idx: Seq<u32>) -> Result<Seq<PfiRevView>, PceError> {
    if idx.len() == 0 {
        Err(PceError::FormatParseError)
    } else {
        pfi_decode(s, idx, 0, 0, 0, 0, Seq::empty())
    }
}

/// The views of a list of revolutions.
pub open spec fn rev_views(v: Seq<PfiRevolution>) -> Seq<PfiRevView> {
    v.map_values(|r: PfiRevolution| r@)
}

/// The revolutions read so far: the closed ones, then the current one if there is one.
pub open spec fn revs_view(done: Seq<PfiRevolution>, cur: Seq<u32>, has_cur: bool) -> Seq<PfiRevView> {
    let closed = rev_views(done);
    if has_cur {
        closed.push(PfiRevView { transitions: cur, index_time: 0 })
    } else {
        closed
    }
}

/// The entry of flux data at `pos` of `d`.
fn read_token(d: &[u8], pos: usize) -> (r: Result<(u32, usize), PceError>)
    requires
        pos < d@.len(),
    ensures
        match pfi_token(d@, pos as int) {
            PfiToken::Invalid => r == Err::<(u32, usize), PceError>(PceError::FormatParseError),
            PfiToken::Truncated => r == Err::<(u32, usize), PceError>(PceError::Io),
            PfiToken::Time(t, len) => r == Ok::<(u32, usize), PceError>((t, len as usize)),
        },
{
    let b = d[pos];
    let left = d.len() - pos;
    if b == 0 {
        Err(PceError::FormatParseError)
    } else if b == 1 {
        if left < 3 { Err(PceError::Io) } else { Ok((d[pos + 1] as u32 * 256 + d[pos + 2] as u32, 3)) }
    } else if b == 2 {
        if left < 4 { Err(PceError::Io) } else {
            Ok((d[pos + 1] as u32 * 65536 + d[pos + 2] as u32 * 256 + d[pos + 3] as u32, 4))
        }
    } else if b == 3 {
        if left < 5 { Err(PceError::Io) } else {
            Ok((d[pos + 1] as u32 * 16777216 + d[pos + 2] as u32 * 65536 + d[pos + 3] as u32 * 256 + d[pos + 4] as u32, 5))
        }
    } else if b < 8 {
        if left < 2 { Err(PceError::Io) } else { Ok(((b as u32 - 4) * 256 + d[pos + 1] as u32, 2)) }
    } else {
        Ok((b as u32, 1))
    }
}

/// The parser of PCE flux images.
pub struct PfiFormat {}

impl PfiFormat {
    /// The file extensions advertised for the format.
    pub fn extensions() -> (r: Vec<&'static str>)
        ensures
            str_views(r@) == seq!["pfi"@],
    {
        let r = vec!["pfi"];
        assert(str_views(r@) =~= seq!["pfi"@]);
        r
    }

    /// The capability flags of the format.
    pub fn capabilities() -> (r: FormatCaps)
        ensures
            r@ == bitstream_bits() | (CAP_COMMENT | CAP_WEAK_BITS),
    {
        bitstream_flags().union(FormatCaps::from_bits(CAP_COMMENT | CAP_WEAK_BITS))
    }

    /// Whether `image` starts with the header of a PFI file header chunk.
    pub fn detect(image: &[u8]) -> (r: bool)
        ensures
            r == (image@.len() >= 8 && image@.take(4) == seq![0x50u8, 0x46u8, 0x49u8, 0x20u8]),
    {
        if image.len() < 8 {
            return false;
        }
        let id = [image[0], image[1], image[2], image[3]];
        assert(id@ =~= image@.take(4));
        id_is(&id, 0x50, 0x46, 0x49, 0x20)
    }

    /// The format cannot be written.
    pub fn can_write() -> (r: ParserWriteCompatibility)
        ensures
            r == ParserWriteCompatibility::UnsupportedFormat,
    {
        ParserWriteCompatibility::UnsupportedFormat
    }

    /// Read and check the chunk stored at `pos` of `image`; returns it and the position
    /// after it.
    pub fn read_chunk(image: &[u8], pos: usize) -> (r: Result<(PfiChunk, usize), PceError>)
        ensures
            match pce_chunk_error(image@, pos as int, MAXIMUM_CHUNK_SIZE as int) {
                Some(e) => r == Err::<(PfiChunk, usize), PceError>(e),
                None => r matches Ok((c, next)) && pfi_chunk_at(image@, pos as int, c, next as int),
            },
    {
        let raw = read_pce_chunk(image, pos, MAXIMUM_CHUNK_SIZE)?;
        let chunk_type = pfi_chunk_type(&raw.id);
        Ok((PfiChunk { chunk_type, size: raw.size, data: raw.data }, raw.next))
    }

    /// The index positions listed by an index chunk: its data as big endian words, of which
    /// there are a quarter of its size.
    pub fn read_index(d: &[u8]) -> (r: Vec<u32>)
        ensures
            r@ == Seq::new(d@.len() / 4, |i: int| be32(d@, 4 * i) as u32),
    {
        let n = d.len() / 4;
        let mut r: Vec<u32> = Vec::new();
        let mut i: usize = 0;
        while i < n
            invariant
                n == d.len() / 4,
                i <= n,
                r@ == Seq::new(i as nat, |k: int| be32(d@, 4 * k) as u32),
            decreases n - i,
        {
            r.push(read_u32_be(d, 4 * i).unwrap());
            i += 1;
            assert(r@ =~= Seq::new(i as nat, |k: int| be32(d@, 4 * k) as u32));
        }
        r
    }

    /// Decode the flux data of a track into revolutions, given the clock counts of its index
    /// positions: each revolution runs from one index position to the next, and holds the
    /// clock counts between its transitions and the clock count it spans. Data must not be
    /// longer than a chunk.
    pub fn read_track_data(data: &[u8], index_times: &[u32]) -> (r: Result<Vec<PfiRevolution>, PceError>)
        requires
            data@.len() <= MAXIMUM_CHUNK_SIZE,
        ensures
            match pfi_track_data(data@, index_times@) {
                Ok(revs) => r matches Ok(v) && rev_views(v@) == revs,
                Err(e) => r == Err::<Vec<PfiRevolution>, PceError>(e),
            },
    {
        if index_times.len() == 0 {
            return Err(PceError::FormatParseError);
        }
        let ghost s = data@;
        let ghost idx = index_times@;
        let mut done: Vec<PfiRevolution> = Vec::new();
        let mut cur: Vec<u32> = Vec::new();
        let mut has_cur = false;
        let mut ri: usize = 0;
        let mut clocks: u64 = 0;
        let mut last: u64 = 0;
        let mut pos: usize = 0;
        assert(revs_view(done@, cur@, has_cur) =~= Seq::<PfiRevView>::empty());
        loop
            invariant
                s == data@,
                idx == index_times@,
                data@.len() <= MAXIMUM_CHUNK_SIZE,
                pos <= data@.len(),
                ri < idx.len(),
                has_cur == (ri >= 1),
                !has_cur ==> done@.len() == 0,
                last <= clocks,
                clocks <= pos * 0x1_0000_0000,
                pfi_decode(s, idx, pos as int, clocks as int, ri as int, last as int, revs_view(done@, cur@, has_cur))
                    == pfi_track_data(s, idx),
            decreases data.len() - pos,
        {
            if pos >= data.len() || (clocks >= index_times[ri] as u64 && ri + 1 >= index_times.len()) {
                let ghost before = revs_view(done@, cur@, has_cur);
                if has_cur {
                    let rev = PfiRevolution { transitions: cur, index_time: clocks - last };
                    let ghost done0 = done@;
                    let ghost rv = rev@;
                    done.push(rev);
                    assert(done@ =~= done0.push(rev));
                    assert(rev_views(done@) =~= rev_views(done0).push(rv));
                    assert(rev_views(done@) =~= close_last(before, clocks - last));
                } else {
                    assert(rev_views(done@) =~= close_last(before, clocks - last));
                }
                return Ok(done);
            }
            if clocks >= index_times[ri] as u64 {
                let ghost before = revs_view(done@, cur@, has_cur);
                if has_cur {
                    let closed = PfiRevolution { transitions: cur, index_time: clocks - last };
                    let ghost done0 = done@;
                    let ghost cv = closed@;
                    done.push(closed);
                    assert(rev_views(done@) =~= rev_views(done0).push(cv));
                }
                cur = Vec::new();
                has_cur = true;
                ri = ri + 1;
                assert(revs_view(done@, cur@, has_cur) =~= close_last(before, clocks - last)
                    .push(PfiRevView { transitions: Seq::empty(), index_time: 0 }));
                last = clocks;
            }
            let (t, len) = match read_token(data, pos) {
                Ok(x) => x,
                Err(e) => return Err(e),
            };
            let ghost before = revs_view(done@, cur@, has_cur);
            if has_cur {
                cur.push(t);
            }
            assert(revs_view(done@, cur@, has_cur) =~= add_transition(before, t));
            clocks = clocks + t as u64;
            pos = pos + len;
        }
    }
}

} // verus!
