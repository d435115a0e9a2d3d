//! Kryoflux stream files.
use vstd::prelude::*;
use crate::file_parsers::{
    bitstream_bits, bitstream_flags, str_views, FormatCaps, CAP_COMMENT, CAP_ENCODING_FM,
    CAP_ENCODING_MFM, CAP_TRACK_ENCODING, CAP_WEAK_BITS,
};
use crate::types::{Platform, TrackDataRate};
use crate::file_parsers::bytes::{copy_range, le16, le32, read_u16_le, read_u32_le};
use crate::file_parsers::imd::is_digit;

verus! {

/// The parser of Kryoflux stream files, with the context of the stream that it reads: what
/// the blocks read so far have set.
pub struct KfxFormat {
    /// The index counter of the last index block read, if one was.
    pub last_index_counter: Option<u32>,
    /// How many index positions the reading has passed.
    pub current_offset_idx: usize,
    /// How many revolutions the reading has started.
    pub idx_ct: u32,
    /// The overflow count that the next flux sample adds to its value.
    pub flux_ovl: u32,
    /// The text of the sample clock rate (Hz) of the last clock information read, if any.
    pub sck_text: Option<Vec<u8>>,
    /// The text of the index clock rate (Hz) of the last clock information read, if any.
    pub ick_text: Option<Vec<u8>>,
}

/// An error met while reading a Kryoflux stream.
#[derive(Clone, Copy, Debug, PartialEq, Eq, Structural)]
pub enum KfxError {
    /// The stream ends inside a block, or before its end of file block.
    UnexpectedEof,
    /// The stream end block records a hardware fault: a buffering problem, or no index
    /// signal.
    ImageCorrupt,
    /// The stream does not hold a complete revolution.
    IncompatibleImage,
}

/// The bytes of an optional buffer.
pub open spec fn opt_bytes(o: Option<Vec<u8>>) -> Option<Seq<u8>> {
    match o {
        Some(v) => Some(v@),
        None => None,
    }
}

/// The reading context of a stream, as plain values.
pub struct KfxFormatView {
    pub last_index_counter: Option<u32>,
    pub current_offset_idx: int,
    pub idx_ct: u32,
    pub flux_ovl: u32,
    pub sck: Option<Seq<u8>>,
    pub ick: Option<Seq<u8>>,
}

impl View for KfxFormat {
    type V = KfxFormatView;

    open spec fn view(&self) -> KfxFormatView {
        KfxFormatView {
            last_index_counter: self.last_index_counter,
            current_offset_idx: self.current_offset_idx as int,
            idx_ct: self.idx_ct,
            flux_ovl: self.flux_ovl,
            sck: opt_bytes(self.sck_text),
            ick: opt_bytes(self.ick_text),
        }
    }
}

/// The context before any block is read: no index seen, no clock information (the default
/// clocks apply).
pub open spec fn kfx_initial() -> KfxFormatView {
    KfxFormatView {
        last_index_counter: None,
        current_offset_idx: 0,
        idx_ct: 0,
        flux_ovl: 0,
        sck: None,
        ick: None,
    }
}

impl Default for KfxFormat {
    fn default() -> (r: Self)
        ensures
            r@ == kfx_initial(),
    {
        KfxFormat {
            last_index_counter: None,
            current_offset_idx: 0,
            idx_ct: 0,
            flux_ovl: 0,
            sck_text: None,
            ick_text: None,
        }
    }
}

impl KfxFormat {
    /// The file extensions advertised for the format.
    pub fn extensions() -> (r: Vec<&'static str>)
        ensures
            str_views(r@) == seq!["raw"@],
    {
        let r = vec!["raw"];
        assert(str_views(r@) =~= seq!["raw"@]);
        r
    }

    /// The capability flags of the format.
    pub fn capabilities() -> (r: FormatCaps)
        ensures
            r@ == bitstream_bits(),
    {
        bitstream_flags()
    }

    /// Whether `image` starts with an out-of-stream block marker, the byte 0x0D.
    pub fn detect(image: &[u8]) -> (r: bool)
        ensures
            r == (image@.len() > 0 && image@[0] == 0x0D),
    {
        image.len() > 0 && image[0] == 0x0D
    }
}

/// The kind of an out-of-stream block of a Kryoflux stream.
#[derive(Clone, Copy, Debug, PartialEq, Eq, Structural)]
pub enum OsbBlock {
    Invalid(u8),
    StreamInfo,
    Index,
    StreamEnd,
    KfInfo,
    Eof,
}

/// The kind of out-of-stream block that a type byte names.
pub open spec fn osb_spec(b: u8) -> OsbBlock {
    if b == 0x01 {
        OsbBlock::StreamInfo
    } else if b == 0x02 {
        OsbBlock::Index
    } else if b == 0x03 {
        OsbBlock::StreamEnd
    } else if b == 0x04 {
        OsbBlock::KfInfo
    } else if b == 0x0D {
        OsbBlock::Eof
    } else {
        OsbBlock::Invalid(b)
    }
}

/// Read the type byte of an out-of-stream block at `pos`; past the end of the data it reads
/// as 0, which is invalid.
pub fn read_osb_block(data: &[u8], pos: usize) -> (r: OsbBlock)
    ensures
        r == osb_spec(if pos < data@.len() { data@[pos as int] } else { 0u8 }),
{
    let byte = if pos < data.len() { data[pos] } else { 0 };
    match byte {
        0x01 => OsbBlock::StreamInfo,
        0x02 => OsbBlock::Index,
        0x03 => OsbBlock::StreamEnd,
        0x04 => OsbBlock::KfInfo,
        0x0D => OsbBlock::Eof,
        _ => OsbBlock::Invalid(byte),
    }
}

/// A stream information block.
#[derive(Clone, Copy, Debug)]
pub struct StreamInfoBlock {
    pub size: u16,
    pub stream_pos: u32,
    pub transfer_time_ms: u32,
}

/// An index block.
#[derive(Clone, Copy, Debug)]
pub struct IndexBlock {
    pub size: u16,
    pub stream_pos: u32,
    pub sample_counter: u32,
    pub index_counter: u32,
}

/// A stream end block.
#[derive(Clone, Copy, Debug)]
pub struct StreamEndBlock {
    pub size: u16,
    pub stream_pos: u32,
    pub hw_status_code: u32,
}

/// A Kryoflux information block; a nul terminated text follows it.
#[derive(Clone, Copy, Debug)]
pub struct KfInfoBlock {
    pub size: u16,
}

/// An end of file block.
#[derive(Clone, Copy, Debug)]
pub struct EofBlock {
    pub size: u16,
}

impl StreamInfoBlock {
    /// Read the block at `pos`.
    pub fn read(data: &[u8], pos: usize) -> (r: Option<StreamInfoBlock>)
        ensures
            pos + 10 > data@.len() ==> r is None,
            pos + 10 <= data@.len() ==> r == Some(StreamInfoBlock {
                size: le16(data@, pos as int) as u16,
                stream_pos: le32(data@, pos + 2) as u32,
                transfer_time_ms: le32(data@, pos + 6) as u32,
            }),
    {
        if pos > data.len() || data.len() - pos < 10 {
            return None;
        }
        let size = match read_u16_le(data, pos) { Some(v) => v, None => return None };
        let stream_pos = match read_u32_le(data, pos + 2) { Some(v) => v, None => return None };
        let transfer_time_ms = match read_u32_le(data, pos + 6) { Some(v) => v, None => return None };
        Some(StreamInfoBlock { size, stream_pos, transfer_time_ms })
    }
}

impl IndexBlock {
    /// Read the block at `pos`.
    pub fn read(data: &[u8], pos: usize) -> (r: Option<IndexBlock>)
        ensures
            pos + 14 > data@.len() ==> r is None,
            pos + 14 <= data@.len() ==> r == Some(IndexBlock {
                size: le16(data@, pos as int) as u16,
                stream_pos: le32(data@, pos + 2) as u32,
                sample_counter: le32(data@, pos + 6) as u32,
                index_counter: le32(data@, pos + 10) as u32,
            }),
    {
        if pos > data.len() || data.len() - pos < 14 {
            return None;
        }
        let size = match read_u16_le(data, pos) { Some(v) => v, None => return None };
        let stream_pos = match read_u32_le(data, pos + 2) { Some(v) => v, None => return None };
        let sample_counter = match read_u32_le(data, pos + 6) { Some(v) => v, None => return None };
        let index_counter = match read_u32_le(data, pos + 10) { Some(v) => v, None => return None };
        Some(IndexBlock { size, stream_pos, sample_counter, index_counter })
    }
}

impl StreamEndBlock {
    /// Read the block at `pos`.
    pub fn read(data: &[u8], pos: usize) -> (r: Option<StreamEndBlock>)
        ensures
            pos + 10 > data@.len() ==> r is None,
            pos + 10 <= data@.len() ==> r == Some(StreamEndBlock {
                size: le16(data@, pos as int) as u16,
                stream_pos: le32(data@, pos + 2) as u32,
                hw_status_code: le32(data@, pos + 6) as u32,
            }),
    {
        if pos > data.len() || data.len() - pos < 10 {
            return None;
        }
        let size = match read_u16_le(data, pos) { Some(v) => v, None => return None };
        let stream_pos = match read_u32_le(data, pos + 2) { Some(v) => v, None => return None };
        let hw_status_code = match read_u32_le(data, pos + 6) { Some(v) => v, None => return None };
        Some(StreamEndBlock { size, stream_pos, hw_status_code })
    }
}


impl KfInfoBlock {
    /// Read the block header at `pos`.
    pub fn read(data: &[u8], pos: usize) -> (r: Option<KfInfoBlock>)
        ensures
            pos + 2 > data@.len() ==> r is None,
            pos + 2 <= data@.len() ==> r == Some(KfInfoBlock { size: le16(data@, pos as int) as u16 }),
    {
        match read_u16_le(data, pos) {
            Some(size) => Some(KfInfoBlock { size }),
            None => None,
        }
    }
}

/// The byte at `i`, or 0 past the end of `s` (a failed read).
pub open spec fn byte_or_zero(s: Seq<u8>, i: int) -> u8 {
    if 0 <= i < s.len() {
        s[i]
    } else {
        0
    }
}

/// The position `k` bytes after `p`, held to the end of `s`: a seek past the end leaves
/// nothing to read.
pub open spec fn skip(s: Seq<u8>, p: int, k: int) -> int {
    if p + k <= s.len() {
        p + k
    } else {
        s.len() as int
    }
}

/// The index of the first nul byte of `s` at `from` or later, or the end of `s`.
pub open spec fn nul_index(s: Seq<u8>, from: int) -> int
    decreases s.len() - from,
{
    if from < 0 || from >= s.len() {
        s.len() as int
    } else if s[from] == 0 {
        from
    } else {
        nul_index(s, from + 1)
    }
}

/// The position after the nul terminated text at `from` (the end, where no nul follows).
pub open spec fn text_next(s: Seq<u8>, from: int) -> int {
    if nul_index(s, from) < s.len() {
        nul_index(s, from) + 1
    } else {
        s.len() as int
    }
}

/// The one element of an option, as a sequence.
pub open spec fn opt_seq<T>(o: Option<T>) -> Seq<T> {
    match o {
        Some(x) => seq![x],
        None => Seq::empty(),
    }
}

proof fn lemma_nul_index(s: Seq<u8>, from: int)
    requires
        0 <= from <= s.len(),
    ensures
        from <= nul_index(s, from) <= s.len(),
        nul_index(s, from) < s.len() ==> s[nul_index(s, from)] == 0,
    decreases s.len() - from,
{
    if from < s.len() && s[from] != 0 {
        lemma_nul_index(s, from + 1);
    }
}

fn skip_exec(s: &[u8], p: usize, k: usize) -> (r: usize)
    requires
        p <= s.len(),
    ensures
        r == skip(s@, p as int, k as int),
{
    if k <= s.len() - p {
        p + k
    } else {
        s.len()
    }
}

fn nul_index_exec(s: &[u8], from: usize) -> (r: usize)
    requires
        from <= s.len(),
    ensures
        r == nul_index(s@, from as int),
        from <= r <= s.len(),
{
    let mut q = from;
    while q < s.len() && s[q] != 0
        invariant
            from <= q <= s.len(),
            nul_index(s@, from as int) == nul_index(s@, q as int),
        decreases s.len() - q,
    {
        q += 1;
    }
    q
}

/// What reading one block of a stream for its index positions gives.
pub enum KfxIndexStep {
    /// The read failed.
    Fail(KfxError),
    /// The end of file block.
    Eof,
    /// The block was read: where the next one starts, the stream position after it, the last
    /// index counter, and the index position and index counter difference it gives, if any.
    Next { pos: int, sp: int, last: Option<u32>, offset: Option<u64>, delta: Option<u32> },
}

/// Read the block at `pos` for its index position: `sp` is the stream position (the count of
/// stream bytes, which out-of-stream blocks do not advance) and `last` the counter of the
/// last index block.
pub open spec fn kfx_index_step(s: Seq<u8>, pos: int, sp: int, last: Option<u32>) -> KfxIndexStep {
    if pos < 0 || pos >= s.len() {
        KfxIndexStep::Fail(KfxError::UnexpectedEof)
    } else {
        let b = s[pos];
        if b <= 7 || b == 9 {
            KfxIndexStep::Next { pos: skip(s, pos + 1, 1), sp: sp + 2, last, offset: None, delta: None }
        } else if b == 0x0A || b == 0x0C {
            KfxIndexStep::Next { pos: skip(s, pos + 1, 2), sp: sp + 3, last, offset: None, delta: None }
        } else if b == 0x0D {
            let p = skip(s, pos + 1, 1);
            match osb_spec(byte_or_zero(s, pos + 1)) {
                OsbBlock::Invalid(_) => KfxIndexStep::Next { pos: p, sp, last, offset: None, delta: None },
                OsbBlock::StreamInfo => if p + 10 <= s.len() {
                    KfxIndexStep::Next { pos: p + 10, sp, last, offset: None, delta: None }
                } else {
                    KfxIndexStep::Fail(KfxError::UnexpectedEof)
                },
                OsbBlock::StreamEnd => if p + 10 <= s.len() {
                    KfxIndexStep::Next { pos: p + 10, sp, last, offset: None, delta: None }
                } else {
                    KfxIndexStep::Fail(KfxError::UnexpectedEof)
                },
                OsbBlock::Index => if p + 14 <= s.len() {
                    let ic = le32(s, p + 10) as u32;
                    KfxIndexStep::Next {
                        pos: p + 14,
                        sp,
                        last: Some(ic),
                        offset: Some(le32(s, p + 2) as u64),
                        delta: match last {
                            Some(l) => Some(ic.wrapping_sub(l)),
                            None => None,
                        },
                    }
                } else {
                    KfxIndexStep::Fail(KfxError::UnexpectedEof)
                },
                OsbBlock::KfInfo => if p + 2 <= s.len() {
                    KfxIndexStep::Next { pos: text_next(s, p + 2), sp, last, offset: None, delta: None }
                } else {
                    KfxIndexStep::Fail(KfxError::UnexpectedEof)
                },
                OsbBlock::Eof => KfxIndexStep::Eof,
            }
        } else {
            KfxIndexStep::Next { pos: pos + 1, sp: sp + 1, last, offset: None, delta: None }
        }
    }
}

/// Read the blocks from `pos` to the end of file block, gathering the index positions and
/// the index counter differences after `offsets` and `deltas`.
pub open spec fn kfx_index_run(
    s: Seq<u8>,
    pos: int,
    sp: int,
    last: Option<u32>,
    offsets: Seq<u64>,
    deltas: Seq<u32>,
) -> Result<(Seq<u64>, Seq<u32>), KfxError>
    decreases s.len() - pos,
{
    match kfx_index_step(s, pos, sp, last) {
        KfxIndexStep::Fail(e) => Err(e),
        KfxIndexStep::Eof => Ok((offsets, deltas)),
        KfxIndexStep::Next { pos: p, sp: sp2, last: l2, offset, delta } => if p <= pos || p > s.len() {
            Err(KfxError::UnexpectedEof)
        } else {
            kfx_index_run(s, p, sp2, l2, offsets + opt_seq(offset), deltas + opt_seq(delta))
        },
    }
}

/// The index positions and index counter differences of a whole stream.
pub open spec fn kfx_index_scan(s: Seq<u8>) -> Result<(Seq<u64>, Seq<u32>), KfxError> {
    kfx_index_run(s, 0, 0, None, Seq::empty(), Seq::empty())
}

/// A block read for its index position advances the reading, and the stream position by no
/// more than the bytes it took (past the end of the stream, by at most three).
proof fn lemma_kfx_index_step(s: Seq<u8>, pos: int, sp: int, last: Option<u32>)
    requires
        0 <= pos < s.len(),
        sp <= pos,
    ensures
        kfx_index_step(s, pos, sp, last) matches KfxIndexStep::Next { pos: p, sp: sp2, .. } ==> (
            pos < p <= s.len() && (p < s.len() ==> sp2 <= p) && sp2 <= sp + 3),
{
    if s[pos] == 0x0D && pos + 2 <= s.len() && osb_spec(s[pos + 1]) == OsbBlock::KfInfo && pos + 4 <= s.len() {
        lemma_nul_index(s, pos + 4);
    }
}

impl KfxFormat {
    /// Read the block at `pos` for its index position (see [kfx_index_step]): an index block
    /// adds its stream position to `index_offsets` and, after the first, the index clock
    /// ticks since the last one to `index_deltas`. Returns whether it was the end of file
    /// block.
    pub fn read_index_block(
        &mut self,
        image: &[u8],
        pos: &mut usize,
        index_offsets: &mut Vec<u64>,
        stream_position: &mut u64,
        index_deltas: &mut Vec<u32>,
    ) -> (r: Result<bool, KfxError>)
        requires
            *old(pos) <= image.len(),
            *old(stream_position) + 3 <= u64::MAX,
        ensures
            match kfx_index_step(image@, *old(pos) as int, *old(stream_position) as int, old(self).last_index_counter) {
                KfxIndexStep::Fail(e) => r == Err::<bool, KfxError>(e),
                KfxIndexStep::Eof => r == Ok::<bool, KfxError>(true),
                KfxIndexStep::Next { pos: p, sp, last, offset, delta } => r == Ok::<bool, KfxError>(false)
                    && *final(pos) == p
                    && *final(stream_position) == sp
                    && final(self).last_index_counter == last
                    && final(index_offsets)@ == old(index_offsets)@ + opt_seq(offset)
                    && final(index_deltas)@ == old(index_deltas)@ + opt_seq(delta),
            },
            r != Ok::<bool, KfxError>(false) ==> final(index_offsets)@ == old(index_offsets)@
                && final(index_deltas)@ == old(index_deltas)@
                && *final(stream_position) == *old(stream_position)
                && final(self).last_index_counter == old(self).last_index_counter,
            *final(pos) <= image.len(),
            final(self).current_offset_idx == old(self).current_offset_idx,
            final(self).idx_ct == old(self).idx_ct,
            final(self).flux_ovl == old(self).flux_ovl,
            final(self).sck_text == old(self).sck_text,
            final(self).ick_text == old(self).ick_text,
    {
        let p0 = *pos;
        if p0 >= image.len() {
            return Err(KfxError::UnexpectedEof);
        }
        let byte = image[p0];
        if byte <= 7 || byte == 9 {
            *pos = skip_exec(image, p0 + 1, 1);
            *stream_position = *stream_position + 2;
        } else if byte == 0x0A || byte == 0x0C {
            *pos = skip_exec(image, p0 + 1, 2);
            *stream_position = *stream_position + 3;
        } else if byte == 0x0D {
            let p = skip_exec(image, p0 + 1, 1);
            match read_osb_block(image, p0 + 1) {
                OsbBlock::Invalid(_) => {
                    *pos = p;
                },
                OsbBlock::StreamInfo => {
                    if StreamInfoBlock::read(image, p).is_none() {
                        return Err(KfxError::UnexpectedEof);
                    }
                    *pos = p + 10;
                },
                OsbBlock::StreamEnd => {
                    if StreamEndBlock::read(image, p).is_none() {
                        return Err(KfxError::UnexpectedEof);
                    }
                    *pos = p + 10;
                },
                OsbBlock::Index => {
                    let ib = match IndexBlock::read(image, p) {
                        Some(b) => b,
                        None => return Err(KfxError::UnexpectedEof),
                    };
                    match self.last_index_counter {
                        Some(l) => index_deltas.push(ib.index_counter.wrapping_sub(l)),
                        None => {},
                    }
                    index_offsets.push(ib.stream_pos as u64);
                    self.last_index_counter = Some(ib.index_counter);
                    *pos = p + 14;
                },
                OsbBlock::KfInfo => {
                    if KfInfoBlock::read(image, p).is_none() {
                        return Err(KfxError::UnexpectedEof);
                    }
                    let q = nul_index_exec(image, p + 2);
                    *pos = if q < image.len() { q + 1 } else { image.len() };
                },
                OsbBlock::Eof => {
                    return Ok(true);
                },
            }
        } else {
            *pos = p0 + 1;
            *stream_position = *stream_position + 1;
        }
        Ok(false)
    }
}


/// The state of the reading of a stream for its flux samples.
pub struct KfxBlockState {
    /// How many index positions the reading has passed.
    pub cur: int,
    /// How many revolutions it has started.
    pub idx_ct: u32,
    /// The overflow count pending for the next sample.
    pub ovl: u32,
    /// The clock rate texts of the last clock information read.
    pub sck: Option<Seq<u8>>,
    pub ick: Option<Seq<u8>>,
    /// Where the next block starts.
    pub pos: int,
    /// The stream position.
    pub sp: int,
    /// The flux samples (in sample clock ticks) of each revolution started, the first being
    /// the part of the stream before the first index position.
    pub streams: Seq<Seq<u32>>,
}

/// What reading one block of a stream for its flux samples gives.
pub enum KfxBlockStep {
    /// The read failed.
    Fail(KfxError),
    /// A counter would pass its largest value: the reading panics.
    Overflows,
    /// The end of file block, and the state there.
    Eof(KfxBlockState),
    /// The state after the block.
    Next(KfxBlockState),
}

/// Whether the reading has reached the next index position, which starts a revolution.
pub open spec fn kfx_starts_rev(offsets: Seq<u64>, st: KfxBlockState) -> bool {
    0 <= st.cur < offsets.len() && st.sp >= offsets[st.cur]
}

/// Start a revolution: a new, empty list of samples.
pub open spec fn kfx_start_rev(st: KfxBlockState) -> KfxBlockState {
    KfxBlockState {
        cur: st.cur + 1,
        idx_ct: (st.idx_ct + 1) as u32,
        streams: st.streams.push(Seq::empty()),
        ..st
    }
}

/// Add the flux sample of value `v`, with the pending overflow, to the current revolution;
/// the reading then continues at `pos` with stream position `sp`.
pub open spec fn kfx_flux(st: KfxBlockState, v: int, pos: int, sp: int) -> KfxBlockStep {
    if st.ovl + v > u32::MAX {
        KfxBlockStep::Overflows
    } else {
        KfxBlockStep::Next(KfxBlockState {
            ovl: 0,
            pos,
            sp,
            streams: st.streams.update(
                st.streams.len() - 1,
                st.streams.last().push((st.ovl + v) as u32),
            ),
            ..st
        })
    }
}

/// The clock rate texts after the information text `t`: a clock text in it sets both.
pub open spec fn kfx_info_clocks(sck: Option<Seq<u8>>, ick: Option<Seq<u8>>, t: Seq<u8>) -> (Option<Seq<u8>>, Option<Seq<u8>>) {
    match first_clock_match(t, 0) {
        Some(m) => (Some(t.subrange(m.0, m.0 + m.1)), Some(t.subrange(m.2, m.2 + m.3))),
        None => (sck, ick),
    }
}

/// The clock information of the text `t`, applied to the state.
pub open spec fn kfx_apply_info(st: KfxBlockState, t: Seq<u8>) -> KfxBlockState {
    KfxBlockState {
        sck: kfx_info_clocks(st.sck, st.ick, t).0,
        ick: kfx_info_clocks(st.sck, st.ick, t).1,
        ..st
    }
}

/// Read the out-of-stream block at `st.pos` (its marker byte); such blocks do not advance
/// the stream position.
pub open spec fn kfx_osb_step(s: Seq<u8>, st: KfxBlockState) -> KfxBlockStep {
    let p = skip(s, st.pos + 1, 1);
    match osb_spec(byte_or_zero(s, st.pos + 1)) {
        OsbBlock::Invalid(_) => KfxBlockStep::Next(KfxBlockState { pos: p, ..st }),
        OsbBlock::StreamInfo => if p + 10 <= s.len() {
            KfxBlockStep::Next(KfxBlockState { pos: p + 10, ..st })
        } else {
            KfxBlockStep::Fail(KfxError::UnexpectedEof)
        },
        OsbBlock::Index => if p + 14 <= s.len() {
            KfxBlockStep::Next(KfxBlockState { pos: p + 14, ..st })
        } else {
            KfxBlockStep::Fail(KfxError::UnexpectedEof)
        },
        OsbBlock::StreamEnd => if p + 10 <= s.len() {
            if le32(s, p + 6) == 1 || le32(s, p + 6) == 2 {
                KfxBlockStep::Fail(KfxError::ImageCorrupt)
            } else {
                KfxBlockStep::Next(KfxBlockState { pos: p + 10, ..st })
            }
        } else {
            KfxBlockStep::Fail(KfxError::UnexpectedEof)
        },
        OsbBlock::KfInfo => if p + 2 <= s.len() {
            KfxBlockStep::Next(KfxBlockState {
                pos: text_next(s, p + 2),
                ..kfx_apply_info(st, s.subrange(p + 2, nul_index(s, p + 2)))
            })
        } else {
            KfxBlockStep::Fail(KfxError::UnexpectedEof)
        },
        OsbBlock::Eof => KfxBlockStep::Eof(KfxBlockState { pos: p, ..st }),
    }
}

/// Read the block at `st.pos` (a revolution, if one starts here, already started).
pub open spec fn kfx_block_kind(s: Seq<u8>, st: KfxBlockState) -> KfxBlockStep {
    let pos = st.pos;
    let b = s[pos];
    if b <= 7 {
        if pos + 2 <= s.len() {
            kfx_flux(st, s[pos] * 256 + s[pos + 1], pos + 2, st.sp + 2)
        } else {
            KfxBlockStep::Fail(KfxError::UnexpectedEof)
        }
    } else if b == 8 {
        KfxBlockStep::Next(KfxBlockState { pos: pos + 1, sp: st.sp + 1, ..st })
    } else if b == 9 {
        KfxBlockStep::Next(KfxBlockState { pos: skip(s, pos + 1, 1), sp: st.sp + 2, ..st })
    } else if b == 0x0A {
        KfxBlockStep::Next(KfxBlockState { pos: skip(s, pos + 1, 2), sp: st.sp + 3, ..st })
    } else if b == 0x0B {
        KfxBlockStep::Next(KfxBlockState { ovl: st.ovl.saturating_add(0x10000), pos: pos + 1, ..st })
    } else if b == 0x0C {
        if pos + 3 <= s.len() {
            kfx_flux(st, s[pos + 1] * 256 + s[pos + 2], pos + 3, st.sp)
        } else {
            KfxBlockStep::Fail(KfxError::UnexpectedEof)
        }
    } else if b == 0x0D {
        kfx_osb_step(s, st)
    } else {
        kfx_flux(st, b as int, pos + 1, st.sp + 1)
    }
}

/// Read the block at `st.pos` for its flux samples, given the index positions of the stream.
pub open spec fn kfx_block_step(s: Seq<u8>, offsets: Seq<u64>, st: KfxBlockState) -> KfxBlockStep {
    if st.pos < 0 || st.pos >= s.len() {
        KfxBlockStep::Fail(KfxError::UnexpectedEof)
    } else if kfx_starts_rev(offsets, st) && st.idx_ct == u32::MAX {
        KfxBlockStep::Overflows
    } else if kfx_starts_rev(offsets, st) {
        kfx_block_kind(s, kfx_start_rev(st))
    } else {
        kfx_block_kind(s, st)
    }
}

/// The sample lists of a list of buffers.
pub open spec fn stream_views(v: Seq<Vec<u32>>) -> Seq<Seq<u32>> {
    v.map_values(|x: Vec<u32>| x@)
}

/// The reading state held by a context, a position, a stream position and sample lists.
pub open spec fn kfx_block_state(f: KfxFormat, pos: usize, sp: u64, streams: Seq<Vec<u32>>) -> KfxBlockState {
    KfxBlockState {
        cur: f.current_offset_idx as int,
        idx_ct: f.idx_ct,
        ovl: f.flux_ovl,
        sck: opt_bytes(f.sck_text),
        ick: opt_bytes(f.ick_text),
        pos: pos as int,
        sp: sp as int,
        streams: stream_views(streams),
    }
}

fn push_sample(streams: &mut Vec<Vec<u32>>, v: u32)
    requires
        old(streams)@.len() > 0,
    ensures
        stream_views(final(streams)@) == stream_views(old(streams)@).update(
            old(streams)@.len() - 1,
            stream_views(old(streams)@).last().push(v),
        ),
        final(streams)@.len() == old(streams)@.len(),
{
    let ghost before = stream_views(streams@);
    let mut last = match streams.pop() {
        Some(l) => l,
        None => Vec::new(),
    };
    last.push(v);
    streams.push(last);
    assert(stream_views(streams@) =~= before.update(before.len() - 1, before.last().push(v)));
}

impl KfxFormat {
    fn add_sample(&mut self, v: u32, streams: &mut Vec<Vec<u32>>)
        requires
            old(streams)@.len() > 0,
            old(self).flux_ovl + v <= u32::MAX,
        ensures
            stream_views(final(streams)@) == stream_views(old(streams)@).update(
                old(streams)@.len() - 1,
                stream_views(old(streams)@).last().push((old(self).flux_ovl + v) as u32),
            ),
            final(streams)@.len() == old(streams)@.len(),
            final(self).flux_ovl == 0,
            final(self).last_index_counter == old(self).last_index_counter,
            final(self).current_offset_idx == old(self).current_offset_idx,
            final(self).idx_ct == old(self).idx_ct,
            final(self).sck_text == old(self).sck_text,
            final(self).ick_text == old(self).ick_text,
    {
        push_sample(streams, self.flux_ovl + v);
        self.flux_ovl = 0;
    }

    /// Read the clock information text at `from` (see [kfx_apply_info]); returns where the
    /// reading continues.
    fn read_info_text(&mut self, image: &[u8], from: usize) -> (r: usize)
        requires
            from <= image.len(),
        ensures
            r == text_next(image@, from as int),
            (opt_bytes(final(self).sck_text), opt_bytes(final(self).ick_text)) == kfx_info_clocks(
                opt_bytes(old(self).sck_text),
                opt_bytes(old(self).ick_text),
                image@.subrange(from as int, nul_index(image@, from as int)),
            ),
            final(self).flux_ovl == old(self).flux_ovl,
            final(self).last_index_counter == old(self).last_index_counter,
            final(self).current_offset_idx == old(self).current_offset_idx,
            final(self).idx_ct == old(self).idx_ct,
    {
        let q = nul_index_exec(image, from);
        let text = copy_range(image, from, q - from);
        let (sck, ick) = kfx_parse_str(text.as_slice());
        match (sck, ick) {
            (Some(a), Some(b)) => {
                self.sck_text = Some(a);
                self.ick_text = Some(b);
            },
            _ => {},
        }
        if q < image.len() { q + 1 } else { image.len() }
    }
}


impl KfxFormat {
    /// Read the block at `pos` for its flux samples (see [kfx_block_step]), given the index
    /// positions of the stream: a flux block adds a sample to the last list of `streams`,
    /// and reaching the next index position first starts a new list. Returns whether it was
    /// the end of file block. Blocks on which a counter would overflow are left out.
    pub fn read_block(
        &mut self,
        image: &[u8],
        pos: &mut usize,
        index_offsets: &[u64],
        stream_position: &mut u64,
        streams: &mut Vec<Vec<u32>>,
    ) -> (r: Result<bool, KfxError>)
        requires
            *old(pos) <= image.len(),
            *old(stream_position) + 3 <= u64::MAX,
            old(streams)@.len() > 0,
            !(kfx_block_step(
                image@,
                index_offsets@,
                kfx_block_state(*old(self), *old(pos), *old(stream_position), old(streams)@),
            ) is Overflows),
        ensures
            match kfx_block_step(
                image@,
                index_offsets@,
                kfx_block_state(*old(self), *old(pos), *old(stream_position), old(streams)@),
            ) {
                KfxBlockStep::Fail(e) => r == Err::<bool, KfxError>(e),
                KfxBlockStep::Overflows => true,
                KfxBlockStep::Eof(st) => r == Ok::<bool, KfxError>(true)
                    && kfx_block_state(*final(self), *final(pos), *final(stream_position), final(streams)@) == st,
                KfxBlockStep::Next(st) => r == Ok::<bool, KfxError>(false)
                    && kfx_block_state(*final(self), *final(pos), *final(stream_position), final(streams)@) == st,
            },
            final(streams)@.len() >= old(streams)@.len(),
            *final(pos) <= image.len(),
            final(self).last_index_counter == old(self).last_index_counter,
    {
        let p0 = *pos;
        if p0 >= image.len() {
            return Err(KfxError::UnexpectedEof);
        }
        let byte = image[p0];
        if self.current_offset_idx < index_offsets.len()
            && *stream_position >= index_offsets[self.current_offset_idx]
        {
            let fresh: Vec<u32> = Vec::new();
            let ghost before = stream_views(streams@);
            streams.push(fresh);
            assert(stream_views(streams@) =~= before.push(Seq::empty()));
            self.current_offset_idx = self.current_offset_idx + 1;
            self.idx_ct = self.idx_ct + 1;
        }
        if byte <= 7 {
            if image.len() - p0 < 2 {
                return Err(KfxError::UnexpectedEof);
            }
            let v = byte as u32 * 256 + image[p0 + 1] as u32;
            self.add_sample(v, streams);
            *pos = p0 + 2;
            *stream_position = *stream_position + 2;
        } else if byte == 8 {
            *pos = p0 + 1;
            *stream_position = *stream_position + 1;
        } else if byte == 9 {
            *pos = skip_exec(image, p0 + 1, 1);
            *stream_position = *stream_position + 2;
        } else if byte == 0x0A {
            *pos = skip_exec(image, p0 + 1, 2);
            *stream_position = *stream_position + 3;
        } else if byte == 0x0B {
            self.flux_ovl = self.flux_ovl.saturating_add(0x10000);
            *pos = p0 + 1;
        } else if byte == 0x0C {
            if image.len() - p0 < 3 {
                return Err(KfxError::UnexpectedEof);
            }
            let v = image[p0 + 1] as u32 * 256 + image[p0 + 2] as u32;
            self.add_sample(v, streams);
            *pos = p0 + 3;
        } else if byte == 0x0D {
            let p = skip_exec(image, p0 + 1, 1);
            match read_osb_block(image, p0 + 1) {
                OsbBlock::Invalid(_) => {
                    *pos = p;
                },
                OsbBlock::StreamInfo => {
                    if StreamInfoBlock::read(image, p).is_none() {
                        return Err(KfxError::UnexpectedEof);
                    }
                    *pos = p + 10;
                },
                OsbBlock::Index => {
                    if IndexBlock::read(image, p).is_none() {
                        return Err(KfxError::UnexpectedEof);
                    }
                    *pos = p + 14;
                },
                OsbBlock::StreamEnd => {
                    let seb = match StreamEndBlock::read(image, p) {
                        Some(b) => b,
                        None => return Err(KfxError::UnexpectedEof),
                    };
                    if seb.hw_status_code == 1 || seb.hw_status_code == 2 {
                        return Err(KfxError::ImageCorrupt);
                    }
                    *pos = p + 10;
                },
                OsbBlock::KfInfo => {
                    if KfInfoBlock::read(image, p).is_none() {
                        return Err(KfxError::UnexpectedEof);
                    }
                    *pos = self.read_info_text(image, p + 2);
                },
                OsbBlock::Eof => {
                    *pos = p;
                    return Ok(true);
                },
            }
        } else {
            let v = byte as u32;
            self.add_sample(v, streams);
            *pos = p0 + 1;
            *stream_position = *stream_position + 1;
        }
        Ok(false)
    }
}


/// What reading a stream for its flux samples gives.
pub enum KfxRun {
    /// The state at the end of file block.
    Done(KfxBlockState),
    /// The reading failed.
    Failed(KfxError),
    /// A counter would pass its largest value.
    Overflows,
}

/// Read the blocks from `st.pos` to the end of file block for their flux samples.
pub open spec fn kfx_block_run(s: Seq<u8>, offsets: Seq<u64>, st: KfxBlockState) -> KfxRun
    decreases s.len() - st.pos,
{
    match kfx_block_step(s, offsets, st) {
        KfxBlockStep::Fail(e) => KfxRun::Failed(e),
        KfxBlockStep::Overflows => KfxRun::Overflows,
        KfxBlockStep::Eof(st2) => KfxRun::Done(st2),
        KfxBlockStep::Next(st2) => if st2.pos <= st.pos || st2.pos > s.len() {
            KfxRun::Failed(KfxError::UnexpectedEof)
        } else {
            kfx_block_run(s, offsets, st2)
        },
    }
}

/// The state at the start of the stream: one empty list of samples, for the part of the
/// stream before the first index position.
pub open spec fn kfx_block_initial() -> KfxBlockState {
    KfxBlockState {
        cur: 0,
        idx_ct: 0,
        ovl: 0,
        sck: None,
        ick: None,
        pos: 0,
        sp: 0,
        streams: seq![Seq::empty()],
    }
}

/// What reading a whole stream gives: it is read once for its index positions, then again
/// for its flux samples.
pub enum KfxScan {
    Done { offsets: Seq<u64>, deltas: Seq<u32>, st: KfxBlockState },
    Failed(KfxError),
    Overflows,
}

/// The outcome of reading the stream `s`.
pub open spec fn kfx_scan(s: Seq<u8>) -> KfxScan {
    match kfx_index_scan(s) {
        Err(e) => KfxScan::Failed(e),
        Ok((offsets, deltas)) => match kfx_block_run(s, offsets, kfx_block_initial()) {
            KfxRun::Done(st) => KfxScan::Done { offsets, deltas, st },
            KfxRun::Failed(e) => KfxScan::Failed(e),
            KfxRun::Overflows => KfxScan::Overflows,
        },
    }
}

/// A block read for its flux samples advances the reading, and the stream position by no
/// more than the bytes it took (past the end of the stream, by at most three).
proof fn lemma_kfx_block_step(s: Seq<u8>, offsets: Seq<u64>, st: KfxBlockState)
    requires
        0 <= st.pos < s.len(),
        st.sp <= st.pos,
        st.streams.len() > 0,
    ensures
        kfx_block_step(s, offsets, st) matches KfxBlockStep::Next(st2) ==> (
            st.pos < st2.pos <= s.len() && (st2.pos < s.len() ==> st2.sp <= st2.pos)
            && st2.sp <= st.sp + 3),
{
    if s[st.pos] == 0x0D && st.pos + 4 <= s.len() {
        lemma_nul_index(s, st.pos + 4);
    }
}

/// What reading a whole stream gives.
pub struct KfxStream {
    /// The flux samples, in sample clock ticks, of each revolution started; the first list
    /// holds those before the first index position.
    pub streams: Vec<Vec<u32>>,
    /// The stream positions of the index blocks.
    pub index_offsets: Vec<u64>,
    /// The index clock ticks between each index block and the one before it.
    pub index_deltas: Vec<u32>,
    /// How many revolutions were started.
    pub idx_ct: u32,
    /// The texts of the clock rates of the last clock information (the defaults apply where
    /// there is none).
    pub sck_text: Option<Vec<u8>>,
    pub ick_text: Option<Vec<u8>>,
}

fn scan_index_positions(image: &[u8]) -> (r: Result<(Vec<u64>, Vec<u32>), KfxError>)
    requires
        image.len() + 3 <= u64::MAX,
    ensures
        match kfx_index_scan(image@) {
            Ok((o, d)) => r matches Ok((ro, rd)) && ro@ == o && rd@ == d,
            Err(e) => r == Err::<(Vec<u64>, Vec<u32>), KfxError>(e),
        },
{
    let mut ctx = KfxFormat::default();
    let mut index_offsets: Vec<u64> = Vec::new();
    let mut index_deltas: Vec<u32> = Vec::new();
    let mut pos: usize = 0;
    let mut stream_position: u64 = 0;
    let ghost target = kfx_index_scan(image@);
    loop
        invariant
            pos <= image.len(),
            image.len() + 3 <= u64::MAX,
            pos < image.len() ==> stream_position <= pos,
            target == kfx_index_scan(image@),
            target == kfx_index_run(
                image@,
                pos as int,
                stream_position as int,
                ctx.last_index_counter,
                index_offsets@,
                index_deltas@,
            ),
        decreases image.len() - pos,
    {
        if pos >= image.len() {
            return Err(KfxError::UnexpectedEof);
        }
        proof {
            lemma_kfx_index_step(image@, pos as int, stream_position as int, ctx.last_index_counter);
        }
        match ctx.read_index_block(image, &mut pos, &mut index_offsets, &mut stream_position, &mut index_deltas) {
            Ok(true) => return Ok((index_offsets, index_deltas)),
            Ok(false) => {},
            Err(e) => return Err(e),
        }
    }
}

/// What reading a stream for its flux samples ended with.
enum KfxSamples {
    Done(KfxFormat, Vec<Vec<u32>>),
    Failed(KfxError),
    Overflows,
}

impl KfxFormat {
    /// Whether reading the block at `pos` would overflow a counter.
    fn block_overflows(
        &self,
        image: &[u8],
        pos: usize,
        index_offsets: &[u64],
        stream_position: u64,
        streams: &Vec<Vec<u32>>,
    ) -> (r: bool)
        requires
            pos < image.len(),
        ensures
            r == (kfx_block_step(
                image@,
                index_offsets@,
                kfx_block_state(*self, pos, stream_position, streams@),
            ) is Overflows),
    {
        let starts = self.current_offset_idx < index_offsets.len()
            && stream_position >= index_offsets[self.current_offset_idx];
        if starts && self.idx_ct == u32::MAX {
            return true;
        }
        let ovl = self.flux_ovl as u64;
        let b = image[pos];
        if b <= 7 {
            image.len() - pos >= 2 && ovl + (b as u64 * 256 + image[pos + 1] as u64) > 0xFFFF_FFFF
        } else if b == 0x0C {
            image.len() - pos >= 3 && ovl + (image[pos + 1] as u64 * 256 + image[pos + 2] as u64) > 0xFFFF_FFFF
        } else if b <= 0x0D {
            false
        } else {
            ovl + b as u64 > 0xFFFF_FFFF
        }
    }
}

fn scan_flux_samples(image: &[u8], index_offsets: &[u64]) -> (r: KfxSamples)
    requires
        image.len() + 3 <= u64::MAX,
    ensures
        match kfx_block_run(image@, index_offsets@, kfx_block_initial()) {
            KfxRun::Done(st) => r matches KfxSamples::Done(f, v) && f.idx_ct == st.idx_ct && opt_bytes(f.sck_text) == st.sck
                && opt_bytes(f.ick_text) == st.ick && stream_views(v@) == st.streams,
            KfxRun::Failed(e) => r matches KfxSamples::Failed(e2) && e2 == e,
            KfxRun::Overflows => r is Overflows,
        },
{
    let mut ctx = KfxFormat::default();
    let mut streams: Vec<Vec<u32>> = Vec::new();
    let first: Vec<u32> = Vec::new();
    streams.push(first);
    assert(stream_views(streams@) =~= seq![Seq::<u32>::empty()]);
    let mut pos: usize = 0;
    let mut stream_position: u64 = 0;
    let ghost target = kfx_block_run(image@, index_offsets@, kfx_block_initial());
    assert(kfx_block_state(ctx, pos, stream_position, streams@) == kfx_block_initial());
    loop
        invariant
            pos <= image.len(),
            image.len() + 3 <= u64::MAX,
            pos < image.len() ==> stream_position <= pos,
            streams@.len() > 0,
            target == kfx_block_run(image@, index_offsets@, kfx_block_initial()),
            target == kfx_block_run(image@, index_offsets@, kfx_block_state(ctx, pos, stream_position, streams@)),
        decreases image.len() - pos,
    {
        if pos >= image.len() {
            return KfxSamples::Failed(KfxError::UnexpectedEof);
        }
        if ctx.block_overflows(image, pos, index_offsets, stream_position, &streams) {
            return KfxSamples::Overflows;
        }
        proof {
            lemma_kfx_block_step(image@, index_offsets@, kfx_block_state(ctx, pos, stream_position, streams@));
        }
        match ctx.read_block(image, &mut pos, index_offsets, &mut stream_position, &mut streams) {
            Ok(true) => return KfxSamples::Done(ctx, streams),
            Ok(false) => {},
            Err(e) => return KfxSamples::Failed(e),
        }
    }
}

impl KfxFormat {
    /// Read a whole Kryoflux stream: once for its index positions (see [kfx_index_scan]),
    /// then again for its flux samples, which the index positions divide into revolutions
    /// (see [kfx_block_run]). Streams on which a counter would overflow are left out.
    pub fn scan_stream(image: &[u8]) -> (r: Result<KfxStream, KfxError>)
        requires
            image.len() + 3 <= u64::MAX,
            !(kfx_scan(image@) is Overflows),
        ensures
            match kfx_scan(image@) {
                KfxScan::Done { offsets, deltas, st } => r matches Ok(k) && k.index_offsets@ == offsets
                    && k.index_deltas@ == deltas && stream_views(k.streams@) == st.streams
                    && k.idx_ct == st.idx_ct && opt_bytes(k.sck_text) == st.sck && opt_bytes(k.ick_text) == st.ick,
                KfxScan::Failed(e) => r == Err::<KfxStream, KfxError>(e),
                KfxScan::Overflows => true,
            },
    {
        let (index_offsets, index_deltas) = match scan_index_positions(image) {
            Ok(x) => x,
            Err(e) => return Err(e),
        };
        let (ctx, streams) = match scan_flux_samples(image, index_offsets.as_slice()) {
            KfxSamples::Done(c, v) => (c, v),
            KfxSamples::Failed(e) => return Err(e),
            KfxSamples::Overflows => return Err(KfxError::UnexpectedEof),
        };
        Ok(KfxStream {
            streams,
            index_offsets,
            index_deltas,
            idx_ct: ctx.idx_ct,
            sck_text: ctx.sck_text,
            ick_text: ctx.ick_text,
        })
    }
}

impl KfxFormat {
    /// Whether reading the stream would overflow a counter (see [kfx_scan]): the overflow
    /// count of a flux sample past 32 bits, or the count of revolutions past its largest value.
    pub fn scan_overflows(image: &[u8]) -> (r: bool)
        requires
            image.len() + 3 <= u64::MAX,
        ensures
            r == (kfx_scan(image@) is Overflows),
    {
        let (index_offsets, _index_deltas) = match scan_index_positions(image) {
            Ok(x) => x,
            Err(_) => return false,
        };
        match scan_flux_samples(image, index_offsets.as_slice()) {
            KfxSamples::Overflows => true,
            _ => false,
        }
    }
}

/// The number of complete revolutions of a stream: the sample lists after the first, no more
/// than the revolutions started less one and than the index counter differences.
pub open spec fn kfx_rev_count(streams: int, idx_ct: u32, deltas: int) -> int {
    let a = if streams > 0 { streams - 1 } else { 0 };
    let b = if a < idx_ct - 1 { a } else { idx_ct - 1 };
    if b < deltas { b } else { deltas }
}

impl KfxStream {
    /// The complete revolutions of the stream, each as its flux samples and the index clock
    /// ticks it took (see [kfx_rev_count]). A stream with fewer than two revolutions started,
    /// or fewer than two index positions, is refused; one with none started is left out, on
    /// which the count of complete revolutions would underflow.
    pub fn complete_revolutions(&self) -> (r: Result<Vec<(Vec<u32>, u32)>, KfxError>)
        requires
            self.idx_ct >= 1,
        ensures
            (self.idx_ct < 2 || self.index_offsets@.len() < 2) ==> r == Err::<Vec<(Vec<u32>, u32)>, KfxError>(
                KfxError::IncompatibleImage,
            ),
            !(self.idx_ct < 2 || self.index_offsets@.len() < 2) ==> match r {
                Ok(v) => v@.len() == kfx_rev_count(
                    self.streams@.len() as int,
                    self.idx_ct,
                    self.index_deltas@.len() as int,
                ) && forall|i: int| 0 <= i < v@.len() ==> (#[trigger] v@[i]).0@ == self.streams@[i + 1]@
                    && v@[i].1 == self.index_deltas@[i],
                Err(_) => false,
            },
    {
        let complete_revs = (self.idx_ct - 1) as usize;
        if complete_revs < 1 || self.index_offsets.len() < 2 {
            return Err(KfxError::IncompatibleImage);
        }
        let avail = if self.streams.len() > 0 { self.streams.len() - 1 } else { 0 };
        let n1 = if avail < complete_revs { avail } else { complete_revs };
        let n = if n1 < self.index_deltas.len() { n1 } else { self.index_deltas.len() };
        let mut revs: Vec<(Vec<u32>, u32)> = Vec::new();
        let mut i: usize = 0;
        while i < n
            invariant
                n <= self.index_deltas@.len(),
                n == 0 || n + 1 <= self.streams@.len(),
                i <= n,
                revs@.len() == i,
                forall|j: int| 0 <= j < i ==> (#[trigger] revs@[j]).0@ == self.streams@[j + 1]@
                    && revs@[j].1 == self.index_deltas@[j],
            decreases n - i,
        {
            let samples = copy_samples(&self.streams[i + 1]);
            revs.push((samples, self.index_deltas[i]));
            i += 1;
        }
        Ok(revs)
    }
}

fn copy_samples(v: &Vec<u32>) -> (r: Vec<u32>)
    ensures
        r@ == v@,
{
    let mut out: Vec<u32> = Vec::new();
    let mut i: usize = 0;
    while i < v.len()
        invariant
            i <= v@.len(),
            out@ == v@.subrange(0, i as int),
        decreases v.len() - i,
    {
        out.push(v[i]);
        i += 1;
        assert(out@ =~= v@.subrange(0, i as int));
    }
    assert(v@.subrange(0, v@.len() as int) =~= v@);
    out
}

/// The data rate that a count of flux transitions per revolution suggests, if it is in one of
/// the known ranges.
pub open spec fn kfx_rate_spec(count: usize) -> Option<TrackDataRate> {
    if 35000 <= count <= 60000 {
        Some(TrackDataRate::Rate250Kbps)
    } else if 70000 <= count <= 120000 {
        Some(TrackDataRate::Rate500Kbps)
    } else if 140000 <= count <= 240000 {
        Some(TrackDataRate::Rate1000Kbps)
    } else {
        None
    }
}

/// The data rate that a count of flux transitions per revolution suggests.
pub fn kfx_transition_ct_to_bitrate(count: usize) -> (r: Option<TrackDataRate>)
    ensures
        r == kfx_rate_spec(count),
{
    if 35000 <= count && count <= 60000 {
        Some(TrackDataRate::Rate250Kbps)
    } else if 70000 <= count && count <= 120000 {
        Some(TrackDataRate::Rate500Kbps)
    } else if 140000 <= count && count <= 240000 {
        Some(TrackDataRate::Rate1000Kbps)
    } else {
        None
    }
}


/// The length of the run of ASCII digits of `s` from `i` on.
pub open spec fn digit_run(s: Seq<u8>, i: int) -> nat
    decreases s.len() - i,
{
    if 0 <= i < s.len() && is_digit(s[i]) {
        1 + digit_run(s, i + 1)
    } else {
        0
    }
}

/// The length of the decimal number (digits, a dot, digits) that starts at `i`, if one does.
pub open spec fn decimal_len(s: Seq<u8>, i: int) -> Option<nat> {
    let a = digit_run(s, i);
    if a >= 1 && i + a < s.len() && s[i + a] == 0x2E && digit_run(s, i + a + 1) >= 1 {
        Some(a + 1 + digit_run(s, i + a + 1))
    } else {
        None
    }
}

/// Whether the bytes of `lit` stand in `s` at `i`.
pub open spec fn lit_at(s: Seq<u8>, i: int, lit: Seq<u8>) -> bool {
    0 <= i && i + lit.len() <= s.len() && s.subrange(i, i + lit.len()) == lit
}

/// The text `sck=`.
pub open spec fn sck_lit() -> Seq<u8> {
    seq![0x73u8, 0x63, 0x6B, 0x3D]
}

/// The text `, ick=`.
pub open spec fn ick_lit() -> Seq<u8> {
    seq![0x2Cu8, 0x20, 0x69, 0x63, 0x6B, 0x3D]
}

/// The spans (start and length) of the two numbers of a clock text
/// `sck=<decimal>, ick=<decimal>` that starts at `i`, if one does.
pub open spec fn clock_match_at(s: Seq<u8>, i: int) -> Option<(int, int, int, int)> {
    if lit_at(s, i, sck_lit()) && decimal_len(s, i + 4) is Some {
        let n1 = decimal_len(s, i + 4).unwrap();
        let j = i + 4 + n1;
        if lit_at(s, j, ick_lit()) && decimal_len(s, j + 6) is Some {
            Some((i + 4, n1 as int, j + 6, decimal_len(s, j + 6).unwrap() as int))
        } else {
            None
        }
    } else {
        None
    }
}

/// The first clock text of `s` that starts at `from` or later.
pub open spec fn first_clock_match(s: Seq<u8>, from: int) -> Option<(int, int, int, int)>
    decreases s.len() - from,
{
    if from < 0 || from >= s.len() {
        None
    } else if clock_match_at(s, from) is Some {
        clock_match_at(s, from)
    } else {
        first_clock_match(s, from + 1)
    }
}

fn digit_run_at(s: &[u8], i: usize) -> (r: usize)
    requires
        i <= s.len(),
    ensures
        r == digit_run(s@, i as int),
        i + r <= s.len(),
{
    let mut j = i;
    while j < s.len() && s[j] >= 0x30 && s[j] <= 0x39
        invariant
            i <= j <= s.len(),
            digit_run(s@, i as int) == (j - i) + digit_run(s@, j as int),
        decreases s.len() - j,
    {
        j += 1;
    }
    j - i
}

fn lit_at_exec(s: &[u8], i: usize, lit: &[u8]) -> (r: bool)
    ensures
        r == lit_at(s@, i as int, lit@),
{
    if i > s.len() || s.len() - i < lit.len() {
        return false;
    }
    let mut k: usize = 0;
    while k < lit.len()
        invariant
            i + lit.len() <= s.len(),
            k <= lit@.len(),
            forall|m: int| 0 <= m < k ==> s@[i + m] == lit@[m],
        decreases lit.len() - k,
    {
        if s[i + k] != lit[k] {
            assert(s@.subrange(i as int, i + lit@.len())[k as int] != lit@[k as int]);
            return false;
        }
        k += 1;
    }
    assert(s@.subrange(i as int, i + lit@.len()) =~= lit@);
    true
}

fn decimal_len_at(s: &[u8], i: usize) -> (r: Option<usize>)
    requires
        i <= s.len(),
    ensures
        decimal_len(s@, i as int) == (match r {
            Some(n) => Some(n as nat),
            None => None::<nat>,
        }),
        r matches Some(n) ==> i + n <= s.len(),
{
    let a = digit_run_at(s, i);
    if a >= 1 && i + a < s.len() && s[i + a] == 0x2E {
        let b = digit_run_at(s, i + a + 1);
        if b >= 1 {
            return Some(a + 1 + b);
        }
    }
    None
}

fn clock_match(s: &[u8], i: usize, sck: &[u8], ick: &[u8]) -> (r: Option<(usize, usize, usize, usize)>)
    requires
        i <= s.len(),
        sck@ == sck_lit(),
        ick@ == ick_lit(),
    ensures
        clock_match_at(s@, i as int) == (match r {
            Some(t) => Some((t.0 as int, t.1 as int, t.2 as int, t.3 as int)),
            None => None::<(int, int, int, int)>,
        }),
        r matches Some(t) ==> t.0 + t.1 <= s.len() && t.2 + t.3 <= s.len(),
{
    if !lit_at_exec(s, i, sck) {
        return None;
    }
    let n1 = match decimal_len_at(s, i + 4) {
        Some(n) => n,
        None => return None,
    };
    let j = i + 4 + n1;
    if !lit_at_exec(s, j, ick) {
        return None;
    }
    let n2 = match decimal_len_at(s, j + 6) {
        Some(n) => n,
        None => return None,
    };
    Some((i + 4, n1, j + 6, n2))
}

/// Find the clock text `sck=<decimal>, ick=<decimal>` in an information text of a stream and
/// return the texts of its two numbers, the sample clock and the index clock (in Hz). Where
/// the text holds none, neither is returned.
pub fn kfx_parse_str(s: &[u8]) -> (r: (Option<Vec<u8>>, Option<Vec<u8>>))
    ensures
        match first_clock_match(s@, 0) {
            Some(m) => (r.0 matches Some(a) && a@ == s@.subrange(m.0, m.0 + m.1))
                && (r.1 matches Some(b) && b@ == s@.subrange(m.2, m.2 + m.3)),
            None => r.0 is None && r.1 is None,
        },
{
    let sck: Vec<u8> = vec![0x73, 0x63, 0x6B, 0x3D];
    let ick: Vec<u8> = vec![0x2C, 0x20, 0x69, 0x63, 0x6B, 0x3D];
    assert(sck@ =~= sck_lit());
    assert(ick@ =~= ick_lit());
    let mut i: usize = 0;
    while i < s.len()
        invariant
            i <= s.len(),
            first_clock_match(s@, 0) == first_clock_match(s@, i as int),
            sck@ == sck_lit(),
            ick@ == ick_lit(),
        decreases s.len() - i,
    {
        match clock_match(s, i, sck.as_slice(), ick.as_slice()) {
            Some((a, n1, b, n2)) => {
                return (Some(copy_range(s, a, n1)), Some(copy_range(s, b, n2)));
            },
            None => {},
        }
        i += 1;
    }
    (None, None)
}

} // verus!
