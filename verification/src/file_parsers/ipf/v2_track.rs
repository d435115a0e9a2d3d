//! Decoding the tracks of IPF encoder version 2 images: the gap and data stream elements of
//! each block, turned into writes of the track's bit stream.
use vstd::prelude::*;
use crate::file_parsers::ipf::data_block::{BlockDescriptor, BLOCK_BACKWARD_GAP, BLOCK_DATA_IN_BITS, BLOCK_FORWARD_GAP};
use crate::file_parsers::ipf::data_record::DataRecord;
use crate::file_parsers::ipf::image_record::ImageRecord;
use crate::file_parsers::ipf::info_record::{EncoderType, InfoRecord};
use crate::file_parsers::ipf::ipf::{GapFillDirection, IpfError, IpfParser};
use crate::types::DiskCh;
use crate::file_parsers::ipf::stream_element::{
    data_element_at, gap_element_at, DataSample, DataStreamElement, DataType, GapSample, GapSampleView,
    GapStreamElement, GapType,
};

verus! {

/// The bitcells of one MFM encoded byte.
pub const MFM_BYTE_LEN: usize = 16;

/// A write into a track's bit stream at a bit position: bytes that are already MFM encoded
/// (`raw`), or bytes to be MFM encoded.
#[derive(Clone, Debug, PartialEq, Eq)]
pub struct IpfTrackWrite {
    pub raw: bool,
    pub cursor: usize,
    pub data: Vec<u8>,
}

/// A write into a track's bit stream, as plain values.
pub struct TrackWriteView {
    pub raw: bool,
    pub cursor: int,
    pub data: Seq<u8>,
}

/// The writes of a list, as plain values.
pub open spec fn write_views(v: Seq<IpfTrackWrite>) -> Seq<TrackWriteView> {
    v.map_values(|w: IpfTrackWrite| TrackWriteView { raw: w.raw, cursor: w.cursor as int, data: w.data@ })
}

/// The bit pattern `bits` repeated `n` times.
pub open spec fn repeat_bits(bits: Seq<bool>, n: nat) -> Seq<bool> {
    Seq::new(bits.len() * n, |i: int| bits[i % (bits.len() as int)])
}

/// What reading a list of gap elements gives.
pub enum GapRun {
    /// The last pattern built, and where the reading stopped.
    Done { pattern: Seq<bool>, end: int },
    Failed(IpfError),
    /// The size of a repeated pattern would pass the largest `usize`: the reading panics.
    Overflows,
}

/// Read the gap elements from `pos` on, up to a null element or one without samples: a
/// repeat count applies to the next sample pattern (which is taken once where none came
/// before it), and each sample pattern, repeated, replaces the pattern built so far.
pub open spec fn gap_run(s: Seq<u8>, pos: int, repeat: Option<nat>, pattern: Seq<bool>) -> GapRun
    decreases s.len() - pos,
{
    match gap_element_at(s, pos) {
        None => GapRun::Failed(IpfError::ReadError),
        Some((e, next)) => if (e.head.gap_type == GapType::End && e.head.data_size_width == 0) || e.sample is None {
            GapRun::Done { pattern, end: next }
        } else if next <= pos || next > s.len() {
            GapRun::Failed(IpfError::ReadError)
        } else {
            match e.sample.unwrap() {
                GapSampleView::RepeatCt(ct) => gap_run(s, next, Some(ct), pattern),
                GapSampleView::Sample(bits) => {
                    let r: nat = match repeat {
                        Some(c) => c,
                        None => 1,
                    };
                    if bits.len() * r > usize::MAX {
                        GapRun::Overflows
                    } else {
                        gap_run(s, next, None, repeat_bits(bits, r))
                    }
                },
            }
        },
    }
}

/// The pattern `bits` repeated `r` times.
fn repeat_pattern(bits: &Vec<bool>, r: u64) -> (v: Vec<bool>)
    requires
        bits@.len() * r <= usize::MAX,
    ensures
        v@ == repeat_bits(bits@, r as nat),
{
    let len = bits.len();
    let mut out: Vec<bool> = Vec::new();
    if len == 0 {
        assert(bits@.len() * (r as nat) == 0) by (nonlinear_arith)
            requires
                bits@.len() == 0,
        ;
        assert(out@ =~= repeat_bits(bits@, r as nat));
        return out;
    }
    assert(r <= usize::MAX) by (nonlinear_arith)
        requires
            len >= 1,
            len * r <= usize::MAX,
    ;
    let n = len * (r as usize);
    let mut i: usize = 0;
    while i < n
        invariant
            len == bits@.len(),
            len > 0,
            n == len * r,
            i <= n,
            out@.len() == i,
            forall|k: int| 0 <= k < i ==> out@[k] == repeat_bits(bits@, r as nat)[k],
        decreases n - i,
    {
        out.push(bits[i % len]);
        i += 1;
    }
    assert(out@ =~= repeat_bits(bits@, r as nat));
    out
}

/// The repeat count of a gap reading, as a plain value.
pub open spec fn repeat_view(r: Option<u64>) -> Option<nat> {
    match r {
        Some(c) => Some(c as nat),
        None => None,
    }
}

/// What reading a list of data elements gives.
pub enum V2DataRun {
    /// The decoded byte count (doubled, the count of MFM bytes), the cursor after the last
    /// element, and the writes.
    Done { decoded: int, cursor: int, writes: Seq<TrackWriteView> },
    Failed(IpfError),
    /// A count would pass the largest `usize`: the decoding panics.
    Overflows,
}

/// The end of a list of data elements.
pub open spec fn v2_data_finish(decoded: int, cursor: int, writes: Seq<TrackWriteView>) -> V2DataRun {
    if decoded * 2 > usize::MAX {
        V2DataRun::Overflows
    } else {
        V2DataRun::Done { decoded: decoded * 2, cursor, writes }
    }
}

/// Decode the data elements from `pos` on, the first read with samples in bytes (`in_bits`
/// false) and the others as `flag` says. A sync element is written raw (its bytes are MFM
/// already) and counts half its bytes; data and gap elements are written to be encoded;
/// other elements only count their bytes. Each decoded byte moves the cursor by one MFM byte.
/// A null element, or an end element, ends the list.
pub open spec fn v2_data_run(
    s: Seq<u8>,
    pos: int,
    in_bits: bool,
    flag: bool,
    decoded: int,
    cursor: int,
    writes: Seq<TrackWriteView>,
) -> V2DataRun
    decreases s.len() - pos,
{
    match data_element_at(s, pos, in_bits) {
        None => V2DataRun::Failed(IpfError::ReadError),
        Some((e, next)) => if e.head.data_type == DataType::End && e.head.data_size_width == 0 {
            v2_data_finish(decoded, cursor, writes)
        } else if e.sample is None {
            V2DataRun::Failed(IpfError::MissingSamples)
        } else if e.head.data_type == DataType::End {
            v2_data_finish(decoded, cursor, writes)
        } else {
            let d = e.sample.unwrap();
            let wrote: int = if e.head.data_type == DataType::Sync {
                (d.len() / 2) as int
            } else {
                d.len() as int
            };
            let w2 = if e.head.data_type == DataType::Sync {
                writes.push(TrackWriteView { raw: true, cursor, data: d })
            } else if e.head.data_type == DataType::Data || e.head.data_type == DataType::Gap {
                writes.push(TrackWriteView { raw: false, cursor, data: d })
            } else {
                writes
            };
            if cursor + wrote * 16 > usize::MAX {
                V2DataRun::Overflows
            } else if next <= pos || next > s.len() {
                V2DataRun::Failed(IpfError::ReadError)
            } else {
                v2_data_run(s, next, flag, flag, decoded + wrote, cursor + wrote * 16, w2)
            }
        },
    }
}

/// Whether decoding the data elements at `pos` goes on to read a second element (which
/// needs the block's flags).
pub open spec fn v2_reads_next(s: Seq<u8>, pos: int) -> bool {
    data_element_at(s, pos, false) matches Some((e, _)) && !(e.head.data_type == DataType::End
        && e.head.data_size_width == 0) && e.sample is Some && e.head.data_type != DataType::End
}

/// Whether a block's flags say that its data samples are bits.
pub open spec fn data_in_bits(b: BlockDescriptor) -> bool {
    b.block_flags matches Some(f) && f.bits & BLOCK_DATA_IN_BITS == BLOCK_DATA_IN_BITS
}

/// What reading a list of gap elements ended with.
enum GapOutcome {
    Done(Vec<bool>, usize),
    Failed(IpfError),
    Overflows,
}

fn gap_list(image: &[u8], pos: usize) -> (r: GapOutcome)
    ensures
        match gap_run(image@, pos as int, None, Seq::empty()) {
            GapRun::Done { pattern, end } => r matches GapOutcome::Done(v, e) && v@ == pattern && e == end,
            GapRun::Failed(e) => r matches GapOutcome::Failed(e2) && e2 == e,
            GapRun::Overflows => r is Overflows,
        },
{
    let (mut elem, mut next) = match GapStreamElement::read(image, pos) {
        Some(x) => x,
        None => return GapOutcome::Failed(IpfError::ReadError),
    };
    let mut cur = pos;
    let mut repeat_ct: Option<u64> = None;
    let mut bit_vec: Vec<bool> = Vec::new();
    let ghost target = gap_run(image@, pos as int, None, Seq::empty());
    assert(bit_vec@ =~= Seq::<bool>::empty());
    loop
        invariant
            target == gap_run(image@, pos as int, None, Seq::empty()),
            target == gap_run(image@, cur as int, repeat_view(repeat_ct), bit_vec@),
            gap_element_at(image@, cur as int) == Some((elem.view_of(), next as int)),
            cur < next <= image.len(),
        decreases image.len() - cur,
    {
        if elem.gap_head.is_null() {
            return GapOutcome::Done(bit_vec, next);
        }
        match &elem.gap_sample {
            None => return GapOutcome::Done(bit_vec, next),
            Some(GapSample::RepeatCt(ct)) => {
                repeat_ct = Some(*ct);
            },
            Some(GapSample::Sample(bits)) => {
                let r = match repeat_ct {
                    Some(c) => c,
                    None => 1,
                };
                match (bits.len() as u64).checked_mul(r) {
                    Some(n) => {
                        if n > usize::MAX as u64 {
                            return GapOutcome::Overflows;
                        }
                    },
                    None => return GapOutcome::Overflows,
                }
                repeat_ct = None;
                bit_vec = repeat_pattern(bits, r);
            },
        }
        assert(target == gap_run(image@, next as int, repeat_view(repeat_ct), bit_vec@));
        let (e2, n2) = match GapStreamElement::read(image, next) {
            Some(x) => x,
            None => return GapOutcome::Failed(IpfError::ReadError),
        };
        cur = next;
        elem = e2;
        next = n2;
    }
}

impl IpfParser {
    /// Read a list of gap elements from `pos` (see [gap_run]); returns the last pattern built
    /// and where the reading stopped. Lists on which a pattern's size would overflow are left
    /// out.
    pub fn read_v2_gap_elements(image: &[u8], pos: usize, direction: GapFillDirection) -> (r: Result<(Vec<bool>, usize), IpfError>)
        requires
            !(gap_run(image@, pos as int, None, Seq::empty()) is Overflows),
        ensures
            match gap_run(image@, pos as int, None, Seq::empty()) {
                GapRun::Done { pattern, end } => r matches Ok((v, e)) && v@ == pattern && e == end,
                GapRun::Failed(e) => r == Err::<(Vec<bool>, usize), IpfError>(e),
                GapRun::Overflows => true,
            },
    {
        match gap_list(image, pos) {
            GapOutcome::Done(v, e) => Ok((v, e)),
            GapOutcome::Failed(e) => Err(e),
            GapOutcome::Overflows => Err(IpfError::ReadError),
        }
    }

    /// Decode a list of data elements from `pos` (see [v2_data_run], the samples of all but
    /// the first in bits where the block's flags say so); returns the doubled count of
    /// decoded bytes and the writes, and moves `cursor` past them. Lists on which a count
    /// would overflow, or that need the flags of a block without them, are left out.
    pub fn decode_v2_data_elements(
        image: &[u8],
        pos: usize,
        block: &BlockDescriptor,
        cursor: &mut usize,
    ) -> (r: Result<(usize, Vec<IpfTrackWrite>), IpfError>)
        requires
            block.block_flags is Some || !v2_reads_next(image@, pos as int),
            !(v2_data_run(image@, pos as int, false, data_in_bits(*block), 0, *old(cursor) as int, Seq::empty()) is Overflows),
        ensures
            match v2_data_run(image@, pos as int, false, data_in_bits(*block), 0, *old(cursor) as int, Seq::empty()) {
                V2DataRun::Done { decoded, cursor: c, writes } => r matches Ok((d, w)) && d == decoded
                    && *final(cursor) == c && write_views(w@) == writes,
                V2DataRun::Failed(e) => r == Err::<(usize, Vec<IpfTrackWrite>), IpfError>(e),
                V2DataRun::Overflows => true,
            },
    {
        match data_elements(image, pos, block, cursor) {
            V2Outcome::Done(d, w) => Ok((d, w)),
            V2Outcome::Failed(e) => Err(e),
            V2Outcome::Overflows => Err(IpfError::ReadError),
        }
    }
}

/// What a decoding of version 2 data ended with.
enum V2Outcome {
    Done(usize, Vec<IpfTrackWrite>),
    Failed(IpfError),
    Overflows,
}

proof fn lemma_cursor_fits(cursor: int, wrote: int)
    requires
        0 <= cursor <= usize::MAX,
        0 <= wrote,
    ensures
        (wrote > (usize::MAX - cursor) / 16) == (cursor + wrote * 16 > usize::MAX),
{
    let m = usize::MAX - cursor;
    assert((wrote > m / 16) == (wrote * 16 > m)) by (nonlinear_arith)
        requires
            m >= 0,
            wrote >= 0,
    ;
}

fn data_elements(image: &[u8], pos: usize, block: &BlockDescriptor, cursor: &mut usize) -> (r: V2Outcome)
    requires
        block.block_flags is Some || !v2_reads_next(image@, pos as int),
    ensures
        match v2_data_run(image@, pos as int, false, data_in_bits(*block), 0, *old(cursor) as int, Seq::empty()) {
            V2DataRun::Done { decoded, cursor: c, writes } => r matches V2Outcome::Done(d, w) && d == decoded
                && *final(cursor) == c && write_views(w@) == writes,
            V2DataRun::Failed(e) => r matches V2Outcome::Failed(e2) && e2 == e,
            V2DataRun::Overflows => r is Overflows,
        },
{
    let ghost flag = data_in_bits(*block);
    let ghost target = v2_data_run(image@, pos as int, false, flag, 0, *cursor as int, Seq::empty());
    let (mut elem, mut next) = match DataStreamElement::read_args(image, pos, false) {
        Some(x) => x,
        None => return V2Outcome::Failed(IpfError::ReadError),
    };
    let mut cur = pos;
    let mut decoded: usize = 0;
    let mut writes: Vec<IpfTrackWrite> = Vec::new();
    let ghost mut in_bits = false;
    let ghost mut first = true;
    assert(write_views(writes@) =~= Seq::<TrackWriteView>::empty());
    loop
        invariant
            target == v2_data_run(image@, pos as int, false, flag, 0, *old(cursor) as int, Seq::empty()),
            flag == data_in_bits(*block),
            target == v2_data_run(image@, cur as int, in_bits, flag, decoded as int, *cursor as int, write_views(writes@)),
            data_element_at(image@, cur as int, in_bits) == Some((elem.view_of(), next as int)),
            cur < next <= image.len(),
            decoded <= cur,
            first ==> cur == pos && !in_bits,
            !first ==> in_bits == flag,
            block.block_flags is Some || !v2_reads_next(image@, pos as int),
        decreases image.len() - cur,
    {
        if elem.data_head.is_null() {
            if decoded > usize::MAX / 2 {
                return V2Outcome::Overflows;
            }
            return V2Outcome::Done(decoded * 2, writes);
        }
        let data_type = elem.data_head.data_type;
        let d: Vec<u8> = match elem.data_sample {
            Some(DataSample::Bytes(v)) => v,
            Some(DataSample::Bits(v)) => v,
            None => return V2Outcome::Failed(IpfError::MissingSamples),
        };
        if data_type == DataType::End {
            if decoded > usize::MAX / 2 {
                return V2Outcome::Overflows;
            }
            return V2Outcome::Done(decoded * 2, writes);
        }
        let ghost dv = d@;
        let ghost before = write_views(writes@);
        let len = d.len();
        let wrote = if data_type == DataType::Sync { len / 2 } else { len };
        proof {
            lemma_cursor_fits(*cursor as int, wrote as int);
        }
        if wrote > (usize::MAX - *cursor) / MFM_BYTE_LEN {
            return V2Outcome::Overflows;
        }
        if data_type == DataType::Sync {
            writes.push(IpfTrackWrite { raw: true, cursor: *cursor, data: d });
            assert(write_views(writes@) =~= before.push(TrackWriteView { raw: true, cursor: *cursor as int, data: dv }));
        } else if data_type == DataType::Data || data_type == DataType::Gap {
            writes.push(IpfTrackWrite { raw: false, cursor: *cursor, data: d });
            assert(write_views(writes@) =~= before.push(TrackWriteView { raw: false, cursor: *cursor as int, data: dv }));
        }
        decoded = decoded + wrote;
        *cursor = *cursor + wrote * MFM_BYTE_LEN;
        assert(target == v2_data_run(image@, next as int, flag, flag, decoded as int, *cursor as int, write_views(writes@)));
        let bits = match &block.block_flags {
            Some(f) => f.contains(BLOCK_DATA_IN_BITS),
            None => false,
        };
        let (e2, n2) = match DataStreamElement::read_args(image, next, bits) {
            Some(x) => x,
            None => return V2Outcome::Failed(IpfError::ReadError),
        };
        proof {
            in_bits = flag;
            first = false;
        }
        cur = next;
        elem = e2;
        next = n2;
    }
}

/// The position `off` bytes after `base`, held to the end of `s` (a read there fails).
pub open spec fn clamp_pos(s: Seq<u8>, base: int, off: int) -> int {
    if base + off <= s.len() {
        base + off
    } else {
        s.len() as int
    }
}

fn clamp_pos_exec(image: &[u8], base: usize, off: u32) -> (r: usize)
    ensures
        r == clamp_pos(image@, base as int, off as int),
{
    if base <= image.len() && off as usize <= image.len() - base {
        base + off as usize
    } else {
        image.len()
    }
}

/// What reading the gap lists of a block gives.
pub enum GapListsRun {
    /// The lists were read.
    Clean,
    Failed(IpfError),
    Overflows,
}

/// Read the gap lists of a block from `start`: the forward list where the flags have it,
/// then the backward list after it where they have that. Their patterns are not used.
pub open spec fn v2_gap_lists(s: Seq<u8>, start: int, flags: u32) -> GapListsRun {
    let fwd = if flags & BLOCK_FORWARD_GAP == BLOCK_FORWARD_GAP {
        gap_run(s, start, None, Seq::empty())
    } else {
        GapRun::Done { pattern: Seq::empty(), end: start }
    };
    match fwd {
        GapRun::Failed(e) => GapListsRun::Failed(e),
        GapRun::Overflows => GapListsRun::Overflows,
        GapRun::Done { end, .. } => if flags & BLOCK_BACKWARD_GAP == BLOCK_BACKWARD_GAP {
            match gap_run(s, end, None, Seq::empty()) {
                GapRun::Failed(e) => GapListsRun::Failed(e),
                GapRun::Overflows => GapListsRun::Overflows,
                GapRun::Done { .. } => GapListsRun::Clean,
            }
        } else {
            GapListsRun::Clean
        },
    }
}

/// What decoding a block gives.
pub enum V2BlockRun {
    /// The count that the block reports, the cursor after its data and gap, and its writes.
    Done { decoded: int, cursor: int, writes: Seq<TrackWriteView> },
    Failed(IpfError),
    Overflows,
}

/// Decode a version 2 block whose extra data block starts at `edb`: it must have a gap
/// offset, a cell type and flags; its gap lists (where it has gap bits) are read at the gap
/// offset, then its data elements at the data offset; the cursor then moves past the gap.
/// The count reported is twice the count of the data elements.
pub open spec fn v2_block_run(s: Seq<u8>, edb: int, b: BlockDescriptor, cursor: int) -> V2BlockRun {
    if b.gap_offset is None || b.cell_type is None || b.block_flags is None {
        V2BlockRun::Failed(IpfError::MissingDescriptorField)
    } else {
        let flags = b.block_flags.unwrap().bits;
        let gaps = if b.gap_bits > 0 {
            v2_gap_lists(s, clamp_pos(s, edb, b.gap_offset.unwrap() as int), flags)
        } else {
            GapListsRun::Clean
        };
        match gaps {
            GapListsRun::Failed(e) => V2BlockRun::Failed(e),
            GapListsRun::Overflows => V2BlockRun::Overflows,
            GapListsRun::Clean => match v2_data_run(
                s,
                clamp_pos(s, edb, b.data_offset as int),
                false,
                data_in_bits(b),
                0,
                cursor,
                Seq::empty(),
            ) {
                V2DataRun::Failed(e) => V2BlockRun::Failed(e),
                V2DataRun::Overflows => V2BlockRun::Overflows,
                V2DataRun::Done { decoded, cursor: c, writes } => if c + b.gap_bits > usize::MAX || decoded * 2 > usize::MAX {
                    V2BlockRun::Overflows
                } else {
                    V2BlockRun::Done { decoded: decoded * 2, cursor: c + b.gap_bits, writes }
                },
            },
        }
    }
}

fn data_block(image: &[u8], edb_offset: usize, block: &BlockDescriptor, cursor: &mut usize) -> (r: V2Outcome)
    ensures
        match v2_block_run(image@, edb_offset as int, *block, *old(cursor) as int) {
            V2BlockRun::Done { decoded, cursor: c, writes } => r matches V2Outcome::Done(d, w) && d == decoded
                && *final(cursor) == c && write_views(w@) == writes,
            V2BlockRun::Failed(e) => r matches V2Outcome::Failed(e2) && e2 == e,
            V2BlockRun::Overflows => r is Overflows,
        },
{
    let gap_offset = match block.gap_offset {
        Some(g) => g,
        None => return V2Outcome::Failed(IpfError::MissingDescriptorField),
    };
    if block.cell_type.is_none() {
        return V2Outcome::Failed(IpfError::MissingDescriptorField);
    }
    let flags = match block.block_flags {
        Some(f) => f,
        None => return V2Outcome::Failed(IpfError::MissingDescriptorField),
    };
    if block.gap_bits > 0 {
        let mut gpos = clamp_pos_exec(image, edb_offset, gap_offset);
        if flags.contains(BLOCK_FORWARD_GAP) {
            match gap_list(image, gpos) {
                GapOutcome::Done(_, end) => {
                    gpos = end;
                },
                GapOutcome::Failed(e) => return V2Outcome::Failed(e),
                GapOutcome::Overflows => return V2Outcome::Overflows,
            }
        }
        if flags.contains(BLOCK_BACKWARD_GAP) {
            match gap_list(image, gpos) {
                GapOutcome::Done(_, _) => {},
                GapOutcome::Failed(e) => return V2Outcome::Failed(e),
                GapOutcome::Overflows => return V2Outcome::Overflows,
            }
        }
    }
    let dpos = clamp_pos_exec(image, edb_offset, block.data_offset);
    let (decoded, writes) = match data_elements(image, dpos, block, cursor) {
        V2Outcome::Done(d, w) => (d, w),
        V2Outcome::Failed(e) => return V2Outcome::Failed(e),
        V2Outcome::Overflows => return V2Outcome::Overflows,
    };
    if block.gap_bits as usize > usize::MAX - *cursor || decoded > usize::MAX / 2 {
        return V2Outcome::Overflows;
    }
    *cursor = *cursor + block.gap_bits as usize;
    V2Outcome::Done(decoded * 2, writes)
}

impl IpfParser {
    /// Decode a version 2 block (see [v2_block_run]); returns the count it reports and its
    /// writes, and moves `cursor` past the block. Blocks on which a count would overflow are
    /// left out.
    pub fn decode_v2_data_block(
        image: &[u8],
        edb_offset: usize,
        block: &BlockDescriptor,
        cursor: &mut usize,
    ) -> (r: Result<(usize, Vec<IpfTrackWrite>), IpfError>)
        requires
            !(v2_block_run(image@, edb_offset as int, *block, *old(cursor) as int) is Overflows),
        ensures
            match v2_block_run(image@, edb_offset as int, *block, *old(cursor) as int) {
                V2BlockRun::Done { decoded, cursor: c, writes } => r matches Ok((d, w)) && d == decoded
                    && *final(cursor) == c && write_views(w@) == writes,
                V2BlockRun::Failed(e) => r == Err::<(usize, Vec<IpfTrackWrite>), IpfError>(e),
                V2BlockRun::Overflows => true,
            },
    {
        match data_block(image, edb_offset, block, cursor) {
            V2Outcome::Done(d, w) => Ok((d, w)),
            V2Outcome::Failed(e) => Err(e),
            V2Outcome::Overflows => Err(IpfError::ReadError),
        }
    }
}

/// The data record of a track with where its extra data block starts in the image and the
/// block descriptors read there.
pub struct DataRecordInfo {
    pub data_record: DataRecord,
    pub edb_offset: usize,
    pub blocks: Vec<BlockDescriptor>,
}

/// A decoded version 2 track: its cylinder and head, its size in bitcells, and the writes
/// of its bit stream.
pub struct IpfV2Track {
    pub ch: DiskCh,
    pub track_bits: u32,
    pub writes: Vec<IpfTrackWrite>,
}

/// What decoding the blocks of a track gives.
pub enum V2TrackRun {
    Done { cursor: int, writes: Seq<TrackWriteView> },
    Failed(IpfError),
    Overflows,
}

/// Decode the blocks `i` on of a track in order, each from the cursor where the last left
/// it, gathering their writes after `writes`.
pub open spec fn v2_track_run(
    s: Seq<u8>,
    edb: int,
    blocks: Seq<BlockDescriptor>,
    i: int,
    cursor: int,
    writes: Seq<TrackWriteView>,
) -> V2TrackRun
    decreases blocks.len() - i,
{
    if i < 0 || i >= blocks.len() {
        V2TrackRun::Done { cursor, writes }
    } else {
        match v2_block_run(s, edb, blocks[i], cursor) {
            V2BlockRun::Failed(e) => V2TrackRun::Failed(e),
            V2BlockRun::Overflows => V2TrackRun::Overflows,
            V2BlockRun::Done { cursor: c, writes: w, .. } => v2_track_run(s, edb, blocks, i + 1, c, writes + w),
        }
    }
}

/// Where the first block of a track is written: its start bit position, down to a multiple
/// of sixteen.
pub open spec fn v2_start_cursor(r: ImageRecord) -> int {
    r.start_bit_pos - r.start_bit_pos % 16
}

/// What decoding a track ended with.
enum TrackOutcome {
    Done(IpfV2Track),
    Failed(IpfError),
    Overflows,
}

fn v2_track(image: &[u8], image_record: &ImageRecord, data: &DataRecordInfo) -> (r: TrackOutcome)
    ensures
        match v2_track_run(image@, data.edb_offset as int, data.blocks@, 0, v2_start_cursor(*image_record), Seq::empty()) {
            V2TrackRun::Done { writes, .. } => r matches TrackOutcome::Done(t) && t.ch.c == image_record.track as u16
                && t.ch.h == image_record.side as u8 && t.track_bits == image_record.track_bits
                && write_views(t.writes@) == writes,
            V2TrackRun::Failed(e) => r matches TrackOutcome::Failed(e2) && e2 == e,
            V2TrackRun::Overflows => r is Overflows,
        },
{
    let start = image_record.start_bit_pos;
    let mut cursor: usize = (start - start % 16) as usize;
    let mut writes: Vec<IpfTrackWrite> = Vec::new();
    let ghost target = v2_track_run(image@, data.edb_offset as int, data.blocks@, 0, cursor as int, Seq::empty());
    assert(write_views(writes@) =~= Seq::<TrackWriteView>::empty());
    let mut i: usize = 0;
    while i < data.blocks.len()
        invariant
            target == v2_track_run(image@, data.edb_offset as int, data.blocks@, 0, v2_start_cursor(*image_record), Seq::empty()),
            i <= data.blocks@.len(),
            target == v2_track_run(image@, data.edb_offset as int, data.blocks@, i as int, cursor as int, write_views(writes@)),
        decreases data.blocks.len() - i,
    {
        let mut w = match data_block(image, data.edb_offset, &data.blocks[i], &mut cursor) {
            V2Outcome::Done(_, w) => w,
            V2Outcome::Failed(e) => return TrackOutcome::Failed(e),
            V2Outcome::Overflows => return TrackOutcome::Overflows,
        };
        let ghost before = write_views(writes@);
        let ghost added = write_views(w@);
        writes.append(&mut w);
        assert(write_views(writes@) =~= before + added);
        i += 1;
    }
    TrackOutcome::Done(IpfV2Track { ch: image_record.ch(), track_bits: image_record.track_bits, writes })
}

impl IpfParser {
    /// Decode a version 2 track (see [v2_track_run]), its first block written at
    /// [v2_start_cursor]. Tracks on which a count would overflow are left out.
    pub fn decode_v2_track(image: &[u8], image_record: &ImageRecord, data: &DataRecordInfo) -> (r: Result<IpfV2Track, IpfError>)
        requires
            !(v2_track_run(image@, data.edb_offset as int, data.blocks@, 0, v2_start_cursor(*image_record), Seq::empty()) is Overflows),
        ensures
            match v2_track_run(image@, data.edb_offset as int, data.blocks@, 0, v2_start_cursor(*image_record), Seq::empty()) {
                V2TrackRun::Done { writes, .. } => r matches Ok(t) && t.ch.c == image_record.track as u16
                    && t.ch.h == image_record.side as u8 && t.track_bits == image_record.track_bits
                    && write_views(t.writes@) == writes,
                V2TrackRun::Failed(e) => r == Err::<IpfV2Track, IpfError>(e),
                V2TrackRun::Overflows => true,
            },
    {
        match v2_track(image, image_record, data) {
            TrackOutcome::Done(t) => Ok(t),
            TrackOutcome::Failed(e) => Err(e),
            TrackOutcome::Overflows => Err(IpfError::ReadError),
        }
    }

    /// Whether decoding the version 2 track would overflow a count (see [v2_track_run]).
    pub fn v2_track_overflows(image: &[u8], image_record: &ImageRecord, data: &DataRecordInfo) -> (r: bool)
        ensures
            r == (v2_track_run(image@, data.edb_offset as int, data.blocks@, 0, v2_start_cursor(*image_record), Seq::empty()) is Overflows),
    {
        match v2_track(image, image_record, data) {
            TrackOutcome::Overflows => true,
            _ => false,
        }
    }
}


impl IpfParser {
    /// Decode one track as the encoder of the INFO record says: a version 2 track is decoded
    /// (see [v2_track_run]); a version 1 track is passed over (`None`), its decoding not being
    /// part of this library; an unknown encoder is an error. Version 2 tracks on which a count
    /// would overflow are left out.
    pub fn process_track(
        image: &[u8],
        info_record: &InfoRecord,
        image_record: &ImageRecord,
        data: &DataRecordInfo,
    ) -> (r: Result<Option<IpfV2Track>, IpfError>)
        requires
            info_record.encoder_type_enum == Some(EncoderType::V2) ==> !(v2_track_run(
                image@,
                data.edb_offset as int,
                data.blocks@,
                0,
                v2_start_cursor(*image_record),
                Seq::empty(),
            ) is Overflows),
        ensures
            match info_record.encoder_type_enum {
                Some(EncoderType::V2) => match v2_track_run(
                    image@,
                    data.edb_offset as int,
                    data.blocks@,
                    0,
                    v2_start_cursor(*image_record),
                    Seq::empty(),
                ) {
                    V2TrackRun::Done { writes, .. } => r matches Ok(Some(t)) && t.ch.c == image_record.track as u16
                        && t.ch.h == image_record.side as u8 && t.track_bits == image_record.track_bits
                        && write_views(t.writes@) == writes,
                    V2TrackRun::Failed(e) => r == Err::<Option<IpfV2Track>, IpfError>(e),
                    V2TrackRun::Overflows => true,
                },
                Some(EncoderType::V1) => r matches Ok(None),
                _ => r == Err::<Option<IpfV2Track>, IpfError>(IpfError::InvalidEncoder),
            },
    {
        match info_record.encoder_type_enum {
            Some(EncoderType::V2) => match Self::decode_v2_track(image, image_record, data) {
                Ok(t) => Ok(Some(t)),
                Err(e) => Err(e),
            },
            Some(EncoderType::V1) => Ok(None),
            _ => Err(IpfError::InvalidEncoder),
        }
    }
}

} // verus!
