//! Writing PCE bitstream images (PRI): a file header chunk, an optional comment chunk, for
//! each track a header chunk, a data chunk and, where it has weak bits, a weak mask chunk,
//! then the end chunk.
use vstd::prelude::*;
use vstd::string::StringSliceAdditionalSpecFns;
use vstd::utf8::encode_utf8;
use crate::file_parsers::pce::{be_bytes, pce_chunk_bytes, PceError};
use crate::file_parsers::pce::pri::{pri_chunk_id, PriChunkType, PriFormat};
use crate::types::DiskDataResolution;

verus! {

/// A track to be written: its address, its bit count and clock rate, its bit data and its
/// weak bits.
pub struct PriSaveTrack {
    pub cylinder: u16,
    pub head: u8,
    pub bit_count: usize,
    pub clock_rate: u32,
    pub data: Vec<u8>,
    pub weak: Vec<bool>,
}

/// A disk to be written as a PRI image.
pub struct PriSaveImage {
    /// The resolutions of the disk's tracks.
    pub resolutions: Vec<DiskDataResolution>,
    pub comment: Option<String>,
    pub tracks: Vec<PriSaveTrack>,
}

/// The sum of the weights of the set bits among the `n` weak bits from `j` on, the first
/// weighing `wt` and each next one half the one before.
pub open spec fn pri_mask_tail(w: Seq<bool>, j: int, n: nat, wt: nat) -> nat
    decreases n,
{
    if n == 0 {
        0
    } else {
        (if w[j] { wt } else { 0 }) + pri_mask_tail(w, j + 1, (n - 1) as nat, wt / 2)
    }
}

/// The weak mask table of the weak bits from `i` on: for each weak bit not yet covered, an
/// entry of its bit offset counted from 1 and a 32-bit mask with the top bit set for it and
/// the next up to 31 bits below it; each entry covers its bit and those 31.
pub open spec fn pri_weak_bytes(w: Seq<bool>, i: nat) -> Seq<u8>
    decreases w.len() - i,
{
    if i >= w.len() {
        Seq::empty()
    } else if !w[i as int] {
        pri_weak_bytes(w, i + 1)
    } else {
        let k: nat = if w.len() - i - 1 < 31 { (w.len() - i - 1) as nat } else { 31 };
        be_bytes((i + 1) as u32) + be_bytes((0x8000_0000 + pri_mask_tail(w, i + 1 as int, k, 0x4000_0000)) as u32)
            + pri_weak_bytes(w, i + 1 + k)
    }
}

/// Whether a track has a weak bit.
pub open spec fn pri_has_weak(w: Seq<bool>) -> bool {
    exists|i: int| 0 <= i < w.len() && w[i]
}

/// The chunks of a track: header (cylinder, head, bit count, clock rate), data, and the weak
/// mask table where the track has weak bits.
pub open spec fn pri_track_bytes(t: PriSaveTrack) -> Seq<u8> {
    pce_chunk_bytes(pri_chunk_id(PriChunkType::TrackHeader),
        be_bytes(t.cylinder as u32) + be_bytes(t.head as u32) + be_bytes(t.bit_count as u32) + be_bytes(t.clock_rate))
        + pce_chunk_bytes(pri_chunk_id(PriChunkType::TrackData), t.data@)
        + if pri_has_weak(t.weak@) {
            pce_chunk_bytes(pri_chunk_id(PriChunkType::WeakMask), pri_weak_bytes(t.weak@, 0))
        } else {
            Seq::empty()
        }
}

/// The chunks of the first `n` tracks.
pub open spec fn pri_tracks_bytes(ts: Seq<PriSaveTrack>, n: nat) -> Seq<u8>
    decreases n,
{
    if n == 0 { Seq::empty() } else { pri_tracks_bytes(ts, (n - 1) as nat) + pri_track_bytes(ts[n - 1]) }
}

/// The end chunk, with its fixed CRC.
pub open spec fn pri_end_bytes() -> Seq<u8> {
    pri_chunk_id(PriChunkType::End) + be_bytes(0) + be_bytes(0x3d64af78)
}

/// The PRI image of a disk: only a disk whose tracks are all bitstreams can be written. A file
/// header chunk of version 0, the comment in a text chunk if there is one, the tracks' chunks
/// and the end chunk.
pub open spec fn pri_save_spec(img: PriSaveImage) -> Result<Seq<u8>, PceError> {
    if !(img.resolutions@.len() == 1 && img.resolutions@[0] == DiskDataResolution::BitStream) {
        Err(PceError::UnsupportedFormat)
    } else {
        Ok(pce_chunk_bytes(pri_chunk_id(PriChunkType::FileHeader), seq![0u8, 0u8, 0u8, 0u8])
            + match img.comment {
                Some(c) => pce_chunk_bytes(pri_chunk_id(PriChunkType::Text), encode_utf8(c@)),
                None => Seq::empty(),
            }
            + pri_tracks_bytes(img.tracks@, img.tracks@.len()) + pri_end_bytes())
    }
}

/// Append the four big endian bytes of `x`.
fn push_be32(out: &mut Vec<u8>, x: u32)
    ensures
        final(out)@ == old(out)@ + be_bytes(x),
{
    out.push((x >> 24u32) as u8);
    out.push((x >> 16u32) as u8);
    out.push((x >> 8u32) as u8);
    out.push(x as u8);
    assert(final(out)@ =~= old(out)@ + be_bytes(x));
}

/// The weak mask table never takes more than eight bytes per weak bit.
proof fn lemma_weak_bytes_len(w: Seq<bool>, i: nat)
    requires
        i <= w.len(),
    ensures
        pri_weak_bytes(w, i).len() <= 8 * (w.len() - i),
    decreases w.len() - i,
{
    if i < w.len() {
        if !w[i as int] {
            lemma_weak_bytes_len(w, i + 1);
        } else {
            let k: nat = if w.len() - i - 1 < 31 { (w.len() - i - 1) as nat } else { 31 };
            lemma_weak_bytes_len(w, i + 1 + k);
        }
    }
}

/// The mask of the up to 31 weak bits after bit `i`.
fn weak_mask_at(w: &Vec<bool>, i: usize, k: usize) -> (r: u32)
    requires
        k <= 31,
        i + 1 + k <= w@.len(),
    ensures
        r == 0x8000_0000 + pri_mask_tail(w@, i + 1, k as nat, 0x4000_0000),
{
    let mut mask: u32 = 0x8000_0000;
    let mut wt: u32 = 0x4000_0000;
    let mut p: usize = 0;
    let wlen = w.len();
    while p < k
        invariant
            p <= k,
            k <= 31,
            wlen == w@.len(),
            i + 1 + k <= wlen,
            mask + 2 * wt <= 0x1_0000_0000,
            mask + pri_mask_tail(w@, i + 1 + p, (k - p) as nat, wt as nat)
                == 0x8000_0000 + pri_mask_tail(w@, i + 1, k as nat, 0x4000_0000),
        decreases k - p,
    {
        let ghost m0 = mask;
        let ghost wt0 = wt;
        if w[i + 1 + p] {
            mask = mask + wt;
        }
        wt = wt / 2;
        proof {
            assert(pri_mask_tail(w@, i + 1 + p, (k - p) as nat, wt0 as nat)
                == (if w@[i + 1 + p] { wt0 as nat } else { 0 }) + pri_mask_tail(w@, i + 1 + p + 1, (k - p - 1) as nat, wt as nat));
        }
        p += 1;
    }
    mask
}

/// The weak mask table of a track's weak bits (see [pri_weak_bytes]).
fn weak_table(w: &Vec<bool>) -> (r: Vec<u8>)
    requires
        w@.len() < u32::MAX,
    ensures
        r@ == pri_weak_bytes(w@, 0),
{
    let mut out: Vec<u8> = Vec::new();
    let mut i: usize = 0;
    let n = w.len();
    while i < n
        invariant
            i <= n,
            n == w@.len(),
            n < u32::MAX,
            pri_weak_bytes(w@, 0) == out@ + pri_weak_bytes(w@, i as nat),
        decreases n - i,
    {
        if !w[i] {
            i += 1;
        } else {
            let k: usize = if n - i - 1 < 31 { n - i - 1 } else { 31 };
            let mask = weak_mask_at(w, i, k);
            let ghost before = out@;
            push_be32(&mut out, (i + 1) as u32);
            push_be32(&mut out, mask);
            proof {
                assert(pri_weak_bytes(w@, i as nat) == be_bytes((i + 1) as u32) + be_bytes(mask)
                    + pri_weak_bytes(w@, (i + 1 + k) as nat));
                assert(before + pri_weak_bytes(w@, i as nat) =~= out@ + pri_weak_bytes(w@, (i + 1 + k) as nat));
            }
            i = i + 1 + k;
        }
    }
    proof { assert(out@ + pri_weak_bytes(w@, i as nat) =~= out@); }
    out
}

/// Whether any bit is weak.
fn any_weak(w: &Vec<bool>) -> (r: bool)
    ensures
        r == pri_has_weak(w@),
{
    let mut i: usize = 0;
    while i < w.len()
        invariant
            i <= w@.len(),
            forall|j: int| 0 <= j < i ==> !w@[j],
        decreases w.len() - i,
    {
        if w[i] {
            return true;
        }
        i += 1;
    }
    false
}

/// Append the chunks of a track (see [pri_track_bytes]).
fn write_track(out: &mut Vec<u8>, t: &PriSaveTrack)
    requires
        t.data@.len() <= u32::MAX,
        t.weak@.len() <= u32::MAX / 8,
    ensures
        final(out)@ == old(out)@ + pri_track_bytes(*t),
{
    let mut header: Vec<u8> = Vec::new();
    push_be32(&mut header, t.cylinder as u32);
    push_be32(&mut header, t.head as u32);
    push_be32(&mut header, t.bit_count as u32);
    push_be32(&mut header, t.clock_rate);
    assert(header@ =~= be_bytes(t.cylinder as u32) + be_bytes(t.head as u32) + be_bytes(t.bit_count as u32) + be_bytes(t.clock_rate));
    PriFormat::write_chunk_raw(out, PriChunkType::TrackHeader, header.as_slice());
    PriFormat::write_chunk_raw(out, PriChunkType::TrackData, t.data.as_slice());
    let ghost mid = out@;
    if any_weak(&t.weak) {
        let table = weak_table(&t.weak);
        proof { lemma_weak_bytes_len(t.weak@, 0); }
        PriFormat::write_chunk_raw(out, PriChunkType::WeakMask, table.as_slice());
    } else {
        assert(out@ =~= mid + Seq::<u8>::empty());
    }
    assert(final(out)@ =~= old(out)@ + pri_track_bytes(*t));
}

impl PriFormat {
    /// Write a disk as a PRI image (see [pri_save_spec]): the bytes of the image, or
    /// `UnsupportedFormat` for a disk that is not all bitstream. A comment may hold at most
    /// 1000 bytes, and each track's data must fit a chunk.
    pub fn save_image(image: &PriSaveImage) -> (r: Result<Vec<u8>, PceError>)
        requires
            image.comment matches Some(c) ==> encode_utf8(c@).len() <= 1000,
            forall|i: int| 0 <= i < image.tracks@.len() ==> (#[trigger] image.tracks@[i]).data@.len() <= u32::MAX
                && image.tracks@[i].weak@.len() <= u32::MAX / 8,
        ensures
            match pri_save_spec(*image) {
                Ok(b) => r matches Ok(v) && v@ == b,
                Err(e) => r == Err::<Vec<u8>, PceError>(e),
            },
    {
        if !(image.resolutions.len() == 1 && image.resolutions[0] == DiskDataResolution::BitStream) {
            return Err(PceError::UnsupportedFormat);
        }
        let mut out: Vec<u8> = Vec::new();
        let header: [u8; 4] = [0, 0, 0, 0];
        PriFormat::write_chunk_raw(&mut out, PriChunkType::FileHeader, &header);
        assert(header@ =~= seq![0u8, 0u8, 0u8, 0u8]);
        let ghost after_header = out@;
        match &image.comment {
            Some(c) => {
                PriFormat::write_text(&mut out, c.as_str());
            },
            None => {},
        }
        let ghost start = out@;
        let mut i: usize = 0;
        while i < image.tracks.len()
            invariant
                i <= image.tracks@.len(),
                forall|j: int| 0 <= j < image.tracks@.len() ==> (#[trigger] image.tracks@[j]).data@.len() <= u32::MAX
                    && image.tracks@[j].weak@.len() <= u32::MAX / 8,
                out@ == start + pri_tracks_bytes(image.tracks@, i as nat),
            decreases image.tracks.len() - i,
        {
            write_track(&mut out, &image.tracks[i]);
            i += 1;
            assert(out@ =~= start + pri_tracks_bytes(image.tracks@, i as nat));
        }
        let id: [u8; 4] = [0x45, 0x4E, 0x44, 0x20];
        out.push(id[0]);
        out.push(id[1]);
        out.push(id[2]);
        out.push(id[3]);
        push_be32(&mut out, 0);
        push_be32(&mut out, 0x3d64af78);
        proof {
            assert(start == after_header + match image.comment {
                Some(c) => pce_chunk_bytes(pri_chunk_id(PriChunkType::Text), encode_utf8(c@)),
                None => Seq::<u8>::empty(),
            });
        }
        assert(out@ =~= pri_save_spec(*image).unwrap());
        Ok(out)
    }
}

} // verus!
