//! Formats of the PCE emulator family: PSI sector images, PRI bitstream images and PFI flux
//! images. All three are sequences of chunks, each a four byte identifier, a big endian data
//! size, the data, and a big endian CRC over the identifier, size and data.
use vstd::prelude::*;
use crate::file_parsers::bytes::{be32, read_u32_be};

pub mod pfi;
pub mod pri;
pub mod pri_write;
pub mod psi;

verus! {

/// Why a PCE image could not be read.
#[derive(Clone, Copy, Debug, PartialEq, Eq, Structural)]
pub enum PceError {
    /// The image ends inside a chunk.
    Io,
    /// A chunk or a record is malformed.
    FormatParseError,
    /// A chunk's CRC does not match its contents.
    CrcError,
    /// The image does not start with the expected file header chunk.
    UnknownFormat,
    /// The format cannot be written.
    UnsupportedFormat,
}

/// One bit step of the PCE CRC: an MSB first CRC-32 with polynomial 0x1EDC6F41.
pub open spec fn pce_crc_bit(c: u32) -> u32 {
    if c & 0x8000_0000u32 != 0 {
        ((c << 1u32) ^ 0x1EDC_6F41u32) as u32
    } else {
        (c << 1u32) as u32
    }
}

/// The register after `k` bit steps.
pub open spec fn pce_crc_bits(c: u32, k: nat) -> u32
    decreases k,
{
    if k == 0 {
        c
    } else {
        pce_crc_bit(pce_crc_bits(c, (k - 1) as nat))
    }
}

/// The register after one more byte.
pub open spec fn pce_crc_byte(c: u32, b: u8) -> u32 {
    pce_crc_bits(c ^ ((b as u32) << 24u32), 8)
}

/// The register after all of `data`, started from `c`.
pub open spec fn pce_crc_fold(c: u32, data: Seq<u8>) -> u32
    decreases data.len(),
{
    if data.len() == 0 {
        c
    } else {
        pce_crc_byte(pce_crc_fold(c, data.drop_last()), data.last())
    }
}

/// The PCE CRC of `data`: the register started from zero.
pub open spec fn pce_crc_spec(data: Seq<u8>) -> u32 {
    pce_crc_fold(0, data)
}

/// The CRC of two pieces of data one after the other continues from the CRC of the first.
pub proof fn lemma_pce_crc_concat(c: u32, a: Seq<u8>, b: Seq<u8>)
    ensures
        pce_crc_fold(c, a + b) == pce_crc_fold(pce_crc_fold(c, a), b),
    decreases b.len(),
{
    if b.len() == 0 {
        assert(a + b =~= a);
    } else {
        lemma_pce_crc_concat(c, a, b.drop_last());
        assert((a + b).drop_last() =~= a + b.drop_last());
        assert((a + b).last() == b.last());
    }
}

/// The PCE CRC of `buf`.
pub fn pce_crc(buf: &[u8]) -> (r: u32)
    ensures
        r == pce_crc_spec(buf@),
{
    let mut crc: u32 = 0;
    let mut i: usize = 0;
    while i < buf.len()
        invariant
            i <= buf@.len(),
            crc == pce_crc_fold(0, buf@.take(i as int)),
        decreases buf.len() - i,
    {
        let mut x: u32 = crc ^ ((buf[i] as u32) << 24u32);
        let ghost start = x;
        let mut j: u32 = 0;
        while j < 8
            invariant
                j <= 8,
                x == pce_crc_bits(start, j as nat),
            decreases 8 - j,
        {
            if x & 0x8000_0000u32 != 0 {
                x = (x << 1u32) ^ 0x1EDC_6F41u32;
            } else {
                x = x << 1u32;
            }
            j += 1;
        }
        proof {
            assert(buf@.take(i as int + 1).drop_last() =~= buf@.take(i as int));
        }
        crc = x;
        i += 1;
    }
    proof {
        assert(buf@.take(buf@.len() as int) =~= buf@);
    }
    crc
}

/// Whether `id` holds the four bytes `a`, `b`, `c`, `d`.
pub fn id_is(id: &[u8; 4], a: u8, b: u8, c: u8, d: u8) -> (r: bool)
    ensures
        r == (id@ == seq![a, b, c, d]),
{
    let r = id[0] == a && id[1] == b && id[2] == c && id[3] == d;
    proof {
        if r {
            assert(id@ =~= seq![a, b, c, d]);
        }
    }
    r
}

/// The big endian bytes of `v`.
pub open spec fn be_bytes(v: u32) -> Seq<u8> {
    seq![(v >> 24u32) as u8, (v >> 16u32) as u8, (v >> 8u32) as u8, v as u8]
}

/// What reading a chunk at `pos` of `s` gives when chunk data may not exceed `max` bytes:
/// `None` for a good chunk, else the error, in the order the checks are made.
pub open spec fn pce_chunk_error(s: Seq<u8>, pos: int, max: int) -> Option<PceError> {
    if pos + 8 > s.len() {
        Some(PceError::Io)
    } else if be32(s, pos + 4) > max {
        Some(PceError::FormatParseError)
    } else if pos + 8 + be32(s, pos + 4) + 4 > s.len() {
        Some(PceError::Io)
    } else if be32(s, pos + 8 + be32(s, pos + 4)) as u32
        != pce_crc_spec(s.subrange(pos, pos + 8 + be32(s, pos + 4))) {
        Some(PceError::CrcError)
    } else {
        None
    }
}

/// A chunk as stored: its identifier, its data size, its data, and where the next chunk
/// starts.
pub struct PceRawChunk {
    pub id: [u8; 4],
    pub size: u32,
    pub data: Vec<u8>,
    pub next: usize,
}

/// Whether `c` is the good chunk stored at `pos` of `s`.
pub open spec fn pce_chunk_at(s: Seq<u8>, pos: int, c: PceRawChunk) -> bool {
    &&& c.id@ == s.subrange(pos, pos + 4)
    &&& c.size == be32(s, pos + 4) as u32
    &&& c.data@ == s.subrange(pos + 8, pos + 8 + c.size)
    &&& c.next == pos + 8 + c.size + 4
}

/// Read and check the chunk stored at `pos` of `image`, whose data may not exceed `max`
/// bytes.
pub fn read_pce_chunk(image: &[u8], pos: usize, max: usize) -> (r: Result<PceRawChunk, PceError>)
    requires
        max <= 0x1000000,
    ensures
        match pce_chunk_error(image@, pos as int, max as int) {
            Some(e) => r == Err::<PceRawChunk, PceError>(e),
            None => r matches Ok(c) && pce_chunk_at(image@, pos as int, c),
        },
{
    if pos > image.len() || image.len() - pos < 8 {
        return Err(PceError::Io);
    }
    let size = read_u32_be(image, pos + 4).unwrap();
    if size as usize > max {
        return Err(PceError::FormatParseError);
    }
    let n = size as usize;
    if image.len() - pos - 8 < n + 4 {
        return Err(PceError::Io);
    }
    let stored = read_u32_be(image, pos + 8 + n).unwrap();
    let mut covered: Vec<u8> = Vec::new();
    let mut i: usize = 0;
    while i < 8 + n
        invariant
            pos + 8 + n + 4 <= image.len(),
            i <= 8 + n,
            covered@ == image@.subrange(pos as int, pos + i),
        decreases 8 + n - i,
    {
        covered.push(image[pos + i]);
        i += 1;
        assert(covered@ =~= image@.subrange(pos as int, pos + i));
    }
    let crc = pce_crc(covered.as_slice());
    if stored != crc {
        return Err(PceError::CrcError);
    }
    let mut data: Vec<u8> = Vec::new();
    let mut k: usize = 0;
    while k < n
        invariant
            pos + 8 + n + 4 <= image.len(),
            k <= n,
            data@ == image@.subrange(pos + 8, pos + 8 + k),
        decreases n - k,
    {
        data.push(image[pos + 8 + k]);
        k += 1;
        assert(data@ =~= image@.subrange(pos + 8, pos + 8 + k));
    }
    let id = [image[pos], image[pos + 1], image[pos + 2], image[pos + 3]];
    assert(id@ =~= image@.subrange(pos as int, pos + 4));
    Ok(PceRawChunk { id, size, data, next: pos + 8 + n + 4 })
}

/// The stored form of a chunk with identifier `id` and `data`: the header, the data and
/// the CRC over both.
pub open spec fn pce_chunk_bytes(id: Seq<u8>, data: Seq<u8>) -> Seq<u8> {
    let covered = id + be_bytes(data.len() as u32) + data;
    covered + be_bytes(pce_crc_spec(covered))
}

/// Append to `out` the stored form of a chunk with identifier `id` and `data`.
pub fn write_pce_chunk(out: &mut Vec<u8>, id: [u8; 4], data: &[u8])
    requires
        data@.len() <= u32::MAX,
    ensures
        final(out)@ == old(out)@ + pce_chunk_bytes(id@, data@),
{
    let size = data.len() as u32;
    let mut chunk: Vec<u8> = Vec::new();
    chunk.push(id[0]);
    chunk.push(id[1]);
    chunk.push(id[2]);
    chunk.push(id[3]);
    chunk.push((size >> 24u32) as u8);
    chunk.push((size >> 16u32) as u8);
    chunk.push((size >> 8u32) as u8);
    chunk.push(size as u8);
    let mut i: usize = 0;
    while i < data.len()
        invariant
            i <= data@.len(),
            chunk@ == id@ + be_bytes(size) + data@.take(i as int),
        decreases data.len() - i,
    {
        chunk.push(data[i]);
        i += 1;
        assert(chunk@ =~= id@ + be_bytes(size) + data@.take(i as int));
    }
    assert(data@.take(data@.len() as int) =~= data@);
    let crc = pce_crc(chunk.as_slice());
    chunk.push((crc >> 24u32) as u8);
    chunk.push((crc >> 16u32) as u8);
    chunk.push((crc >> 8u32) as u8);
    chunk.push(crc as u8);
    assert(chunk@ =~= pce_chunk_bytes(id@, data@));
    let mut k: usize = 0;
    let ghost start = out@;
    while k < chunk.len()
        invariant
            k <= chunk@.len(),
            out@ == start + chunk@.take(k as int),
        decreases chunk.len() - k,
    {
        out.push(chunk[k]);
        k += 1;
        assert(out@ =~= start + chunk@.take(k as int));
    }
    assert(chunk@.take(chunk@.len() as int) =~= chunk@);
}

/// The big endian value of the bytes of `v` is `v`.
pub proof fn lemma_be_bytes(v: u32)
    ensures
        be32(be_bytes(v), 0) == v,
{
    let b0 = (v >> 24u32) as u8;
    let b1 = (v >> 16u32) as u8;
    let b2 = (v >> 8u32) as u8;
    let b3 = v as u8;
    assert(b0 as u32 * 0x100_0000u32 + b1 as u32 * 0x1_0000u32 + b2 as u32 * 0x100u32 + b3 as u32 == v)
        by (bit_vector)
        requires
            b0 == (v >> 24u32) as u8,
            b1 == (v >> 16u32) as u8,
            b2 == (v >> 8u32) as u8,
            b3 == v as u8,
    ;
    assert(be_bytes(v)[0] == b0 && be_bytes(v)[1] == b1 && be_bytes(v)[2] == b2 && be_bytes(v)[3] == b3);
}

/// A chunk that was written can be read back: the chunk stored by [write_pce_chunk] at the
/// end of any prefix passes every check of [read_pce_chunk], which gives back its identifier
/// and data, whatever follows it.
pub proof fn lemma_pce_chunk_round_trip(prefix: Seq<u8>, id: Seq<u8>, data: Seq<u8>, rest: Seq<u8>, max: int)
    requires
        id.len() == 4,
        data.len() <= max,
        max <= 0x1000000,
    ensures
        ({
            let s = prefix + pce_chunk_bytes(id, data) + rest;
            let p = prefix.len() as int;
            &&& pce_chunk_error(s, p, max) is None
            &&& s.subrange(p, p + 4) == id
            &&& be32(s, p + 4) == data.len()
            &&& s.subrange(p + 8, p + 8 + data.len()) == data
        }),
{
    let s = prefix + pce_chunk_bytes(id, data) + rest;
    let p = prefix.len() as int;
    let n = data.len() as int;
    let size = data.len() as u32;
    let covered = id + be_bytes(size) + data;
    let crc = pce_crc_spec(covered);
    lemma_be_bytes(size);
    lemma_be_bytes(crc);
    assert(s.subrange(p, p + 4) =~= id);
    assert(s.subrange(p + 4, p + 8) =~= be_bytes(size));
    assert(be32(s, p + 4) == be32(be_bytes(size), 0));
    assert(s.subrange(p + 8, p + 8 + n) =~= data);
    assert(s.subrange(p, p + 8 + n) =~= covered);
    assert(s.subrange(p + 8 + n, p + 12 + n) =~= be_bytes(crc));
    assert(be32(s, p + 8 + n) == be32(be_bytes(crc), 0));
}

} // verus!
