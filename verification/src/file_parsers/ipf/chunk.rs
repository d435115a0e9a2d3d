//! The chunks an IPF file is made of: a four byte identifier, a big endian size that counts
//! the twelve header bytes, a CRC-32 over the chunk with its CRC field zeroed, and the data.
use vstd::prelude::*;
use crate::file_parsers::bytes::{be32, read_u32_be};
use crate::file_parsers::ipf::crc::{ipf_crc_fold, ipf_crc_init, IpfCrcHasher};
use crate::file_parsers::ipf::ipf::{IpfError, IpfParser};

verus! {

/// The largest chunk size accepted, 1 MiB.
pub const MAXIMUM_CHUNK_SIZE: usize = 0x100000;

/// The kinds of chunk an IPF file holds.
#[derive(Clone, Copy, Debug, PartialEq, Eq, Structural)]
pub enum IpfChunkType {
    Caps,
    Dump,
    Data,
    Track,
    Info,
    Image,
    Ctei,
    Ctex,
}

/// The identifier bytes of each kind of chunk.
pub open spec fn chunk_id_spec(t: IpfChunkType) -> Seq<u8> {
    match t {
        IpfChunkType::Caps => seq![0x43u8, 0x41u8, 0x50u8, 0x53u8],
        IpfChunkType::Dump => seq![0x44u8, 0x55u8, 0x4Du8, 0x50u8],
        IpfChunkType::Data => seq![0x44u8, 0x41u8, 0x54u8, 0x41u8],
        IpfChunkType::Track => seq![0x54u8, 0x52u8, 0x43u8, 0x4Bu8],
        IpfChunkType::Info => seq![0x49u8, 0x4Eu8, 0x46u8, 0x4Fu8],
        IpfChunkType::Image => seq![0x49u8, 0x4Du8, 0x47u8, 0x45u8],
        IpfChunkType::Ctei => seq![0x43u8, 0x54u8, 0x45u8, 0x49u8],
        IpfChunkType::Ctex => seq![0x43u8, 0x54u8, 0x45u8, 0x58u8],
    }
}

/// The kind of chunk that `id` names, if any.
pub open spec fn chunk_type_of(id: Seq<u8>) -> Option<IpfChunkType> {
    if id == chunk_id_spec(IpfChunkType::Caps) {
        Some(IpfChunkType::Caps)
    } else if id == chunk_id_spec(IpfChunkType::Dump) {
        Some(IpfChunkType::Dump)
    } else if id == chunk_id_spec(IpfChunkType::Data) {
        Some(IpfChunkType::Data)
    } else if id == chunk_id_spec(IpfChunkType::Track) {
        Some(IpfChunkType::Track)
    } else if id == chunk_id_spec(IpfChunkType::Info) {
        Some(IpfChunkType::Info)
    } else if id == chunk_id_spec(IpfChunkType::Image) {
        Some(IpfChunkType::Image)
    } else if id == chunk_id_spec(IpfChunkType::Ctei) {
        Some(IpfChunkType::Ctei)
    } else if id == chunk_id_spec(IpfChunkType::Ctex) {
        Some(IpfChunkType::Ctex)
    } else {
        None
    }
}

/// Whether `id` holds the four bytes `a`, `b`, `c`, `d`.
fn id_is(id: &[u8; 4], a: u8, b: u8, c: u8, d: u8) -> (r: bool)
    ensures
        r == (id@ == seq![a, b, c, d]),
{
    let r = id[0] == a && id[1] == b && id[2] == c && id[3] == d;
    proof {
        if r {
            assert(id@ =~= seq![a, b, c, d]);
        }
    }
    r
}

impl IpfChunkType {
    /// The kind of chunk named by an identifier, if it names one.
    pub fn from_id(id: &[u8; 4]) -> (r: Option<IpfChunkType>)
        ensures
            r == chunk_type_of(id@),
    {
        if id_is(id, 0x43u8, 0x41u8, 0x50u8, 0x53u8) {
            Some(IpfChunkType::Caps)
        } else if id_is(id, 0x44u8, 0x55u8, 0x4Du8, 0x50u8) {
            Some(IpfChunkType::Dump)
        } else if id_is(id, 0x44u8, 0x41u8, 0x54u8, 0x41u8) {
            Some(IpfChunkType::Data)
        } else if id_is(id, 0x54u8, 0x52u8, 0x43u8, 0x4Bu8) {
            Some(IpfChunkType::Track)
        } else if id_is(id, 0x49u8, 0x4Eu8, 0x46u8, 0x4Fu8) {
            Some(IpfChunkType::Info)
        } else if id_is(id, 0x49u8, 0x4Du8, 0x47u8, 0x45u8) {
            Some(IpfChunkType::Image)
        } else if id_is(id, 0x43u8, 0x54u8, 0x45u8, 0x49u8) {
            Some(IpfChunkType::Ctei)
        } else if id_is(id, 0x43u8, 0x54u8, 0x45u8, 0x58u8) {
            Some(IpfChunkType::Ctex)
        } else {
            None
        }
    }

    /// The identifier bytes of the kind of chunk.
    pub fn id(self) -> (r: [u8; 4])
        ensures
            r@ == chunk_id_spec(self),
    {
        let r = match self {
            IpfChunkType::Caps => [0x43u8, 0x41u8, 0x50u8, 0x53u8],
            IpfChunkType::Dump => [0x44u8, 0x55u8, 0x4Du8, 0x50u8],
            IpfChunkType::Data => [0x44u8, 0x41u8, 0x54u8, 0x41u8],
            IpfChunkType::Track => [0x54u8, 0x52u8, 0x43u8, 0x4Bu8],
            IpfChunkType::Info => [0x49u8, 0x4Eu8, 0x46u8, 0x4Fu8],
            IpfChunkType::Image => [0x49u8, 0x4Du8, 0x47u8, 0x45u8],
            IpfChunkType::Ctei => [0x43u8, 0x54u8, 0x45u8, 0x49u8],
            IpfChunkType::Ctex => [0x43u8, 0x54u8, 0x45u8, 0x58u8],
        };
        assert(r@ =~= chunk_id_spec(self));
        r
    }
}

/// The big endian bytes of `v`.
pub open spec fn be_bytes(v: u32) -> Seq<u8> {
    seq![(v >> 24u32) as u8, (v >> 16u32) as u8, (v >> 8u32) as u8, v as u8]
}

/// What the CRC of a chunk covers: its header with the CRC field zeroed, then its data.
pub open spec fn chunk_crc_input(id: Seq<u8>, size: u32, data: Seq<u8>) -> Seq<u8> {
    id + be_bytes(size) + seq![0u8, 0u8, 0u8, 0u8] + data
}

/// The CRC that a chunk with these fields should carry.
pub open spec fn chunk_crc_spec(id: Seq<u8>, size: u32, data: Seq<u8>) -> u32 {
    !ipf_crc_fold(ipf_crc_init(), chunk_crc_input(id, size, data))
}

/// The number of data bytes read for a chunk of `size`, capped by `limit` where one is given.
pub open spec fn chunk_data_len(size: u32, limit: Option<u32>) -> int {
    let n: int = if size >= 12 { size - 12 } else { 0 };
    match limit {
        Some(l) => if l < n { l as int } else { n },
        None => n,
    }
}

/// A chunk as read from an IPF file.
pub struct IpfChunk {
    pub id: [u8; 4],
    pub chunk_type: Option<IpfChunkType>,
    pub size: u32,
    pub crc: u32,
    pub data: Vec<u8>,
    pub calculated_crc: u32,
}

/// Whether `c` is the chunk stored at `pos` of `s`, with data capped by `limit`, and `next`
/// the position after it.
pub open spec fn chunk_at(s: Seq<u8>, pos: int, limit: Option<u32>, c: IpfChunk, next: int) -> bool {
    let size = be32(s, pos + 4) as u32;
    let len = chunk_data_len(size, limit);
    &&& c.id@ == s.subrange(pos, pos + 4)
    &&& c.chunk_type == chunk_type_of(c.id@)
    &&& c.size == size
    &&& c.crc == be32(s, pos + 8) as u32
    &&& c.data@ == s.subrange(pos + 12, pos + 12 + len)
    &&& c.calculated_crc == chunk_crc_spec(c.id@, c.size, c.data@)
    &&& next == pos + 12 + len
}

/// Whether a whole chunk, with data capped by `limit`, is stored at `pos` of `s`.
pub open spec fn chunk_fits(s: Seq<u8>, pos: int, limit: Option<u32>) -> bool {
    pos + 12 <= s.len() && pos + 12 + chunk_data_len(be32(s, pos + 4) as u32, limit) <= s.len()
}

impl IpfChunk {
    /// The CRC that a chunk with these fields should carry.
    pub fn calculate_crc(id: &[u8; 4], size: u32, data: &[u8]) -> (r: u32)
        ensures
            r == chunk_crc_spec(id@, size, data@),
    {
        let mut hasher = IpfCrcHasher::new();
        hasher.update(id.as_slice());
        let size_bytes = [(size >> 24u32) as u8, (size >> 16u32) as u8, (size >> 8u32) as u8, size as u8];
        hasher.update(size_bytes.as_slice());
        let zeros = [0u8; 4];
        hasher.update(zeros.as_slice());
        hasher.update(data);
        proof {
            let a = id@;
            let b = be_bytes(size);
            let z = seq![0u8, 0u8, 0u8, 0u8];
            assert(size_bytes@ =~= b);
            assert(zeros@ =~= z);
            crate::file_parsers::ipf::crc::lemma_ipf_crc_concat(ipf_crc_init(), a, b);
            crate::file_parsers::ipf::crc::lemma_ipf_crc_concat(ipf_crc_init(), a + b, z);
            crate::file_parsers::ipf::crc::lemma_ipf_crc_concat(ipf_crc_init(), a + b + z, data@);
        }
        hasher.finalize()
    }

    /// Whether the chunk carries the CRC of its contents.
    pub fn is_crc_valid(&self) -> (r: bool)
        ensures
            r == (self.crc == self.calculated_crc),
    {
        self.crc == self.calculated_crc
    }

    /// Read the chunk stored at `pos` of `image`, keeping at most `limit` data bytes where a
    /// limit is given. `None` where the image ends before the chunk does.
    pub fn read_args(image: &[u8], pos: usize, limit: Option<u32>) -> (r: Option<(IpfChunk, usize)>)
        ensures
            chunk_fits(image@, pos as int, limit) <==> r is Some,
            r matches Some((c, next)) ==> chunk_at(image@, pos as int, limit, c, next as int),
    {
        if pos > image.len() || image.len() - pos < 12 {
            return None;
        }
        let id = [image[pos], image[pos + 1], image[pos + 2], image[pos + 3]];
        let size = read_u32_be(image, pos + 4).unwrap();
        let crc = read_u32_be(image, pos + 8).unwrap();
        let n: u32 = if size >= 12 { size - 12 } else { 0 };
        let len: u32 = match limit {
            Some(l) => if l < n { l } else { n },
            None => n,
        };
        if image.len() - pos - 12 < len as usize {
            return None;
        }
        let start = pos + 12;
        let mut data: Vec<u8> = Vec::new();
        let mut i: usize = 0;
        while i < len as usize
            invariant
                start + len <= image.len(),
                i <= len,
                data@ == image@.subrange(start as int, start + i),
            decreases len - i,
        {
            data.push(image[start + i]);
            i += 1;
            assert(data@ =~= image@.subrange(start as int, start + i));
        }
        let chunk_type = IpfChunkType::from_id(&id);
        let calculated_crc = IpfChunk::calculate_crc(&id, size, data.as_slice());
        assert(id@ =~= image@.subrange(pos as int, pos + 4));
        Some((IpfChunk { id, chunk_type, size, crc, data, calculated_crc }, start + len as usize))
    }
}

/// What reading a chunk in full at `pos` of `s` gives: a read error where the image ends
/// first, then a size error, then a CRC error.
pub open spec fn read_chunk_outcome(s: Seq<u8>, pos: int) -> Option<IpfError> {
    if !chunk_fits(s, pos, None) {
        Some(IpfError::ReadError)
    } else if be32(s, pos + 4) > MAXIMUM_CHUNK_SIZE {
        Some(IpfError::ChunkTooLarge)
    } else {
        let size = be32(s, pos + 4) as u32;
        let data = s.subrange(pos + 12, pos + 12 + chunk_data_len(size, None));
        if be32(s, pos + 8) as u32 != chunk_crc_spec(s.subrange(pos, pos + 4), size, data) {
            Some(IpfError::CrcMismatch)
        } else {
            None
        }
    }
}

impl IpfParser {
    /// Read and check the chunk stored at `pos` of `image`: its size must be within
    /// [MAXIMUM_CHUNK_SIZE] and its CRC must match its contents. Returns the chunk and the
    /// position after it.
    pub fn read_chunk(image: &[u8], pos: usize) -> (r: Result<(IpfChunk, usize), IpfError>)
        ensures
            match read_chunk_outcome(image@, pos as int) {
                Some(e) => r == Err::<(IpfChunk, usize), IpfError>(e),
                None => r matches Ok((c, next)) && chunk_at(image@, pos as int, None, c, next as int),
            },
    {
        match IpfChunk::read_args(image, pos, None) {
            None => Err(IpfError::ReadError),
            Some((chunk, next)) => {
                if chunk.size as usize > MAXIMUM_CHUNK_SIZE {
                    Err(IpfError::ChunkTooLarge)
                } else if !chunk.is_crc_valid() {
                    Err(IpfError::CrcMismatch)
                } else {
                    Ok((chunk, next))
                }
            },
        }
    }
}

} // verus!
