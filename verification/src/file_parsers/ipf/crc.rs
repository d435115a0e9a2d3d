//! The reflected CRC-32 used by IPF files to check their chunks.
use vstd::prelude::*;

verus! {

/// One bit step of the reflected CRC-32 with polynomial 0xEDB88320.
pub open spec fn ipf_crc_bit(c: u32) -> u32 {
    if c & 1 != 0 {
        (c >> 1u32) ^ 0xEDB8_8320u32
    } else {
        c >> 1u32
    }
}

/// The register after `k` bit steps.
pub open spec fn ipf_crc_bits(c: u32, k: nat) -> u32
    decreases k,
{
    if k == 0 {
        c
    } else {
        ipf_crc_bit(ipf_crc_bits(c, (k - 1) as nat))
    }
}

/// The register after one more byte.
pub open spec fn ipf_crc_byte(c: u32, b: u8) -> u32 {
    ipf_crc_bits(c ^ (b as u32), 8)
}

/// The register after all of `data`, started from `c` (before the final inversion).
pub open spec fn ipf_crc_fold(c: u32, data: Seq<u8>) -> u32
    decreases data.len(),
{
    if data.len() == 0 {
        c
    } else {
        ipf_crc_byte(ipf_crc_fold(c, data.drop_last()), data.last())
    }
}

/// The register of a fresh hasher.
pub open spec fn ipf_crc_init() -> u32 {
    0xFFFF_FFFFu32
}

/// Feeding two pieces of data one after the other leaves the register where feeding them
/// joined together does.
pub proof fn lemma_ipf_crc_concat(c: u32, a: Seq<u8>, b: Seq<u8>)
    ensures
        ipf_crc_fold(c, a + b) == ipf_crc_fold(ipf_crc_fold(c, a), b),
    decreases b.len(),
{
    if b.len() == 0 {
        assert(a + b =~= a);
    } else {
        lemma_ipf_crc_concat(c, a, b.drop_last());
        assert((a + b).drop_last() =~= a + b.drop_last());
        assert((a + b).last() == b.last());
    }
}

/// Advance the register over `data`.
fn crc_run(crc: u32, data: &[u8]) -> (r: u32)
    ensures
        r == ipf_crc_fold(crc, data@),
{
    let mut c = crc;
    let mut i: usize = 0;
    while i < data.len()
        invariant
            i <= data@.len(),
            c == ipf_crc_fold(crc, data@.take(i as int)),
        decreases data.len() - i,
    {
        let mut x: u32 = c ^ (data[i] as u32);
        let ghost start = x;
        let mut j: u32 = 0;
        while j < 8
            invariant
                j <= 8,
                x == ipf_crc_bits(start, j as nat),
            decreases 8 - j,
        {
            if x & 1 != 0 {
                x = (x >> 1u32) ^ 0xEDB8_8320u32;
            } else {
                x = x >> 1u32;
            }
            j += 1;
        }
        proof {
            assert(data@.take(i as int + 1).drop_last() =~= data@.take(i as int));
        }
        c = x;
        i += 1;
    }
    proof {
        assert(data@.take(data@.len() as int) =~= data@);
    }
    c
}

/// An incremental CRC-32 of the kind IPF files use: data may be fed in pieces.
pub struct IpfCrcHasher {
    crc: u32,
}

impl View for IpfCrcHasher {
    type V = u32;

    /// The register: the CRC of what was fed so far, before the final inversion.
    closed spec fn view(&self) -> u32 {
        self.crc
    }
}

impl IpfCrcHasher {
    /// A hasher that has been fed nothing.
    pub fn new() -> (r: Self)
        ensures
            r@ == ipf_crc_init(),
    {
        IpfCrcHasher { crc: 0xFFFF_FFFF }
    }

    /// Feed `data` to the hasher.
    pub fn update(&mut self, data: &[u8])
        ensures
            final(self)@ == ipf_crc_fold(old(self)@, data@),
    {
        self.crc = crc_run(self.crc, data);
    }

    /// The CRC of everything fed so far.
    pub fn finalize(&self) -> (r: u32)
        ensures
            r == !self@,
    {
        !self.crc
    }
}

impl Default for IpfCrcHasher {
    fn default() -> (r: Self)
        ensures
            r@ == ipf_crc_init(),
    {
        Self::new()
    }
}

/// The CRC of `data` in one call, starting from the register `start`, or from a fresh one.
pub fn ipf_crc_u32r(data: &[u8], start: Option<u32>) -> (r: u32)
    ensures
        r == !ipf_crc_fold(
            match start {
                Some(s) => s,
                None => ipf_crc_init(),
            },
            data@,
        ),
{
    let c = match start {
        Some(s) => s,
        None => 0xFFFF_FFFF,
    };
    !crc_run(c, data)
}

} // verus!
