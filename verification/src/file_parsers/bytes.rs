//! Reading fixed size integers out of byte buffers.
use vstd::prelude::*;

verus! {

/// The little endian 16 bit value at `i`.
pub open spec fn le16(s: Seq<u8>, i: int) -> int {
    s[i] + s[i + 1] * 256
}

/// The little endian 32 bit value at `i`.
pub open spec fn le32(s: Seq<u8>, i: int) -> int {
    le16(s, i) + le16(s, i + 2) * 65536
}

/// The big endian 16 bit value at `i`.
pub open spec fn be16(s: Seq<u8>, i: int) -> int {
    s[i] * 256 + s[i + 1]
}

/// The big endian 32 bit value at `i`.
pub open spec fn be32(s: Seq<u8>, i: int) -> int {
    be16(s, i) * 65536 + be16(s, i + 2)
}

/// The byte at `pos`, if there is one.
pub fn read_u8(data: &[u8], pos: usize) -> (r: Option<u8>)
    ensures
        pos < data@.len() ==> r == Some(data@[pos as int]),
        pos >= data@.len() ==> r is None,
{
    if pos < data.len() {
        Some(data[pos])
    } else {
        None
    }
}

/// The little endian 16 bit value at `pos`, if the buffer holds it.
pub fn read_u16_le(data: &[u8], pos: usize) -> (r: Option<u16>)
    ensures
        pos + 2 <= data@.len() ==> r == Some(le16(data@, pos as int) as u16),
        pos + 2 > data@.len() ==> r is None,
{
    if pos <= data.len() && data.len() - pos >= 2 {
        Some(data[pos] as u16 + data[pos + 1] as u16 * 256)
    } else {
        None
    }
}

/// The little endian 32 bit value at `pos`, if the buffer holds it.
pub fn read_u32_le(data: &[u8], pos: usize) -> (r: Option<u32>)
    ensures
        pos + 4 <= data@.len() ==> r == Some(le32(data@, pos as int) as u32),
        pos + 4 > data@.len() ==> r is None,
{
    if pos <= data.len() && data.len() - pos >= 4 {
        let lo = data[pos] as u32 + data[pos + 1] as u32 * 256;
        let hi = data[pos + 2] as u32 + data[pos + 3] as u32 * 256;
        Some(lo + hi * 65536)
    } else {
        None
    }
}

/// The big endian 16 bit value at `pos`, if the buffer holds it.
pub fn read_u16_be(data: &[u8], pos: usize) -> (r: Option<u16>)
    ensures
        pos + 2 <= data@.len() ==> r == Some(be16(data@, pos as int) as u16),
        pos + 2 > data@.len() ==> r is None,
{
    if pos <= data.len() && data.len() - pos >= 2 {
        Some(data[pos] as u16 * 256 + data[pos + 1] as u16)
    } else {
        None
    }
}

/// The big endian 32 bit value at `pos`, if the buffer holds it.
pub fn read_u32_be(data: &[u8], pos: usize) -> (r: Option<u32>)
    ensures
        pos + 4 <= data@.len() ==> r == Some(be32(data@, pos as int) as u32),
        pos + 4 > data@.len() ==> r is None,
{
    if pos <= data.len() && data.len() - pos >= 4 {
        let hi = data[pos] as u32 * 256 + data[pos + 1] as u32;
        let lo = data[pos + 2] as u32 * 256 + data[pos + 3] as u32;
        Some(hi * 65536 + lo)
    } else {
        None
    }
}

/// Whether `data` starts with the bytes of `prefix`.
pub fn starts_with(data: &[u8], prefix: &[u8]) -> (r: bool)
    ensures
        r == (data@.len() >= prefix@.len() && data@.subrange(0, prefix@.len() as int) == prefix@),
{
    if data.len() < prefix.len() {
        return false;
    }
    let mut i: usize = 0;
    while i < prefix.len()
        invariant
            prefix@.len() <= data@.len(),
            i <= prefix@.len(),
            forall|j: int| 0 <= j < i ==> data@[j] == prefix@[j],
        decreases prefix.len() - i,
    {
        if data[i] != prefix[i] {
            assert(data@.subrange(0, prefix@.len() as int)[i as int] != prefix@[i as int]);
            return false;
        }
        i += 1;
    }
    assert(data@.subrange(0, prefix@.len() as int) =~= prefix@);
    true
}

/// The bytes `pos` to `pos + n` of `data`, which holds them.
pub fn copy_range(data: &[u8], pos: usize, n: usize) -> (r: Vec<u8>)
    requires
        pos + n <= data.len(),
    ensures
        r@ == data@.subrange(pos as int, pos + n),
{
    let mut v: Vec<u8> = Vec::new();
    let mut i: usize = 0;
    while i < n
        invariant
            pos + n <= data.len(),
            i <= n,
            v@ == data@.subrange(pos as int, pos + i),
        decreases n - i,
    {
        v.push(data[pos + i]);
        i += 1;
        assert(v@ =~= data@.subrange(pos as int, pos + i));
    }
    v
}

} // verus!
