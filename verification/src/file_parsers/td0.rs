//! TeleDisk images.
use vstd::prelude::*;
use crate::file_parsers::{
    bitstream_bits, bitstream_flags, str_views, FormatCaps, CAP_COMMENT, CAP_ENCODING_FM,
    CAP_ENCODING_MFM, CAP_TRACK_ENCODING, CAP_WEAK_BITS,
};
use crate::types::{Platform, TrackDataEncoding, TrackDataRate};
use crate::file_parsers::bytes::{copy_range, le16, read_u16_le, read_u8};

verus! {

/// The parser of TeleDisk images.
pub struct Td0Format {}

impl Td0Format {
    /// The file extensions advertised for the format.
    pub fn extensions() -> (r: Vec<&'static str>)
        ensures
            str_views(r@) == seq!["td0"@],
    {
        let r = vec!["td0"];
        assert(str_views(r@) =~= seq!["td0"@]);
        r
    }

    /// The capability flags of the format.
    pub fn capabilities() -> (r: FormatCaps)
        ensures
            r@ == 0,
    {
        FormatCaps::empty()
    }
}

/// Sector flag: the sector had a CRC error.
pub const SECTOR_CRC_ERROR: u8 = 0x02;
/// Sector flag: the sector has a deleted data address mark.
pub const SECTOR_DELETED: u8 = 0x04;
/// Sector flag: the sector was skipped.
pub const SECTOR_SKIPPED: u8 = 0x10;
/// Sector flag: the sector has no data address mark.
pub const SECTOR_NO_DAM: u8 = 0x20;
/// Size of the comment block header.
pub const COMMENT_HEADER_SIZE: usize = 10;

/// Errors of TeleDisk decoding.
#[derive(Clone, Copy, Debug, PartialEq, Eq, Structural)]
pub enum Td0Error {
    /// The input ended before a complete record.
    ReadError,
    /// The data is not laid out as the format says.
    FormatParseError,
    /// A checksum does not match.
    ImageCorruptError,
    /// The data is not a TeleDisk image.
    UnknownFormat,
    /// The image is LZHUF compressed; its data must be expanded before it can be read.
    Compressed,
}

/// The TeleDisk file header.
#[derive(Clone, Copy, Debug)]
pub struct TelediskHeader {
    pub id: [u8; 2],
    pub sequence: u8,
    pub check_sequence: u8,
    pub version: u8,
    pub data_rate: u8,
    pub drive_type: u8,
    pub stepping: u8,
    pub allocation_flag: u8,
    pub heads: u8,
    pub crc: u16,
}

/// The TeleDisk comment block header. `length` bytes of comment text follow it.
#[derive(Clone, Copy, Debug)]
pub struct CommentHeader {
    pub crc: u16,
    pub length: u16,
    pub year: u8,
    pub month: u8,
    pub day: u8,
    pub hour: u8,
    pub minute: u8,
    pub second: u8,
}

/// The header of a track record.
#[derive(Clone, Copy, Debug)]
pub struct TrackHeader {
    pub sectors: u8,
    pub cylinder: u8,
    pub head: u8,
    pub crc: u8,
}

/// The header of a sector record.
#[derive(Clone, Copy, Debug)]
pub struct SectorHeader {
    pub cylinder: u8,
    pub head: u8,
    pub sector_id: u8,
    pub sector_size: u8,
    pub flags: u8,
    pub crc: u8,
}

/// The header of a sector's data block.
#[derive(Clone, Copy, Debug)]
pub struct SectorDataHeader {
    pub len: u16,
    pub encoding: u8,
}

/// An entry of a repeated two-byte pattern block.
#[derive(Clone, Copy, Debug)]
pub struct RepeatedDataEntry {
    pub count: u16,
    pub data: [u8; 2],
}

/// The data rate of a TeleDisk header's rate field; out of range values are taken as 300 Kbps.
pub open spec fn td0_rate_spec(rate: u8) -> TrackDataRate {
    let r = rate & 0x03;
    if r == 0 {
        TrackDataRate::Rate250Kbps
    } else if r == 1 {
        TrackDataRate::Rate300Kbps
    } else if r == 2 {
        TrackDataRate::Rate500Kbps
    } else {
        TrackDataRate::Rate300Kbps
    }
}

/// The rate field of a TeleDisk header gives the standard rates by its value modulo 4:
/// 250 Kbps for 0, 300 Kbps for 1, 500 Kbps for 2, and 300 Kbps for the out of range 3.
pub proof fn law_td0_rate(rate: u8)
    ensures
        (td0_rate_spec(rate) == TrackDataRate::Rate250Kbps) <==> rate % 4 == 0,
        (td0_rate_spec(rate) == TrackDataRate::Rate500Kbps) <==> rate % 4 == 2,
        (td0_rate_spec(rate) == TrackDataRate::Rate300Kbps) <==> (rate % 4 == 1 || rate % 4 == 3),
{
    assert(rate & 0x03 == rate % 4) by (bit_vector);
}

/// The data rate given by a TeleDisk header's rate field.
pub fn td0_data_rate(rate: u8) -> (r: TrackDataRate)
    ensures
        r == td0_rate_spec(rate),
        rate % 4 == 0 ==> r == TrackDataRate::Rate250Kbps,
        rate % 4 == 1 ==> r == TrackDataRate::Rate300Kbps,
        rate % 4 == 2 ==> r == TrackDataRate::Rate500Kbps,
        rate % 4 == 3 ==> r == TrackDataRate::Rate300Kbps,
{
    proof { law_td0_rate(rate); }
    match rate & 0x03 {
        0 => TrackDataRate::Rate250Kbps,
        1 => TrackDataRate::Rate300Kbps,
        2 => TrackDataRate::Rate500Kbps,
        _ => TrackDataRate::Rate300Kbps,
    }
}

/// One bit step of the TeleDisk CRC, polynomial 0xA097.
pub open spec fn crc_step(crc: u16) -> u16 {
    ((crc << 1u16) ^ (if crc & 0x8000 != 0 { 0xA097u16 } else { 0u16 })) as u16
}

/// The TeleDisk CRC after `k` bit steps.
pub open spec fn crc_steps(crc: u16, k: nat) -> u16
    decreases k,
{
    if k == 0 {
        crc
    } else {
        crc_step(crc_steps(crc, (k - 1) as nat))
    }
}

/// The TeleDisk CRC after one more byte.
pub open spec fn crc_byte(crc: u16, b: u8) -> u16 {
    crc_steps((crc ^ ((b as u16) << 8u16)) as u16, 8)
}

/// The TeleDisk CRC of `data`, starting from `crc`.
pub open spec fn td0_crc_spec(data: Seq<u8>, crc: u16) -> u16
    decreases data.len(),
{
    if data.len() == 0 {
        crc
    } else {
        crc_byte(td0_crc_spec(data.drop_last(), crc), data.last())
    }
}

/// The 16-bit CRC of the TeleDisk format, a plain polynomial CRC with polynomial 0xA097.
pub fn td0_crc(data: &[u8], input_crc: u16) -> (r: u16)
    ensures
        r == td0_crc_spec(data@, input_crc),
{
    let mut crc = input_crc;
    let mut i: usize = 0;
    while i < data.len()
        invariant
            i <= data@.len(),
            crc == td0_crc_spec(data@.take(i as int), input_crc),
        decreases data.len() - i,
    {
        let mut c: u16 = crc ^ ((data[i] as u16) << 8u16);
        let ghost start = c;
        let mut j: u32 = 0;
        while j < 8
            invariant
                j <= 8,
                c == crc_steps(start, j as nat),
            decreases 8 - j,
        {
            c = (c << 1u16) ^ if c & 0x8000 != 0 { 0xA097u16 } else { 0u16 };
            j += 1;
        }
        proof {
            assert(data@.take(i as int + 1).drop_last() =~= data@.take(i as int));
        }
        crc = c;
        i += 1;
    }
    proof { assert(data@.take(data@.len() as int) =~= data@); }
    crc
}

/// The CRC of two pieces of data one after the other is the CRC of the second piece started
/// from the CRC of the first.
pub proof fn lemma_td0_crc_concat(a: Seq<u8>, b: Seq<u8>, crc: u16)
    ensures
        td0_crc_spec(a + b, crc) == td0_crc_spec(b, td0_crc_spec(a, crc)),
    decreases b.len(),
{
    if b.len() == 0 {
        assert(a + b =~= a);
    } else {
        lemma_td0_crc_concat(a, b.drop_last(), crc);
        assert((a + b).drop_last() =~= a + b.drop_last());
        assert((a + b).last() == b.last());
    }
}

/// The result of decoding a run of TeleDisk sector data: the decoded bytes and the input
/// position after them, or an error.
pub type Td0Decoded = Result<(Seq<u8>, nat), Td0Error>;

/// `k` repetitions of the two bytes `lo`, `hi`.
pub open spec fn repeat_pair(lo: u8, hi: u8, k: nat) -> Seq<u8>
    decreases k,
{
    if k == 0 {
        Seq::empty()
    } else {
        seq![lo, hi] + repeat_pair(lo, hi, (k - 1) as nat)
    }
}

/// Appending one more pair to a run of pairs.
pub proof fn lemma_repeat_pair_snoc(lo: u8, hi: u8, k: nat)
    ensures
        repeat_pair(lo, hi, k + 1) == repeat_pair(lo, hi, k) + seq![lo, hi],
    decreases k,
{
    if k == 0 {
        assert(repeat_pair(lo, hi, 0) == Seq::<u8>::empty());
        assert(repeat_pair(lo, hi, 1) =~= seq![lo, hi] + Seq::empty());
        assert(repeat_pair(lo, hi, 0) + seq![lo, hi] =~= seq![lo, hi]);
    } else {
        lemma_repeat_pair_snoc(lo, hi, (k - 1) as nat);
        assert(seq![lo, hi] + (repeat_pair(lo, hi, (k - 1) as nat) + seq![lo, hi])
            =~= (seq![lo, hi] + repeat_pair(lo, hi, (k - 1) as nat)) + seq![lo, hi]);
    }
}

/// Decode repeated two-byte pattern entries from `input` at `pos` into the `n - d` bytes of
/// output still to fill. Each entry is a little endian count and two pattern bytes, written
/// to the output with the second byte first. An entry that overflows the output is an error.
pub open spec fn repeated_decode(input: Seq<u8>, pos: nat, d: nat, n: nat) -> Td0Decoded
    decreases input.len() - pos,
{
    if d >= n {
        Ok((Seq::empty(), pos))
    } else if pos + 4 > input.len() {
        Err(Td0Error::ReadError)
    } else {
        let k = le16(input, pos as int) as nat;
        if d + 2 * k > n {
            Err(Td0Error::FormatParseError)
        } else {
            match repeated_decode(input, pos + 4, d + 2 * k, n) {
                Ok((rest, p)) => Ok((repeat_pair(input[pos as int + 3], input[pos as int + 2], k) + rest, p)),
                Err(e) => Err(e),
            }
        }
    }
}


/// `k` copies of `pattern` one after the other.
pub open spec fn repeat_seq(pattern: Seq<u8>, k: nat) -> Seq<u8>
    decreases k,
{
    if k == 0 {
        Seq::empty()
    } else {
        repeat_seq(pattern, (k - 1) as nat) + pattern
    }
}

/// Where `rc` copies of a `pl` byte pattern, written from output position `d` on, leave the
/// output position, for an output of `n` bytes: a copy that starts at or past the end is an
/// error, and `None` stands for a copy that starts inside the output but runs past its end,
/// which the decoder does not allow.
pub open spec fn run_outcome(d: nat, pl: nat, rc: nat, n: nat) -> Option<Result<nat, Td0Error>>
    decreases rc,
{
    if rc == 0 {
        Some(Ok(d))
    } else if d >= n {
        Some(Err(Td0Error::FormatParseError))
    } else if d + pl > n {
        None
    } else {
        run_outcome(d + pl, pl, (rc - 1) as nat, n)
    }
}

/// Decode one run-length encoded block from `input` at `pos`, to be written at output
/// position `d` of an output of `n` bytes: the bytes it writes, the input position after it and
/// the output position after it. A block starting with 0 is a literal: a length byte and that
/// many bytes. Any other first byte `c` starts a run: a repeat count and a pattern of `2 * c`
/// bytes, copied that many times. `None` stands for a block that would run past the end of the
/// output inside a copy, which the decoder does not allow.
pub open spec fn rle_block(input: Seq<u8>, pos: nat, d: nat, n: nat) -> Option<Result<(Seq<u8>, nat, nat), Td0Error>> {
    if pos >= input.len() || pos + 1 >= input.len() {
        Some(Err(Td0Error::ReadError))
    } else if input[pos as int] == 0 {
        let bl = input[pos as int + 1] as nat;
        if d + bl > n {
            None
        } else if pos + 2 + bl > input.len() {
            Some(Err(Td0Error::ReadError))
        } else {
            Some(Ok((input.subrange(pos as int + 2, pos as int + 2 + bl), pos + 2 + bl, d + bl)))
        }
    } else {
        let pl = 2 * input[pos as int] as nat;
        let rc = input[pos as int + 1] as nat;
        if pos + 2 + pl > input.len() {
            Some(Err(Td0Error::ReadError))
        } else {
            match run_outcome(d, pl, rc, n) {
                None => None,
                Some(Err(e)) => Some(Err(e)),
                Some(Ok(d2)) => Some(Ok((repeat_seq(input.subrange(pos as int + 2, pos as int + 2 + pl), rc), pos + 2 + pl, d2))),
            }
        }
    }
}

/// Decode run-length encoded blocks from `input` at `pos` into the `n - d` bytes of output still
/// to fill: the decoded bytes and the input position after them, or an error. `None` stands
/// for data that would run past the end of the output inside a block.
pub open spec fn rle_decode(input: Seq<u8>, pos: nat, d: nat, n: nat) -> Option<Td0Decoded>
    decreases input.len() - pos,
{
    if d >= n {
        Some(Ok((Seq::empty(), pos)))
    } else {
        match rle_block(input, pos, d, n) {
            None => None,
            Some(Err(e)) => Some(Err(e)),
            Some(Ok((bytes, p2, d2))) => if pos < p2 <= input.len() {
                match rle_decode(input, p2, d2, n) {
                    Some(Ok((rest, p))) => Some(Ok((bytes + rest, p))),
                    other => other,
                }
            } else {
                None
            },
        }
    }
}


/// The TeleDisk header stored in the first 12 bytes of `s`.
pub open spec fn td0_header_spec(s: Seq<u8>) -> TelediskHeader {
    TelediskHeader {
        id: [s[0], s[1]],
        sequence: s[2],
        check_sequence: s[3],
        version: s[4],
        data_rate: s[5],
        drive_type: s[6],
        stepping: s[7],
        allocation_flag: s[8],
        heads: s[9],
        crc: le16(s, 10) as u16,
    }
}

/// Whether two bytes are the TeleDisk signature, "TD" for a plain image or "td" for a
/// compressed one.
pub open spec fn td0_signature(a: u8, b: u8) -> bool {
    (a == 0x54 && b == 0x44) || (a == 0x74 && b == 0x64)
}

impl TelediskHeader {
    /// Read a header from the start of `data`; `None` if `data` is shorter than a header.
    pub fn read(data: &[u8]) -> (r: Option<TelediskHeader>)
        ensures
            data@.len() >= 12 ==> r == Some(td0_header_spec(data@)),
            data@.len() < 12 ==> r is None,
    {
        if data.len() < 12 {
            return None;
        }
        let crc = data[10] as u16 + data[11] as u16 * 256;
        Some(TelediskHeader {
            id: [data[0], data[1]],
            sequence: data[2],
            check_sequence: data[3],
            version: data[4],
            data_rate: data[5],
            drive_type: data[6],
            stepping: data[7],
            allocation_flag: data[8],
            heads: data[9],
            crc,
        })
    }
}

/// What the header of a TeleDisk image says about the rest of it.
#[derive(Clone, Copy, Debug)]
pub struct Td0ImageInfo {
    pub header: TelediskHeader,
    pub compressed: bool,
    pub major_version: u8,
    pub minor_version: u8,
    pub has_comment_block: bool,
    pub data_rate: TrackDataRate,
}

/// The comment block header stored at `pos` in `s`.
pub open spec fn comment_header_spec(s: Seq<u8>, pos: int) -> CommentHeader {
    CommentHeader {
        crc: le16(s, pos) as u16,
        length: le16(s, pos + 2) as u16,
        year: s[pos + 4],
        month: s[pos + 5],
        day: s[pos + 6],
        hour: s[pos + 7],
        minute: s[pos + 8],
        second: s[pos + 9],
    }
}

/// Comment text with each nul terminator turned into a line break.
pub open spec fn comment_text_spec(s: Seq<u8>) -> Seq<u8> {
    s.map_values(|b: u8| if b == 0 { 0x0Au8 } else { b })
}

impl Td0Format {
    /// Whether `image` starts with a TeleDisk header, plain or compressed.
    pub fn detect(image: &[u8]) -> (r: bool)
        ensures
            r == (image@.len() >= 12 && td0_signature(image@[0], image@[1])),
    {
        match TelediskHeader::read(image) {
            Some(h) => (h.id[0] == 0x54 && h.id[1] == 0x44) || (h.id[0] == 0x74 && h.id[1] == 0x64),
            None => false,
        }
    }

    /// Check the header of a TeleDisk image: it must be at least 12 bytes long, carry the
    /// signature, and its CRC must match that of its first 10 bytes.
    pub fn read_image_header(image: &[u8]) -> (r: Result<Td0ImageInfo, Td0Error>)
        ensures
            image@.len() < 12 || !td0_signature(image@[0], image@[1]) ==> r == Err::<Td0ImageInfo, Td0Error>(Td0Error::UnknownFormat),
            image@.len() >= 12 && td0_signature(image@[0], image@[1])
                && td0_crc_spec(image@.take(10), 0) != le16(image@, 10) ==> r == Err::<Td0ImageInfo, Td0Error>(Td0Error::ImageCorruptError),
            image@.len() >= 12 && td0_signature(image@[0], image@[1])
                && td0_crc_spec(image@.take(10), 0) == le16(image@, 10) ==> r == Ok::<Td0ImageInfo, Td0Error>(Td0ImageInfo {
                    header: td0_header_spec(image@),
                    compressed: image@[0] == 0x74,
                    major_version: image@[4] / 10,
                    minor_version: image@[4] % 10,
                    has_comment_block: image@[7] & 0x80 != 0,
                    data_rate: td0_rate_spec(image@[5]),
                }),
    {
        if image.len() < 12 {
            return Err(Td0Error::UnknownFormat);
        }
        let header_crc = td0_crc(slice_prefix(image, 10), 0);
        let header = match TelediskHeader::read(image) {
            Some(h) => h,
            None => return Err(Td0Error::UnknownFormat),
        };
        let detected = (header.id[0] == 0x54 && header.id[1] == 0x44) || (header.id[0] == 0x74 && header.id[1] == 0x64);
        if !detected {
            return Err(Td0Error::UnknownFormat);
        }
        if header.crc != header_crc {
            return Err(Td0Error::ImageCorruptError);
        }
        Ok(Td0ImageInfo {
            header,
            compressed: header.id[0] == 0x74,
            major_version: header.version / 10,
            minor_version: header.version % 10,
            has_comment_block: header.stepping & 0x80 != 0,
            data_rate: td0_data_rate(header.data_rate),
        })
    }

    /// Read the comment block at `pos` of decompressed image data: its header, whose CRC covers
    /// the header after the CRC field and the comment text, and the text with its nul
    /// terminators turned into line breaks. Returns the block and the position after it.
    pub fn read_comment_block(data: &[u8], pos: usize) -> (r: Result<(CommentHeader, Vec<u8>, usize), Td0Error>)
        ensures
            pos + 10 > data@.len() ==> r == Err::<(CommentHeader, Vec<u8>, usize), Td0Error>(Td0Error::ReadError),
            pos + 10 <= data@.len() ==> {
                let h = comment_header_spec(data@, pos as int);
                let end = pos + 10 + h.length;
                if end > data@.len() {
                    r == Err::<(CommentHeader, Vec<u8>, usize), Td0Error>(Td0Error::ReadError)
                } else if td0_crc_spec(data@.subrange(pos + 2, end), 0) != h.crc {
                    r == Err::<(CommentHeader, Vec<u8>, usize), Td0Error>(Td0Error::ImageCorruptError)
                } else {
                    &&& r is Ok
                    &&& r.unwrap().0 == h
                    &&& r.unwrap().2 == end
                    &&& r.unwrap().1@ == comment_text_spec(data@.subrange(pos + 10, end))
                }
            },
    {
        if pos > data.len() || data.len() - pos < 10 {
            return Err(Td0Error::ReadError);
        }
        let h = CommentHeader {
            crc: data[pos] as u16 + data[pos + 1] as u16 * 256,
            length: data[pos + 2] as u16 + data[pos + 3] as u16 * 256,
            year: data[pos + 4],
            month: data[pos + 5],
            day: data[pos + 6],
            hour: data[pos + 7],
            minute: data[pos + 8],
            second: data[pos + 9],
        };
        let len = h.length as usize;
        if data.len() - (pos + 10) < len {
            return Err(Td0Error::ReadError);
        }
        let covered = slice_range(data, pos + 2, pos + 10 + len);
        let crc = td0_crc(covered, 0);
        if crc != h.crc {
            return Err(Td0Error::ImageCorruptError);
        }
        let mut text: Vec<u8> = Vec::new();
        let mut k: usize = 0;
        let dlen = data.len();
        while k < len
            invariant
                pos + 10 + len <= data@.len(),
                data@.len() == dlen,
                k <= len,
                text@ == comment_text_spec(data@.subrange(pos + 10, pos + 10 + k)),
            decreases len - k,
        {
            let b = data[pos + 10 + k];
            text.push(if b == 0 { 0x0Au8 } else { b });
            proof {
                assert(data@.subrange(pos + 10, pos + 10 + k + 1) =~= data@.subrange(pos + 10, pos + 10 + k).push(b));
                assert(comment_text_spec(data@.subrange(pos + 10, pos + 10 + k + 1)) =~= text@);
            }
            k += 1;
        }
        Ok((h, text, pos + 10 + len))
    }
}

/// The first `n` bytes of `data`.
fn slice_prefix(data: &[u8], n: usize) -> (r: &[u8])
    requires
        n <= data@.len(),
    ensures
        r@ == data@.take(n as int),
{
    slice_range(data, 0, n)
}

/// The bytes of `data` from `a` to `b`.
fn slice_range(data: &[u8], a: usize, b: usize) -> (r: &[u8])
    requires
        a <= b <= data@.len(),
    ensures
        r@ == data@.subrange(a as int, b as int),
{
    vstd::slice::slice_subrange(data, a, b)
}

impl Td0Format {
    /// Decode a block of repeated two-byte patterns from `input` at `pos`, filling `output`.
    /// Returns the input position after the block.
    pub fn td0_decompress_repeated_data(input: &[u8], pos: usize, output: &mut Vec<u8>) -> (r: Result<usize, Td0Error>)
        ensures
            final(output)@.len() == old(output)@.len(),
            match repeated_decode(input@, pos as nat, 0, old(output)@.len()) {
                Ok((bytes, p)) => r == Ok::<usize, Td0Error>(p as usize) && final(output)@ == bytes,
                Err(e) => r == Err::<usize, Td0Error>(e),
            },
            old(output)@.len() > 0 ==> (r matches Ok(q) ==> pos < q <= input@.len()),
    {
        let data_len = output.len();
        let mut decoded_len: usize = 0;
        let mut cur = pos;
        while decoded_len < data_len
            invariant
                output@.len() == data_len,
                old(output)@.len() == data_len,
                decoded_len <= data_len,
                cur >= pos,
                cur > pos ==> cur <= input@.len(),
                decoded_len > 0 ==> cur > pos,
                repeated_decode(input@, pos as nat, 0, data_len as nat) == match repeated_decode(input@, cur as nat, decoded_len as nat, data_len as nat) {
                    Ok((rest, p)) => Ok((output@.take(decoded_len as int) + rest, p)),
                    Err(e) => Err::<(Seq<u8>, nat), Td0Error>(e),
                },
            decreases input@.len() - cur,
        {
            if cur > input.len() || input.len() - cur < 4 {
                return Err(Td0Error::ReadError);
            }
            let count: u16 = input[cur] as u16 + input[cur + 1] as u16 * 256;
            let b0 = input[cur + 2];
            let b1 = input[cur + 3];
            let ghost d0 = decoded_len;
            let ghost out0 = output@;
            proof { assert(out0.take(d0 as int) + repeat_pair(b1, b0, 0) =~= out0.take(d0 as int)); }
            let mut i: u16 = 0;
            while i < count
                invariant
                    output@.len() == data_len,
                    old(output)@.len() == data_len,
                    cur + 4 <= input@.len(),
                    le16(input@, cur as int) == count,
                    d0 < data_len,
                    out0.len() == data_len,
                    repeated_decode(input@, pos as nat, 0, data_len as nat) == match repeated_decode(input@, cur as nat, d0 as nat, data_len as nat) {
                        Ok((rest, p)) => Ok((out0.take(d0 as int) + rest, p)),
                        Err(e) => Err::<(Seq<u8>, nat), Td0Error>(e),
                    },
                    decoded_len == d0 + 2 * i,
                    i <= count,
                    decoded_len <= data_len,
                    output@.take(decoded_len as int) == out0.take(d0 as int) + repeat_pair(b1, b0, i as nat),
                    forall|j: int| decoded_len <= j < data_len ==> output@[j] == out0[j],
                decreases count - i,
            {
                if data_len - decoded_len > 1 {
                    let ghost before = output@;
                    output.set(decoded_len + 1, b0);
                    output.set(decoded_len, b1);
                    proof {
                        lemma_repeat_pair_snoc(b1, b0, i as nat);
                        assert(output@.take(decoded_len as int) =~= before.take(decoded_len as int));
                        assert(output@.take(decoded_len + 2) =~= output@.take(decoded_len as int) + seq![b1, b0]);
                    }
                    decoded_len += 2;
                } else {
                    return Err(Td0Error::FormatParseError);
                }
                i += 1;
            }
            proof {
                assert(le16(input@, cur as int) == count);
                let total = out0.take(d0 as int) + repeat_pair(b1, b0, count as nat);
                match repeated_decode(input@, (cur + 4) as nat, decoded_len as nat, data_len as nat) {
                    Ok((rest, p)) => {
                        assert(out0.take(d0 as int) + (repeat_pair(b1, b0, count as nat) + rest) =~= total + rest);
                    },
                    Err(e) => {},
                }
            }
            cur += 4;
        }
        proof {
            assert(output@.take(decoded_len as int) + Seq::<u8>::empty() =~= output@);
        }
        Ok(cur)
    }

    /// Decode run-length encoded data from `input` at `pos`, filling `output`. Returns the input
    /// position after the data. The data must not run past the end of the output inside a block.
    pub fn td0_decompress_rle_data(input: &[u8], pos: usize, output: &mut Vec<u8>) -> (r: Result<usize, Td0Error>)
        requires
            rle_decode(input@, pos as nat, 0, old(output)@.len()) is Some,
        ensures
            final(output)@.len() == old(output)@.len(),
            match rle_decode(input@, pos as nat, 0, old(output)@.len()) {
                Some(Ok((bytes, p))) => r == Ok::<usize, Td0Error>(p as usize) && final(output)@ == bytes,
                Some(Err(e)) => r == Err::<usize, Td0Error>(e),
                None => false,
            },
            old(output)@.len() > 0 ==> (r matches Ok(q) ==> pos < q <= input@.len()),
    {
        let data_len = output.len();
        let mut decoded_len: usize = 0;
        let mut cur = pos;
        let ilen = input.len();
        while decoded_len < data_len
            invariant
                output@.len() == data_len,
                old(output)@.len() == data_len,
                decoded_len <= data_len,
                input@.len() == ilen,
                cur >= pos,
                cur > pos ==> cur <= input@.len(),
                decoded_len > 0 ==> cur > pos,
                rle_decode(input@, cur as nat, decoded_len as nat, data_len as nat) is Some,
                rle_decode(input@, pos as nat, 0, data_len as nat) == match rle_decode(input@, cur as nat, decoded_len as nat, data_len as nat) {
                    Some(Ok((rest, p))) => Some(Ok((output@.take(decoded_len as int) + rest, p))),
                    other => other,
                },
            decreases input@.len() - cur,
        {
            let ghost before = output@;
            let ghost c0 = cur;
            let ghost dl0 = decoded_len;
            match Self::rle_one_block(input, cur, decoded_len, output) {
                Ok((p2, d2)) => {
                    proof {
                        let bytes = rle_block(input@, c0 as nat, dl0 as nat, data_len as nat).unwrap().unwrap().0;
                        assert(rle_decode(input@, c0 as nat, dl0 as nat, data_len as nat) == match rle_decode(input@, p2 as nat, d2 as nat, data_len as nat) {
                            Some(Ok((rest, p))) => Some(Ok((bytes + rest, p))),
                            other => other,
                        });
                        assert(output@.take(d2 as int) =~= before.take(decoded_len as int) + bytes);
                        match rle_decode(input@, p2 as nat, d2 as nat, data_len as nat) {
                            Some(Ok((rest, p))) => {
                                assert(before.take(decoded_len as int) + (bytes + rest) =~= output@.take(d2 as int) + rest);
                            },
                            _ => {},
                        }
                    }
                    cur = p2;
                    decoded_len = d2;
                },
                Err(e) => {
                    return Err(e);
                },
            }
        }
        proof {
            assert(output@.take(decoded_len as int) + Seq::<u8>::empty() =~= output@);
        }
        Ok(cur)
    }

    /// Decode one run-length encoded block from `input` at `pos` into `output` at `d`.
    /// Returns the input and output positions after the block.
    fn rle_one_block(input: &[u8], pos: usize, d: usize, output: &mut Vec<u8>) -> (r: Result<(usize, usize), Td0Error>)
        requires
            d < old(output)@.len(),
            rle_block(input@, pos as nat, d as nat, old(output)@.len()) is Some,
        ensures
            final(output)@.len() == old(output)@.len(),
            match rle_block(input@, pos as nat, d as nat, old(output)@.len()) {
                Some(Ok((bytes, p2, d2))) => {
                    &&& r == Ok::<(usize, usize), Td0Error>((p2 as usize, d2 as usize))
                    &&& pos < p2 <= input@.len()
                    &&& d2 == d + bytes.len()
                    &&& d2 <= old(output)@.len()
                    &&& final(output)@.take(d as int) == old(output)@.take(d as int)
                    &&& final(output)@.subrange(d as int, d2 as int) == bytes
                },
                Some(Err(e)) => r == Err::<(usize, usize), Td0Error>(e),
                None => false,
            },
    {
        let data_len = output.len();
        let ilen = input.len();
        if pos >= ilen || pos + 1 >= ilen {
            return Err(Td0Error::ReadError);
        }
        let code = input[pos];
        let second = input[pos + 1];
        let mut decoded_len = d;
        let ghost out0 = output@;
        if code == 0 {
            let block_len = second as usize;
            if ilen - (pos + 2) < block_len {
                return Err(Td0Error::ReadError);
            }
            let mut k: usize = 0;
            while k < block_len
                invariant
                    output@.len() == data_len,
                    out0.len() == data_len,
                    d + block_len <= data_len,
                    pos + 2 + block_len <= input@.len(),
                    input@.len() == ilen,
                    k <= block_len,
                    forall|j: int| 0 <= j < d + k ==> output@[j] == if j < d { out0[j] } else { input@[pos + 2 + j - d] },
                    forall|j: int| d + k <= j < data_len ==> output@[j] == out0[j],
                decreases block_len - k,
            {
                output.set(d + k, input[pos + 2 + k]);
                k += 1;
            }
            proof {
                assert(output@.take(d as int) =~= out0.take(d as int));
                assert(output@.subrange(d as int, d + block_len) =~= input@.subrange(pos + 2, pos + 2 + block_len));
            }
            Ok((pos + 2 + block_len, d + block_len))
        } else {
            let pattern_length = code as usize * 2;
            let repeat_ct = second;
            if ilen - (pos + 2) < pattern_length {
                return Err(Td0Error::ReadError);
            }
            let ghost pattern = input@.subrange(pos + 2, pos + 2 + pattern_length);
            proof { assert(output@.subrange(d as int, d as int) =~= repeat_seq(pattern, 0)); }
            let mut rep: u8 = 0;
            while rep < repeat_ct
                invariant
                    output@.len() == data_len,
                    out0.len() == data_len,
                    pattern_length == 2 * code,
                    code > 0,
                    pos + 2 + pattern_length <= input@.len(),
                    input@.len() == ilen,
                    pattern == input@.subrange(pos + 2, pos + 2 + pattern_length),
                    rep <= repeat_ct,
                    decoded_len == d + rep * pattern_length,
                    decoded_len <= data_len,
                    d < data_len,
                    run_outcome(d as nat, pattern_length as nat, repeat_ct as nat, data_len as nat)
                        == run_outcome(decoded_len as nat, pattern_length as nat, (repeat_ct - rep) as nat, data_len as nat),
                    run_outcome(d as nat, pattern_length as nat, repeat_ct as nat, data_len as nat) is Some,
                    output@.take(d as int) == out0.take(d as int),
                    output@.subrange(d as int, decoded_len as int) == repeat_seq(pattern, rep as nat),
                    old(output)@.len() == data_len,
                    input@[pos as int] == code,
                    input@[pos + 1] == repeat_ct,
                    pos + 1 < input@.len(),
                decreases repeat_ct - rep,
            {
                if decoded_len < data_len {
                    let ghost before = output@;
                    let mut k: usize = 0;
                    while k < pattern_length
                        invariant
                            output@.len() == data_len,
                            before.len() == data_len,
                            decoded_len + pattern_length <= data_len,
                            pos + 2 + pattern_length <= input@.len(),
                            input@.len() == ilen,
                            k <= pattern_length,
                            forall|j: int| 0 <= j < decoded_len + k ==> output@[j] == if j < decoded_len { before[j] } else { input@[pos + 2 + j - decoded_len] },
                            forall|j: int| decoded_len + k <= j < data_len ==> output@[j] == before[j],
                        decreases pattern_length - k,
                    {
                        output.set(decoded_len + k, input[pos + 2 + k]);
                        k += 1;
                    }
                    proof {
                        assert(output@.take(d as int) =~= before.take(d as int));
                        assert(output@.subrange(d as int, decoded_len + pattern_length)
                            =~= before.subrange(d as int, decoded_len as int) + pattern);
                        assert((rep + 1) * pattern_length == rep * pattern_length + pattern_length) by (nonlinear_arith);
                    }
                    decoded_len += pattern_length;
                } else {
                    return Err(Td0Error::FormatParseError);
                }
                rep += 1;
            }
            Ok((pos + 2 + pattern_length, decoded_len))
        }
    }

}


/// The number of bytes of a sector whose size code is `n`: 128 shifted left by `n`, for the
/// codes 0 to 7.
pub open spec fn td0_sector_bytes(n: u8) -> nat {
    if n == 0 { 128 } else if n == 1 { 256 } else if n == 2 { 512 } else if n == 3 { 1024 }
    else if n == 4 { 2048 } else if n == 5 { 4096 } else if n == 6 { 8192 } else { 16384 }
}

/// The number of bytes of a sector whose size code `n` is at most 7.
pub fn td0_sector_size(n: u8) -> (r: usize)
    requires
        n <= 7,
    ensures
        r == td0_sector_bytes(n),
{
    match n {
        0 => 128,
        1 => 256,
        2 => 512,
        3 => 1024,
        4 => 2048,
        5 => 4096,
        6 => 8192,
        _ => 16384,
    }
}

/// The track header stored at `pos` in `d`.
pub open spec fn track_header_spec(d: Seq<u8>, pos: int) -> TrackHeader {
    TrackHeader { sectors: d[pos], cylinder: d[pos + 1], head: d[pos + 2], crc: d[pos + 3] }
}

/// The sector header stored at `pos` in `d`.
pub open spec fn sector_header_spec(d: Seq<u8>, pos: int) -> SectorHeader {
    SectorHeader {
        cylinder: d[pos],
        head: d[pos + 1],
        sector_id: d[pos + 2],
        sector_size: d[pos + 3],
        flags: d[pos + 4],
        crc: d[pos + 5],
    }
}

/// The low byte of a CRC, which track and sector headers store.
pub open spec fn crc_low(crc: u16) -> u8 {
    (crc % 256) as u8
}

/// A sector read from an image: its header and its expanded data.
pub struct Td0SectorView {
    pub header: SectorHeader,
    pub data: Seq<u8>,
}

/// A track read from an image: its header and the sectors that carry data.
pub struct Td0TrackView {
    pub header: TrackHeader,
    pub sectors: Seq<Td0SectorView>,
}

/// The data of a sector of `n` bytes stored at `p` in `d` with encoding `enc`: 0 for raw bytes,
/// 1 for repeated two-byte patterns, 2 for run-length encoded blocks; other encodings are
/// errors. `None` stands for run-length data that runs past the end of the sector inside a
/// block, on which the decoder panics.
pub open spec fn td0_sector_data(d: Seq<u8>, p: nat, enc: u8, n: nat) -> Option<Td0Decoded> {
    if enc == 0 {
        if p + n > d.len() {
            Some(Err(Td0Error::ReadError))
        } else {
            Some(Ok((d.subrange(p as int, (p + n) as int), p + n)))
        }
    } else if enc == 1 {
        Some(repeated_decode(d, p, 0, n))
    } else if enc == 2 {
        rle_decode(d, p, 0, n)
    } else {
        Some(Err(Td0Error::FormatParseError))
    }
}

/// The sector record at `pos` in `d`: a six byte header, then, unless its flags mark the
/// sector as skipped or without a data mark, a data header (length and encoding) and the
/// sector data, whose CRC low byte must match the header's. A sector without data gives
/// `None`. Size codes above 7 are refused. `None` outside stands for a decode that panics.
pub open spec fn td0_sector_spec(d: Seq<u8>, pos: nat) -> Option<Result<(Option<Td0SectorView>, nat), Td0Error>> {
    if pos + 6 > d.len() {
        Some(Err(Td0Error::ReadError))
    } else {
        let h = sector_header_spec(d, pos as int);
        if h.flags & (SECTOR_NO_DAM | SECTOR_SKIPPED) != 0 {
            Some(Ok((None, pos + 6)))
        } else if pos + 9 > d.len() {
            Some(Err(Td0Error::ReadError))
        } else if h.sector_size > 7 {
            Some(Err(Td0Error::FormatParseError))
        } else {
            match td0_sector_data(d, pos + 9, d[pos as int + 8], td0_sector_bytes(h.sector_size)) {
                None => None,
                Some(Err(e)) => Some(Err(e)),
                Some(Ok((data, p))) => if crc_low(td0_crc_spec(data, 0)) != h.crc {
                    Some(Err(Td0Error::ImageCorruptError))
                } else {
                    Some(Ok((Some(Td0SectorView { header: h, data }), p)))
                },
            }
        }
    }
}

/// A sector that carries data as a list of at most one sector.
pub open spec fn opt_sector_seq(s: Option<Td0SectorView>) -> Seq<Td0SectorView> {
    match s {
        Some(x) => seq![x],
        None => Seq::empty(),
    }
}

/// `k` sector records from `pos` in `d`: the sectors that carry data and the position after
/// them.
pub open spec fn td0_sectors_spec(d: Seq<u8>, pos: nat, k: nat) -> Option<Result<(Seq<Td0SectorView>, nat), Td0Error>>
    decreases k,
{
    if k == 0 {
        Some(Ok((Seq::empty(), pos)))
    } else {
        match td0_sector_spec(d, pos) {
            None => None,
            Some(Err(e)) => Some(Err(e)),
            Some(Ok((s, p))) => match td0_sectors_spec(d, p, (k - 1) as nat) {
                Some(Ok((ss, q))) => Some(Ok((opt_sector_seq(s) + ss, q))),
                other => other,
            },
        }
    }
}

/// The track records from `pos` in `d`: each a four byte header (sector count, cylinder,
/// head, CRC low byte of the first three bytes) and its sector records. The list ends at a
/// sector count of 0xFF or where no whole header is left.
pub open spec fn td0_tracks_spec(d: Seq<u8>, pos: nat) -> Option<Result<(Seq<Td0TrackView>, nat), Td0Error>>
    decreases d.len() - pos,
{
    if pos + 4 > d.len() {
        Some(Ok((Seq::empty(), pos)))
    } else {
        let th = track_header_spec(d, pos as int);
        if th.sectors == 0xFF {
            Some(Ok((Seq::empty(), pos + 4)))
        } else if crc_low(td0_crc_spec(d.subrange(pos as int, pos as int + 3), 0)) != th.crc {
            Some(Err(Td0Error::ImageCorruptError))
        } else {
            match td0_sectors_spec(d, pos + 4, th.sectors as nat) {
                None => None,
                Some(Err(e)) => Some(Err(e)),
                Some(Ok((ss, p))) => if pos < p <= d.len() {
                    match td0_tracks_spec(d, p) {
                        Some(Ok((ts, q))) => Some(Ok((seq![Td0TrackView { header: th, sectors: ss }] + ts, q))),
                        other => other,
                    }
                } else {
                    None
                },
            }
        }
    }
}

/// A sector read from an image.
pub struct Td0Sector {
    pub header: SectorHeader,
    pub data: Vec<u8>,
}

/// A track read from an image.
pub struct Td0Track {
    pub header: TrackHeader,
    pub sectors: Vec<Td0Sector>,
}

/// The contents of a sector.
pub open spec fn td0_sector_view(s: Td0Sector) -> Td0SectorView {
    Td0SectorView { header: s.header, data: s.data@ }
}

/// The contents of a list of sectors.
pub open spec fn td0_sector_views(v: Seq<Td0Sector>) -> Seq<Td0SectorView> {
    v.map_values(|s: Td0Sector| td0_sector_view(s))
}

/// The contents of a track.
pub open spec fn td0_track_view(t: Td0Track) -> Td0TrackView {
    Td0TrackView { header: t.header, sectors: td0_sector_views(t.sectors@) }
}

/// The contents of a list of tracks.
pub open spec fn td0_track_views(v: Seq<Td0Track>) -> Seq<Td0TrackView> {
    v.map_values(|t: Td0Track| td0_track_view(t))
}

/// Whether a track among the first `n` of `ts` lies on cylinder `c`.
pub open spec fn cylinder_seen(ts: Seq<Td0TrackView>, n: int, c: u8) -> bool {
    exists|j: int| 0 <= j < n && #[trigger] ts[j].header.cylinder == c
}

/// The number of different cylinders among the first `n` tracks of `ts`.
pub open spec fn distinct_cylinders(ts: Seq<Td0TrackView>, n: nat) -> nat
    decreases n,
{
    if n == 0 {
        0
    } else {
        distinct_cylinders(ts, (n - 1) as nat) + if cylinder_seen(ts, n - 1, ts[n - 1].header.cylinder) { 0nat } else { 1nat }
    }
}

/// A TeleDisk image as read: its header, comment block if any, tracks, and the disk they
/// describe: as many cylinders as the tracks name, the header's head count, MFM encoding and
/// the header's data rate.
pub struct Td0Image {
    pub info: Td0ImageInfo,
    pub comment: Option<(CommentHeader, Vec<u8>)>,
    pub tracks: Vec<Td0Track>,
    pub cylinders: usize,
    pub heads: u8,
    pub encoding: TrackDataEncoding,
    pub data_rate: TrackDataRate,
}

/// The contents of a read image.
pub struct Td0ImageView {
    pub info: Td0ImageInfo,
    pub comment: Option<(CommentHeader, Seq<u8>)>,
    pub tracks: Seq<Td0TrackView>,
    pub cylinders: nat,
    pub heads: u8,
    pub encoding: TrackDataEncoding,
    pub data_rate: TrackDataRate,
}

/// The contents of a read image.
pub open spec fn td0_image_view(i: Td0Image) -> Td0ImageView {
    Td0ImageView {
        info: i.info,
        comment: match i.comment {
            Some((h, t)) => Some((h, t@)),
            None => None,
        },
        tracks: td0_track_views(i.tracks@),
        cylinders: i.cylinders as nat,
        heads: i.heads,
        encoding: i.encoding,
        data_rate: i.data_rate,
    }
}

/// What the header of an image says, or why it is refused (see `read_image_header`).
pub open spec fn td0_info_spec(image: Seq<u8>) -> Result<Td0ImageInfo, Td0Error> {
    if image.len() < 12 || !td0_signature(image[0], image[1]) {
        Err(Td0Error::UnknownFormat)
    } else if td0_crc_spec(image.take(10), 0) != le16(image, 10) {
        Err(Td0Error::ImageCorruptError)
    } else {
        Ok(Td0ImageInfo {
            header: td0_header_spec(image),
            compressed: image[0] == 0x74,
            major_version: image[4] / 10,
            minor_version: image[4] % 10,
            has_comment_block: image[7] & 0x80 != 0,
            data_rate: td0_rate_spec(image[5]),
        })
    }
}

/// The comment block at `pos` of `d` (see `read_comment_block`): its header, its text with
/// line breaks, and the position after it.
pub open spec fn td0_comment_spec(d: Seq<u8>, pos: nat) -> Result<(CommentHeader, Seq<u8>, nat), Td0Error> {
    if pos + 10 > d.len() {
        Err(Td0Error::ReadError)
    } else {
        let h = comment_header_spec(d, pos as int);
        let end: nat = pos + 10 + h.length as nat;
        if end > d.len() {
            Err(Td0Error::ReadError)
        } else if td0_crc_spec(d.subrange(pos as int + 2, end as int), 0) != h.crc {
            Err(Td0Error::ImageCorruptError)
        } else {
            Ok((h, comment_text_spec(d.subrange(pos as int + 10, end as int)), end))
        }
    }
}

/// The image that the data `d` from `pos` on describes, for a header `info`: the comment
/// block if the header announces one, then the track records.
pub open spec fn td0_body_spec(info: Td0ImageInfo, d: Seq<u8>, pos: nat) -> Option<Result<Td0ImageView, Td0Error>> {
    let start: Result<(Option<(CommentHeader, Seq<u8>)>, nat), Td0Error> = if info.has_comment_block {
        match td0_comment_spec(d, pos) {
            Ok((h, t, end)) => Ok((Some((h, t)), end)),
            Err(e) => Err(e),
        }
    } else {
        Ok((None, pos))
    };
    match start {
        Err(e) => Some(Err(e)),
        Ok((comment, p)) => match td0_tracks_spec(d, p) {
            None => None,
            Some(Err(e)) => Some(Err(e)),
            Some(Ok((ts, _))) => Some(Ok(Td0ImageView {
                info,
                comment,
                tracks: ts,
                cylinders: distinct_cylinders(ts, ts.len()),
                heads: info.header.heads,
                encoding: TrackDataEncoding::Mfm,
                data_rate: info.data_rate,
            })),
        },
    }
}

/// The image that the bytes `image` hold: its header, then, for an uncompressed image, the
/// body after the 12 header bytes. A compressed image is refused.
pub open spec fn td0_load_spec(image: Seq<u8>) -> Option<Result<Td0ImageView, Td0Error>> {
    match td0_info_spec(image) {
        Err(e) => Some(Err(e)),
        Ok(info) => if info.compressed {
            Some(Err(Td0Error::Compressed))
        } else {
            td0_body_spec(info, image, 12)
        },
    }
}

/// Decoding repeated patterns that fill some output stops inside the input.
proof fn lemma_repeated_end(input: Seq<u8>, pos: nat, d: nat, n: nat)
    requires
        d < n,
        repeated_decode(input, pos, d, n) is Ok,
    ensures
        repeated_decode(input, pos, d, n).unwrap().1 <= input.len(),
    decreases input.len() - pos,
{
    let k = le16(input, pos as int) as nat;
    if d + 2 * k < n {
        lemma_repeated_end(input, pos + 4, d + 2 * k, n);
    } else {
        assert(repeated_decode(input, pos + 4, d + 2 * k, n) == Ok::<(Seq<u8>, nat), Td0Error>((Seq::empty(), pos + 4)));
    }
}

/// Decoding run-length blocks that fill some output stops inside the input.
proof fn lemma_rle_end(input: Seq<u8>, pos: nat, d: nat, n: nat)
    requires
        d < n,
        rle_decode(input, pos, d, n) matches Some(Ok(_)),
    ensures
        rle_decode(input, pos, d, n).unwrap().unwrap().1 <= input.len(),
    decreases input.len() - pos,
{
    let (bytes, p2, d2) = rle_block(input, pos, d, n).unwrap().unwrap();
    if d2 < n {
        lemma_rle_end(input, p2, d2, n);
    } else {
        assert(rle_decode(input, p2, d2, n) == Some(Ok::<(Seq<u8>, nat), Td0Error>((Seq::empty(), p2))));
    }
}

impl Td0Format {
    /// Read the sector record at `pos` of `d` (see [td0_sector_spec]); the sector if it
    /// carries data, and the position after the record.
    fn read_sector(d: &[u8], pos: usize) -> (r: Result<(Option<Td0Sector>, usize), Td0Error>)
        requires
            td0_sector_spec(d@, pos as nat) is Some,
        ensures
            match td0_sector_spec(d@, pos as nat) {
                Some(Ok((s, p))) => r matches Ok((x, q)) && q == p && s == match x {
                    Some(y) => Some(td0_sector_view(y)),
                    None => None::<Td0SectorView>,
                },
                Some(Err(e)) => r matches Err(f) && f == e,
                None => false,
            },
            r matches Ok((_, q)) ==> pos < q <= d@.len(),
    {
        if pos > d.len() || d.len() - pos < 6 {
            return Err(Td0Error::ReadError);
        }
        let h = SectorHeader {
            cylinder: d[pos],
            head: d[pos + 1],
            sector_id: d[pos + 2],
            sector_size: d[pos + 3],
            flags: d[pos + 4],
            crc: d[pos + 5],
        };
        if h.flags & (SECTOR_NO_DAM | SECTOR_SKIPPED) != 0 {
            return Ok((None, pos + 6));
        }
        if d.len() - pos < 9 {
            return Err(Td0Error::ReadError);
        }
        if h.sector_size > 7 {
            return Err(Td0Error::FormatParseError);
        }
        let n = td0_sector_size(h.sector_size);
        let enc = d[pos + 8];
        let p = pos + 9;
        let mut data: Vec<u8> = vec![0u8; n];
        let q: usize;
        if enc == 0 {
            if d.len() - p < n {
                return Err(Td0Error::ReadError);
            }
            data = copy_range(d, p, n);
            q = p + n;
        } else if enc == 1 {
            proof { if repeated_decode(d@, p as nat, 0, n as nat) is Ok { lemma_repeated_end(d@, p as nat, 0, n as nat); } }
            match Self::td0_decompress_repeated_data(d, p, &mut data) {
                Ok(x) => { q = x; },
                Err(e) => { return Err(e); },
            }
        } else if enc == 2 {
            proof { if rle_decode(d@, p as nat, 0, n as nat) matches Some(Ok(_)) { lemma_rle_end(d@, p as nat, 0, n as nat); } }
            match Self::td0_decompress_rle_data(d, p, &mut data) {
                Ok(x) => { q = x; },
                Err(e) => { return Err(e); },
            }
        } else {
            return Err(Td0Error::FormatParseError);
        }
        proof {
            assert(h == sector_header_spec(d@, pos as int));
            assert(enc == d@[pos + 8]);
            assert(td0_sector_data(d@, p as nat, enc, n as nat) == Some(Ok::<(Seq<u8>, nat), Td0Error>((data@, q as nat))));
        }
        let crc = td0_crc(data.as_slice(), 0);
        if (crc % 256) as u8 != h.crc {
            return Err(Td0Error::ImageCorruptError);
        }
        proof { assert(crc_low(td0_crc_spec(data@, 0)) == h.crc); }
        Ok((Some(Td0Sector { header: h, data }), q))
    }

    /// Read `k` sector records from `pos` of `d` (see [td0_sectors_spec]).
    fn read_sectors(d: &[u8], pos: usize, k: u8) -> (r: Result<(Vec<Td0Sector>, usize), Td0Error>)
        requires
            td0_sectors_spec(d@, pos as nat, k as nat) is Some,
            pos <= d@.len(),
        ensures
            match td0_sectors_spec(d@, pos as nat, k as nat) {
                Some(Ok((ss, p))) => r matches Ok((v, q)) && q == p && td0_sector_views(v@) == ss,
                Some(Err(e)) => r matches Err(f) && f == e,
                None => false,
            },
            r matches Ok((_, q)) ==> pos <= q <= d@.len(),
    {
        let mut out: Vec<Td0Sector> = Vec::new();
        let mut cur = pos;
        let mut i: u8 = 0;
        while i < k
            invariant
                i <= k,
                pos <= cur <= d@.len(),
                td0_sectors_spec(d@, cur as nat, (k - i) as nat) is Some,
                td0_sectors_spec(d@, pos as nat, k as nat) == match td0_sectors_spec(d@, cur as nat, (k - i) as nat) {
                    Some(Ok((ss, q))) => Some(Ok((td0_sector_views(out@) + ss, q))),
                    other => other,
                },
            decreases k - i,
        {
            let ghost rest = (k - i - 1) as nat;
            proof {
                assert(td0_sectors_spec(d@, cur as nat, (k - i) as nat) == match td0_sector_spec(d@, cur as nat) {
                    None => None,
                    Some(Err(e)) => Some(Err(e)),
                    Some(Ok((s, p))) => match td0_sectors_spec(d@, p, rest) {
                        Some(Ok((ss, q))) => Some(Ok((opt_sector_seq(s) + ss, q))),
                        other => other,
                    },
                });
            }
            let ghost before = td0_sector_views(out@);
            match Self::read_sector(d, cur) {
                Ok((s, p)) => {
                    match s {
                        Some(x) => {
                            out.push(x);
                            proof {
                                assert(td0_sector_views(out@) =~= before + seq![td0_sector_view(x)]);
                            }
                        },
                        None => {},
                    }
                    proof {
                        let sv = td0_sector_spec(d@, cur as nat).unwrap().unwrap().0;
                        assert(td0_sector_views(out@) =~= before + opt_sector_seq(sv));
                        match td0_sectors_spec(d@, p as nat, rest) {
                            Some(Ok((ss, q))) => {
                                assert(before + (opt_sector_seq(sv) + ss) =~= td0_sector_views(out@) + ss);
                            },
                            _ => {},
                        }
                    }
                    cur = p;
                },
                Err(e) => {
                    return Err(e);
                },
            }
            i += 1;
        }
        proof { assert(td0_sector_views(out@) + Seq::<Td0SectorView>::empty() =~= td0_sector_views(out@)); }
        Ok((out, cur))
    }

    /// Read the track records from `pos` of decompressed image data `data` (see
    /// [td0_tracks_spec]). Returns the tracks and the position after the list.
    pub fn read_tracks(data: &[u8], pos: usize) -> (r: Result<(Vec<Td0Track>, usize), Td0Error>)
        requires
            td0_tracks_spec(data@, pos as nat) is Some,
        ensures
            match td0_tracks_spec(data@, pos as nat) {
                Some(Ok((t, p))) => r matches Ok((v, q)) && td0_track_views(v@) == t && q == p,
                Some(Err(e)) => r == Err::<(Vec<Td0Track>, usize), Td0Error>(e),
                None => false,
            },
    {
        let mut out: Vec<Td0Track> = Vec::new();
        let mut cur = pos;
        let dlen = data.len();
        loop
            invariant
                data@.len() == dlen,
                cur == pos || cur <= dlen,
                td0_tracks_spec(data@, cur as nat) is Some,
                td0_tracks_spec(data@, pos as nat) == match td0_tracks_spec(data@, cur as nat) {
                    Some(Ok((ts, q))) => Some(Ok((td0_track_views(out@) + ts, q))),
                    other => other,
                },
            decreases dlen - cur,
        {
            if cur > dlen || dlen - cur < 4 {
                proof { assert(td0_track_views(out@) + Seq::<Td0TrackView>::empty() =~= td0_track_views(out@)); }
                return Ok((out, cur));
            }
            let th = TrackHeader { sectors: data[cur], cylinder: data[cur + 1], head: data[cur + 2], crc: data[cur + 3] };
            if th.sectors == 0xFF {
                proof { assert(td0_track_views(out@) + Seq::<Td0TrackView>::empty() =~= td0_track_views(out@)); }
                return Ok((out, cur + 4));
            }
            let crc = td0_crc(slice_range(data, cur, cur + 3), 0);
            if (crc % 256) as u8 != th.crc {
                return Err(Td0Error::ImageCorruptError);
            }
            proof { assert(th == track_header_spec(data@, cur as int)); }
            let (sectors, p) = match Self::read_sectors(data, cur + 4, th.sectors) {
                Ok(x) => x,
                Err(e) => { return Err(e); },
            };
            let ghost before = td0_track_views(out@);
            let track = Td0Track { header: th, sectors };
            out.push(track);
            proof {
                let tv = Td0TrackView { header: th, sectors: td0_sector_views(track.sectors@) };
                assert(td0_track_views(out@) =~= before + seq![tv]);
                match td0_tracks_spec(data@, p as nat) {
                    Some(Ok((ts, q))) => {
                        assert(before + (seq![tv] + ts) =~= td0_track_views(out@) + ts);
                    },
                    _ => {},
                }
            }
            cur = p;
        }
    }

    /// The number of different cylinders that the tracks lie on.
    fn count_cylinders(tracks: &Vec<Td0Track>) -> (r: usize)
        ensures
            r == distinct_cylinders(td0_track_views(tracks@), tracks@.len()),
    {
        let ghost ts = td0_track_views(tracks@);
        let mut seen: Vec<bool> = vec![false; 256];
        let mut count: usize = 0;
        let mut i: usize = 0;
        while i < tracks.len()
            invariant
                i <= tracks@.len(),
                ts == td0_track_views(tracks@),
                ts.len() == tracks@.len(),
                seen@.len() == 256,
                count <= i,
                count == distinct_cylinders(ts, i as nat),
                forall|c: u8| #[trigger] seen@[c as int] == cylinder_seen(ts, i as int, c),
            decreases tracks.len() - i,
        {
            let c = tracks[i].header.cylinder;
            assert(ts[i as int].header.cylinder == c);
            if !seen[c as usize] {
                count += 1;
            }
            seen.set(c as usize, true);
            proof {
                assert forall|x: u8| #[trigger] seen@[x as int] == cylinder_seen(ts, i + 1, x) by {
                    if x == c {
                        assert(ts[i as int].header.cylinder == x);
                    } else {
                        if cylinder_seen(ts, i + 1, x) {
                            let j = choose|j: int| 0 <= j < i + 1 && #[trigger] ts[j].header.cylinder == x;
                            assert(j < i);
                        }
                    }
                }
            }
            i += 1;
        }
        count
    }

    /// Read an image body from `pos` of `data` for a checked header `info` (see
    /// [td0_body_spec]): for an uncompressed image `data` is the image and `pos` 12; for a
    /// compressed one, `data` is its expanded data and `pos` 0.
    pub fn load_body(info: Td0ImageInfo, data: &[u8], pos: usize) -> (r: Result<Td0Image, Td0Error>)
        requires
            td0_body_spec(info, data@, pos as nat) is Some,
        ensures
            match td0_body_spec(info, data@, pos as nat) {
                Some(Ok(v)) => r matches Ok(x) && td0_image_view(x) == v,
                Some(Err(e)) => r == Err::<Td0Image, Td0Error>(e),
                None => false,
            },
    {
        let mut comment: Option<(CommentHeader, Vec<u8>)> = None;
        let mut start = pos;
        if info.has_comment_block {
            match Self::read_comment_block(data, pos) {
                Ok((h, text, end)) => {
                    comment = Some((h, text));
                    start = end;
                },
                Err(e) => { return Err(e); },
            }
        }
        let (tracks, _) = match Self::read_tracks(data, start) {
            Ok(x) => x,
            Err(e) => { return Err(e); },
        };
        let cylinders = Self::count_cylinders(&tracks);
        Ok(Td0Image {
            info,
            comment,
            tracks,
            cylinders,
            heads: info.header.heads,
            encoding: TrackDataEncoding::Mfm,
            data_rate: info.data_rate,
        })
    }

    /// Read a TeleDisk image (see [td0_load_spec]): check its header, then read the comment
    /// block and tracks that follow it. A compressed image is refused with
    /// [Td0Error::Compressed]; its expanded data can be read with [Td0Format::load_body].
    pub fn load_image(image: &[u8]) -> (r: Result<Td0Image, Td0Error>)
        requires
            td0_load_spec(image@) is Some,
        ensures
            match td0_load_spec(image@) {
                Some(Ok(v)) => r matches Ok(x) && td0_image_view(x) == v,
                Some(Err(e)) => r == Err::<Td0Image, Td0Error>(e),
                None => false,
            },
            r matches Ok(x) ==> x.heads == image@[9] && x.encoding == TrackDataEncoding::Mfm
                && x.data_rate == td0_rate_spec(image@[5]) && !x.info.compressed,
            r matches Ok(x) ==> (x.data_rate == TrackDataRate::Rate250Kbps <==> image@[5] % 4 == 0)
                && (x.data_rate == TrackDataRate::Rate500Kbps <==> image@[5] % 4 == 2)
                && (x.data_rate == TrackDataRate::Rate300Kbps <==> (image@[5] % 4 == 1 || image@[5] % 4 == 3)),
    {
        proof { if image@.len() > 5 { law_td0_rate(image@[5]); } }
        let info = match Self::read_image_header(image) {
            Ok(i) => i,
            Err(e) => { return Err(e); },
        };
        if info.compressed {
            return Err(Td0Error::Compressed);
        }
        Self::load_body(info, image, 12)
    }
}

} // verus!
