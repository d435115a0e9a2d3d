//! HxC HFE images.
use vstd::prelude::*;
use crate::file_parsers::{
    bitstream_bits, bitstream_flags, str_views, FormatCaps, CAP_COMMENT, CAP_ENCODING_FM,
    CAP_ENCODING_MFM, CAP_TRACK_ENCODING, CAP_WEAK_BITS,
};
use crate::types::{DiskCh, Platform, TrackDensity};
use crate::file_parsers::bytes::le16;

verus! {

/// The parser of HxC HFE images.
pub struct HfeFormat {}

impl HfeFormat {
    /// The file extensions advertised for the format.
    pub fn extensions() -> (r: Vec<&'static str>)
        ensures
            str_views(r@) == seq!["hfe"@],
    {
        let r = vec!["hfe"];
        assert(str_views(r@) =~= seq!["hfe"@]);
        r
    }

    /// The capability flags of the format.
    pub fn capabilities() -> (r: FormatCaps)
        ensures
            r@ == 0,
    {
        FormatCaps::empty()
    }
}

/// The byte whose bits are those of `b` in reverse order.
pub open spec fn reversed_bits(b: u8) -> u8 {
    ((b & 0x01) << 7u8) | ((b & 0x02) << 5u8) | ((b & 0x04) << 3u8) | ((b & 0x08) << 1u8)
        | ((b & 0x10) >> 1u8) | ((b & 0x20) >> 3u8) | ((b & 0x40) >> 5u8) | ((b & 0x80) >> 7u8)
}

/// Reverse the order of the bits of a byte.
pub fn reverse_bits(byte: u8) -> (r: u8)
    ensures
        r == reversed_bits(byte),
{
    let mut b = (byte << 4u8) | (byte >> 4u8);
    b = ((b & 0x33) << 2u8) | ((b & 0xCC) >> 2u8);
    b = ((b & 0x55) << 1u8) | ((b & 0xAA) >> 1u8);
    assert(((((((((byte << 4u8) | (byte >> 4u8)) & 0x33) << 2u8) | ((((byte << 4u8) | (byte >> 4u8)) & 0xCC) >> 2u8)) & 0x55) << 1u8)
        | (((((((byte << 4u8) | (byte >> 4u8)) & 0x33) << 2u8) | ((((byte << 4u8) | (byte >> 4u8)) & 0xCC) >> 2u8)) & 0xAA) >> 1u8))
        == reversed_bits(byte)) by (bit_vector);
    b
}

/// A table of the bit reversals of all bytes: entry `i` is `i` with its bits reversed.
pub fn generate_reverse_table() -> (r: Vec<u8>)
    ensures
        r@.len() == 256,
        forall|i: int| 0 <= i < 256 ==> r@[i] == reversed_bits(i as u8),
{
    let mut table: Vec<u8> = Vec::new();
    let mut i: usize = 0;
    while i < 256
        invariant
            i <= 256,
            table@.len() == i,
            forall|j: int| 0 <= j < i ==> table@[j] == reversed_bits(j as u8),
        decreases 256 - i,
    {
        table.push(reverse_bits(i as u8));
        i += 1;
    }
    table
}

/// Reversing the bits of a byte twice gives the byte back.
pub proof fn lemma_reverse_involution(b: u8)
    ensures
        reversed_bits(reversed_bits(b)) == b,
{
    assert(reversed_bits(reversed_bits(b)) == b) by (bit_vector);
}

/// The block size that blocks of track data are stored in, in bytes.
pub const HFE_TRACK_OFFSET_BLOCK: u64 = 0x200;

/// The floppy interface that an HFE image was made for.
#[derive(Copy, Clone, Debug, PartialEq, Eq, Structural)]
pub enum HfeFloppyInterface {
    IbmPcDd,
    IbmPcHd,
    AtariStDd,
    AtariStHd,
    AmigaDd,
    AmigaHd,
    CpcDd,
    GenericShugartDd,
    IbmPcEd,
    Msx2Dd,
    C64Dd,
    EmuShugart,
    S950Dd,
    S950Hd,
    Disable,
    Unknown,
}

/// The interface that an interface mode byte names.
pub open spec fn interface_spec(v: u8) -> HfeFloppyInterface {
    if v == 0x00 { HfeFloppyInterface::IbmPcDd }
    else if v == 0x01 { HfeFloppyInterface::IbmPcHd }
    else if v == 0x02 { HfeFloppyInterface::AtariStDd }
    else if v == 0x03 { HfeFloppyInterface::AtariStHd }
    else if v == 0x04 { HfeFloppyInterface::AmigaDd }
    else if v == 0x05 { HfeFloppyInterface::AmigaHd }
    else if v == 0x06 { HfeFloppyInterface::CpcDd }
    else if v == 0x07 { HfeFloppyInterface::GenericShugartDd }
    else if v == 0x08 { HfeFloppyInterface::IbmPcEd }
    else if v == 0x09 { HfeFloppyInterface::Msx2Dd }
    else if v == 0x0A { HfeFloppyInterface::C64Dd }
    else if v == 0x0B { HfeFloppyInterface::EmuShugart }
    else if v == 0x0C { HfeFloppyInterface::S950Dd }
    else if v == 0x0D { HfeFloppyInterface::S950Hd }
    else if v == 0xFE { HfeFloppyInterface::Disable }
    else { HfeFloppyInterface::Unknown }
}

/// The interface mode byte of each interface, as the HxC format numbers them.
pub open spec fn interface_code(i: HfeFloppyInterface) -> u8 {
    match i {
        HfeFloppyInterface::IbmPcDd => 0x00,
        HfeFloppyInterface::IbmPcHd => 0x01,
        HfeFloppyInterface::AtariStDd => 0x02,
        HfeFloppyInterface::AtariStHd => 0x03,
        HfeFloppyInterface::AmigaDd => 0x04,
        HfeFloppyInterface::AmigaHd => 0x05,
        HfeFloppyInterface::CpcDd => 0x06,
        HfeFloppyInterface::GenericShugartDd => 0x07,
        HfeFloppyInterface::IbmPcEd => 0x08,
        HfeFloppyInterface::Msx2Dd => 0x09,
        HfeFloppyInterface::C64Dd => 0x0A,
        HfeFloppyInterface::EmuShugart => 0x0B,
        HfeFloppyInterface::S950Dd => 0x0C,
        HfeFloppyInterface::S950Hd => 0x0D,
        HfeFloppyInterface::Disable => 0xFE,
        HfeFloppyInterface::Unknown => 0xFF,
    }
}

/// Whether an interface mode byte names an interface: 0x00 to 0x0D, and 0xFE.
pub open spec fn interface_known(v: u8) -> bool {
    v <= 0x0D || v == 0xFE
}

/// Reading an interface mode byte and writing the interface's number back gives the byte
/// again, for every byte that names an interface; every other byte reads as `Unknown`. And
/// reading the number of any interface gives that interface back.
pub proof fn law_interface_round_trip(v: u8, i: HfeFloppyInterface)
    ensures
        interface_known(v) ==> interface_code(interface_spec(v)) == v,
        !interface_known(v) ==> interface_spec(v) == HfeFloppyInterface::Unknown,
        interface_spec(interface_code(i)) == i,
{
}

impl From<u8> for HfeFloppyInterface {
    fn from(value: u8) -> (r: Self)
        ensures
            interface_known(value) ==> interface_code(r) == value,
            !interface_known(value) ==> r == HfeFloppyInterface::Unknown,
    {
        proof { law_interface_round_trip(value, HfeFloppyInterface::Unknown); }
        match value {
            0x00 => HfeFloppyInterface::IbmPcDd,
            0x01 => HfeFloppyInterface::IbmPcHd,
            0x02 => HfeFloppyInterface::AtariStDd,
            0x03 => HfeFloppyInterface::AtariStHd,
            0x04 => HfeFloppyInterface::AmigaDd,
            0x05 => HfeFloppyInterface::AmigaHd,
            0x06 => HfeFloppyInterface::CpcDd,
            0x07 => HfeFloppyInterface::GenericShugartDd,
            0x08 => HfeFloppyInterface::IbmPcEd,
            0x09 => HfeFloppyInterface::Msx2Dd,
            0x0A => HfeFloppyInterface::C64Dd,
            0x0B => HfeFloppyInterface::EmuShugart,
            0x0C => HfeFloppyInterface::S950Dd,
            0x0D => HfeFloppyInterface::S950Hd,
            0xFE => HfeFloppyInterface::Disable,
            _ => HfeFloppyInterface::Unknown,
        }
    }
}

impl vstd::std_specs::convert::FromSpecImpl<u8> for HfeFloppyInterface {
    open spec fn obeys_from_spec() -> bool {
        true
    }

    open spec fn from_spec(v: u8) -> Self {
        interface_spec(v)
    }
}

impl HfeFloppyInterface {
    /// The interface of a platform and track density; other pairs are `Unknown`.
    pub fn from_platform(platform: Platform, density: TrackDensity) -> (r: HfeFloppyInterface)
        ensures
            r == match (platform, density) {
                (Platform::IbmPc, TrackDensity::Double) => HfeFloppyInterface::IbmPcDd,
                (Platform::IbmPc, TrackDensity::High) => HfeFloppyInterface::IbmPcHd,
                (Platform::IbmPc, TrackDensity::Extended) => HfeFloppyInterface::IbmPcEd,
                (Platform::Amiga, TrackDensity::Double) => HfeFloppyInterface::AmigaDd,
                (Platform::Amiga, TrackDensity::High) => HfeFloppyInterface::AmigaHd,
                _ => HfeFloppyInterface::Unknown,
            },
    {
        match (platform, density) {
            (Platform::IbmPc, TrackDensity::Double) => HfeFloppyInterface::IbmPcDd,
            (Platform::IbmPc, TrackDensity::High) => HfeFloppyInterface::IbmPcHd,
            (Platform::IbmPc, TrackDensity::Extended) => HfeFloppyInterface::IbmPcEd,
            (Platform::Amiga, TrackDensity::Double) => HfeFloppyInterface::AmigaDd,
            (Platform::Amiga, TrackDensity::High) => HfeFloppyInterface::AmigaHd,
            _ => HfeFloppyInterface::Unknown,
        }
    }

    /// The platform of the interface, for the PC and Amiga interfaces.
    pub fn platform(&self) -> (r: Option<Platform>)
        ensures
            r == match self {
                HfeFloppyInterface::IbmPcDd | HfeFloppyInterface::IbmPcHd | HfeFloppyInterface::IbmPcEd => Some(Platform::IbmPc),
                HfeFloppyInterface::AmigaDd | HfeFloppyInterface::AmigaHd => Some(Platform::Amiga),
                _ => None::<Platform>,
            },
    {
        match self {
            HfeFloppyInterface::IbmPcDd | HfeFloppyInterface::IbmPcHd | HfeFloppyInterface::IbmPcEd => Some(Platform::IbmPc),
            HfeFloppyInterface::AmigaDd | HfeFloppyInterface::AmigaHd => Some(Platform::Amiga),
            _ => None,
        }
    }

    /// The interface mode byte of the interface.
    pub fn code(&self) -> (r: u8)
        ensures
            r == interface_code(*self),
    {
        match self {
            HfeFloppyInterface::IbmPcDd => 0x00,
            HfeFloppyInterface::IbmPcHd => 0x01,
            HfeFloppyInterface::AtariStDd => 0x02,
            HfeFloppyInterface::AtariStHd => 0x03,
            HfeFloppyInterface::AmigaDd => 0x04,
            HfeFloppyInterface::AmigaHd => 0x05,
            HfeFloppyInterface::CpcDd => 0x06,
            HfeFloppyInterface::GenericShugartDd => 0x07,
            HfeFloppyInterface::IbmPcEd => 0x08,
            HfeFloppyInterface::Msx2Dd => 0x09,
            HfeFloppyInterface::C64Dd => 0x0A,
            HfeFloppyInterface::EmuShugart => 0x0B,
            HfeFloppyInterface::S950Dd => 0x0C,
            HfeFloppyInterface::S950Hd => 0x0D,
            HfeFloppyInterface::Disable => 0xFE,
            HfeFloppyInterface::Unknown => 0xFF,
        }
    }

    /// The track density of the interface.
    pub fn density(&self) -> (r: TrackDensity)
        ensures
            r == match self {
                HfeFloppyInterface::IbmPcHd | HfeFloppyInterface::AtariStHd | HfeFloppyInterface::AmigaHd
                    | HfeFloppyInterface::S950Hd => TrackDensity::High,
                HfeFloppyInterface::IbmPcEd => TrackDensity::Extended,
                _ => TrackDensity::Double,
            },
    {
        match self {
            HfeFloppyInterface::IbmPcHd | HfeFloppyInterface::AtariStHd | HfeFloppyInterface::AmigaHd
                | HfeFloppyInterface::S950Hd => TrackDensity::High,
            HfeFloppyInterface::IbmPcEd => TrackDensity::Extended,
            _ => TrackDensity::Double,
        }
    }
}

/// The track encoding of an HFE image.
#[derive(Copy, Clone, Debug, PartialEq, Eq, Structural)]
pub enum HfeFloppyEncoding {
    IsoIbmMfm,
    AmigaMfm,
    IsoIbmFm,
    EmuFm,
    Unknown,
}

/// The encoding that an encoding byte names.
pub open spec fn encoding_spec(v: u8) -> HfeFloppyEncoding {
    if v == 0 { HfeFloppyEncoding::IsoIbmMfm }
    else if v == 1 { HfeFloppyEncoding::AmigaMfm }
    else if v == 2 { HfeFloppyEncoding::IsoIbmFm }
    else if v == 3 { HfeFloppyEncoding::EmuFm }
    else { HfeFloppyEncoding::Unknown }
}

impl From<u8> for HfeFloppyEncoding {
    fn from(value: u8) -> (r: Self) {
        match value {
            0x00 => HfeFloppyEncoding::IsoIbmMfm,
            0x01 => HfeFloppyEncoding::AmigaMfm,
            0x02 => HfeFloppyEncoding::IsoIbmFm,
            0x03 => HfeFloppyEncoding::EmuFm,
            _ => HfeFloppyEncoding::Unknown,
        }
    }
}

impl vstd::std_specs::convert::FromSpecImpl<u8> for HfeFloppyEncoding {
    open spec fn obeys_from_spec() -> bool {
        true
    }

    open spec fn from_spec(v: u8) -> Self {
        encoding_spec(v)
    }
}

/// Errors of HFE decoding.
#[derive(Clone, Copy, Debug, PartialEq, Eq, Structural)]
pub enum HfeError {
    /// The input ended before a complete record.
    ReadError,
    /// The data is not laid out as the format says.
    FormatParseError,
    /// The image does not carry the HFE signature.
    UnknownFormat,
}

/// The bytes of `s` with the bits of each reversed.
pub open spec fn reverse_all(s: Seq<u8>) -> Seq<u8> {
    s.map_values(|b: u8| reversed_bits(b))
}

/// The data of the two heads of a track of `remaining` bytes stored from `pos` on: blocks of
/// 256 bytes for each head in turn, a shorter last block split evenly between the heads, every
/// byte with its bits reversed.
pub open spec fn hfe_track_spec(s: Seq<u8>, pos: nat, remaining: nat) -> Result<(Seq<u8>, Seq<u8>), HfeError>
    decreases remaining,
{
    if remaining == 0 {
        Ok((Seq::empty(), Seq::empty()))
    } else {
        let bs: nat = if remaining >= 512 { 256 } else { remaining / 2 };
        if pos + 2 * bs > s.len() {
            Err(HfeError::ReadError)
        } else {
            let h0 = reverse_all(s.subrange(pos as int, (pos + bs) as int));
            let h1 = reverse_all(s.subrange((pos + bs) as int, (pos + 2 * bs) as int));
            if remaining < 512 {
                Ok((h0, h1))
            } else {
                match hfe_track_spec(s, pos + 512, (remaining - 512) as nat) {
                    Ok((r0, r1)) => Ok((h0 + r0, h1 + r1)),
                    Err(e) => Err(e),
                }
            }
        }
    }
}

impl HfeFormat {
    /// Split the data of a track of `len` bytes stored at `pos` of `image` into the data of its
    /// two heads, reversing the bits of every byte.
    pub fn read_track_data(image: &[u8], pos: usize, len: usize) -> (r: Result<(Vec<u8>, Vec<u8>), HfeError>)
        ensures
            match hfe_track_spec(image@, pos as nat, len as nat) {
                Ok((h0, h1)) => r matches Ok((a, b)) && a@ == h0 && b@ == h1,
                Err(e) => r == Err::<(Vec<u8>, Vec<u8>), HfeError>(e),
            },
    {
        let mut head0: Vec<u8> = Vec::new();
        let mut head1: Vec<u8> = Vec::new();
        let mut remaining = len;
        let mut cur = pos;
        let mut last_block = false;
        let ilen = image.len();
        while !last_block && remaining > 0
            invariant
                image@.len() == ilen,
                last_block ==> remaining < 512,
                hfe_track_spec(image@, pos as nat, len as nat) == if last_block {
                    Ok::<(Seq<u8>, Seq<u8>), HfeError>((head0@, head1@))
                } else {
                    match hfe_track_spec(image@, cur as nat, remaining as nat) {
                        Ok((r0, r1)) => Ok((head0@ + r0, head1@ + r1)),
                        Err(e) => Err(e),
                    }
                },
            decreases remaining, if last_block { 0nat } else { 1nat },
        {
            let block_data_size: usize = if remaining >= 512 {
                256
            } else {
                last_block = true;
                remaining / 2
            };
            if cur > ilen || ilen - cur < 2 * block_data_size {
                return Err(HfeError::ReadError);
            }
            let ghost g0 = head0@;
            let ghost g1 = head1@;
            append_reversed(&mut head0, image, cur, block_data_size);
            append_reversed(&mut head1, image, cur + block_data_size, block_data_size);
            proof {
                if !last_block {
                    let h0 = reverse_all(image@.subrange(cur as int, cur + 256));
                    let h1 = reverse_all(image@.subrange(cur + 256, cur + 512));
                    match hfe_track_spec(image@, (cur + 512) as nat, (remaining - 512) as nat) {
                        Ok((r0, r1)) => {
                            assert(g0 + (h0 + r0) =~= head0@ + r0);
                            assert(g1 + (h1 + r1) =~= head1@ + r1);
                        },
                        Err(e) => {},
                    }
                } else {
                    assert(g0 + reverse_all(image@.subrange(cur as int, cur + block_data_size)) =~= head0@);
                }
            }
            remaining = remaining - 2 * block_data_size;
            cur = cur + 2 * block_data_size;
        }
        proof {
            if !last_block {
                assert(head0@ + Seq::<u8>::empty() =~= head0@);
                assert(head1@ + Seq::<u8>::empty() =~= head1@);
            }
        }
        Ok((head0, head1))
    }
}

/// Append the `n` bytes of `src` at `pos`, each with its bits reversed, to `dst`.
fn append_reversed(dst: &mut Vec<u8>, src: &[u8], pos: usize, n: usize)
    requires
        pos + n <= src@.len(),
    ensures
        final(dst)@ == old(dst)@ + reverse_all(src@.subrange(pos as int, pos + n)),
{
    let ghost start = dst@;
    let mut k: usize = 0;
    let slen = src.len();
    while k < n
        invariant
            pos + n <= src@.len(),
            src@.len() == slen,
            k <= n,
            dst@ == start + reverse_all(src@.subrange(pos as int, pos + k)),
        decreases n - k,
    {
        let b = reverse_bits(src[pos + k]);
        dst.push(b);
        proof {
            assert(reverse_all(src@.subrange(pos as int, pos + k + 1)) =~= reverse_all(src@.subrange(pos as int, pos + k)).push(b));
        }
        k += 1;
    }
}

/// The file header of an HFE image.
#[derive(Clone, Copy, Debug)]
pub struct HfeFileHeader {
    pub signature: [u8; 8],
    pub format_revision: u8,
    pub number_of_tracks: u8,
    pub number_of_sides: u8,
    pub track_encoding: u8,
    pub bit_rate: u16,
    pub rpm: u16,
    pub interface_mode: u8,
    pub unused: u8,
    pub track_list_offset: u16,
    pub write_allowed: u8,
    pub single_step: u8,
    pub track0s0_alt_encoding: u8,
    pub track0s0_encoding: u8,
    pub track0s1_alt_encoding: u8,
    pub track0s1_encoding: u8,
}

/// The size of the file header in bytes.
pub const HFE_HEADER_SIZE: usize = 26;

/// The signature `HXCPICFE`.
pub open spec fn hfe_signature() -> Seq<u8> {
    seq![0x48u8, 0x58u8, 0x43u8, 0x50u8, 0x49u8, 0x43u8, 0x46u8, 0x45u8]
}

/// The file header stored at the start of `s`, little endian.
pub open spec fn hfe_header_of(s: Seq<u8>) -> HfeFileHeader {
    HfeFileHeader {
        signature: arbitrary(),
        format_revision: s[8],
        number_of_tracks: s[9],
        number_of_sides: s[10],
        track_encoding: s[11],
        bit_rate: le16(s, 12) as u16,
        rpm: le16(s, 14) as u16,
        interface_mode: s[16],
        unused: s[17],
        track_list_offset: le16(s, 18) as u16,
        write_allowed: s[20],
        single_step: s[21],
        track0s0_alt_encoding: s[22],
        track0s0_encoding: s[23],
        track0s1_alt_encoding: s[24],
        track0s1_encoding: s[25],
    }
}

/// Whether `h` is the file header stored at the start of `s`.
pub open spec fn is_hfe_header(s: Seq<u8>, h: HfeFileHeader) -> bool {
    h.signature@ == s.subrange(0, 8) && h == HfeFileHeader { signature: h.signature, ..hfe_header_of(s) }
}

impl HfeFileHeader {
    /// Read the file header from the start of `d`; `None` if `d` is too short.
    pub fn read(d: &[u8]) -> (r: Option<HfeFileHeader>)
        ensures
            d@.len() < HFE_HEADER_SIZE ==> r is None,
            d@.len() >= HFE_HEADER_SIZE ==> (r matches Some(h) && is_hfe_header(d@, h)),
    {
        if d.len() < HFE_HEADER_SIZE {
            return None;
        }
        let signature = [d[0], d[1], d[2], d[3], d[4], d[5], d[6], d[7]];
        assert(signature@ =~= d@.subrange(0, 8));
        Some(HfeFileHeader {
            signature,
            format_revision: d[8],
            number_of_tracks: d[9],
            number_of_sides: d[10],
            track_encoding: d[11],
            bit_rate: d[12] as u16 + d[13] as u16 * 256,
            rpm: d[14] as u16 + d[15] as u16 * 256,
            interface_mode: d[16],
            unused: d[17],
            track_list_offset: d[18] as u16 + d[19] as u16 * 256,
            write_allowed: d[20],
            single_step: d[21],
            track0s0_alt_encoding: d[22],
            track0s0_encoding: d[23],
            track0s1_alt_encoding: d[24],
            track0s1_encoding: d[25],
        })
    }
}

/// An entry of the track list: where a cylinder's data starts, in 512 byte blocks, and its
/// length in bytes.
#[derive(Clone, Copy, Debug, PartialEq, Eq, Structural)]
pub struct HfeTrackIndexEntry {
    pub index: usize,
    pub offset: u16,
    pub len: u16,
}

/// The track list entry `ti` of a list stored at `base` of `s`.
pub open spec fn hfe_entry_of(s: Seq<u8>, base: int, ti: int) -> HfeTrackIndexEntry {
    HfeTrackIndexEntry {
        index: ti as usize,
        offset: le16(s, base + 4 * ti) as u16,
        len: le16(s, base + 4 * ti + 2) as u16,
    }
}

/// The error that reading the track list entries `ti` to `n` at `base` of `s` meets, if any:
/// an entry cut short by the end of the image, or an odd length.
pub open spec fn hfe_index_error(s: Seq<u8>, base: int, ti: int, n: int) -> Option<HfeError>
    decreases n - ti,
{
    if ti >= n {
        None
    } else if base + 4 * ti + 4 > s.len() {
        Some(HfeError::ReadError)
    } else if hfe_entry_of(s, base, ti).len % 2 != 0 {
        Some(HfeError::FormatParseError)
    } else {
        hfe_index_error(s, base, ti + 1, n)
    }
}

/// A track of an HFE image: its address and its bitstream.
pub struct HfeTrack {
    pub ch: DiskCh,
    pub data: Vec<u8>,
}

/// The outcome of reading an HFE image: its tracks, an error, or a panic of the reader.
pub enum HfeOutcome {
    Done(Seq<(DiskCh, Seq<u8>)>),
    Failed(HfeError),
    Aborts,
}

/// Read the cylinders `ti` to the last of the image `s` with header `h`, whose track list is
/// at `base`, after the tracks `acc`. A cylinder's data runs from its offset; each cylinder
/// gives a track for head 0, and one for head 1 where the image has more than one side. The
/// reader panics where a cylinder's data starts after the next one's, or after the end of
/// the image for the last.
pub open spec fn hfe_tracks_run(s: Seq<u8>, h: HfeFileHeader, base: int, ti: int,
    acc: Seq<(DiskCh, Seq<u8>)>) -> HfeOutcome
    decreases h.number_of_tracks - ti,
{
    if ti >= h.number_of_tracks || ti < 0 {
        HfeOutcome::Done(acc)
    } else {
        let e = hfe_entry_of(s, base, ti);
        let off = e.offset * 512;
        let next = if ti + 1 < h.number_of_tracks { hfe_entry_of(s, base, ti + 1).offset * 512 } else { s.len() as int };
        if next < off {
            HfeOutcome::Aborts
        } else {
            match hfe_track_spec(s, off as nat, e.len as nat) {
                Err(err) => HfeOutcome::Failed(err),
                Ok((h0, h1)) => {
                    let acc0 = acc.push((DiskCh { c: ti as u16, h: 0 }, h0));
                    let acc1 = if h.number_of_sides > 1 { acc0.push((DiskCh { c: ti as u16, h: 1 }, h1)) } else { acc0 };
                    hfe_tracks_run(s, h, base, ti + 1, acc1)
                },
            }
        }
    }
}

/// The outcome of reading the HFE image `s`: its header, which must carry the signature,
/// then its track list, then the data of each cylinder.
pub open spec fn hfe_parse(s: Seq<u8>) -> HfeOutcome {
    if s.len() < HFE_HEADER_SIZE {
        HfeOutcome::Failed(HfeError::ReadError)
    } else if s.subrange(0, 8) != hfe_signature() {
        HfeOutcome::Failed(HfeError::UnknownFormat)
    } else {
        let h = hfe_header_of(s);
        let base = h.track_list_offset * 512;
        match hfe_index_error(s, base, 0, h.number_of_tracks as int) {
            Some(e) => HfeOutcome::Failed(e),
            None => hfe_tracks_run(s, h, base, 0, Seq::empty()),
        }
    }
}

/// The contents of an HFE image.
pub struct HfeImage {
    pub header: HfeFileHeader,
    pub interface: HfeFloppyInterface,
    pub encoding: HfeFloppyEncoding,
    /// The tracks, cylinder by cylinder, head 0 before head 1.
    pub tracks: Vec<HfeTrack>,
}

/// The addresses and bitstreams of a list of tracks.
pub open spec fn hfe_track_views(v: Seq<HfeTrack>) -> Seq<(DiskCh, Seq<u8>)> {
    v.map_values(|t: HfeTrack| (t.ch, t.data@))
}

impl HfeFormat {
    /// Whether `image` starts with an HFE file header carrying the signature `HXCPICFE`.
    pub fn detect(image: &[u8]) -> (r: bool)
        ensures
            r == (image@.len() >= HFE_HEADER_SIZE && image@.subrange(0, 8) == hfe_signature()),
    {
        match HfeFileHeader::read(image) {
            Some(h) => is_signature(&h.signature),
            None => false,
        }
    }

    /// Read an HFE image: the header, the track list, and the data of each cylinder. Images on
    /// which reading would panic (cylinder data out of order) are left out.
    pub fn load_image(image: &[u8]) -> (r: Result<HfeImage, HfeError>)
        requires
            !(hfe_parse(image@) is Aborts),
        ensures
            match hfe_parse(image@) {
                HfeOutcome::Done(tracks) => r matches Ok(img) && is_hfe_header(image@, img.header)
                    && img.interface == interface_spec(img.header.interface_mode)
                    && img.encoding == encoding_spec(img.header.track_encoding)
                    && hfe_track_views(img.tracks@) == tracks,
                HfeOutcome::Failed(e) => r == Err::<HfeImage, HfeError>(e),
                HfeOutcome::Aborts => true,
            },
            r matches Ok(img) ==> img.header.interface_mode == image@[16]
                && (interface_known(image@[16]) ==> interface_code(img.interface) == image@[16])
                && (!interface_known(image@[16]) ==> img.interface == HfeFloppyInterface::Unknown),
    {
        let header = match HfeFileHeader::read(image) {
            Some(h) => h,
            None => return Err(HfeError::ReadError),
        };
        if !is_signature(&header.signature) {
            return Err(HfeError::UnknownFormat);
        }
        assert(header == HfeFileHeader { signature: header.signature, ..hfe_header_of(image@) });
        let base: usize = header.track_list_offset as usize * 512;
        let n = header.number_of_tracks as usize;
        let entries = read_track_list(image, base, n)?;
        let mut tracks: Vec<HfeTrack> = Vec::new();
        let mut ti: usize = 0;
        let ghost target = hfe_parse(image@);
        assert(hfe_track_views(tracks@) =~= Seq::<(DiskCh, Seq<u8>)>::empty());
        while ti < n
            invariant
                n == header.number_of_tracks,
                base == header.track_list_offset * 512,
                entries@.len() == n,
                forall|k: int| 0 <= k < n ==> entries@[k] == hfe_entry_of(image@, base as int, k),
                header == (HfeFileHeader { signature: header.signature, ..hfe_header_of(image@) }),
                target == hfe_parse(image@),
                !(target is Aborts),
                ti <= n,
                target == hfe_tracks_run(image@, hfe_header_of(image@), base as int, ti as int, hfe_track_views(tracks@)),
            decreases n - ti,
        {
            let e = entries[ti];
            let off: usize = e.offset as usize * 512;
            let (h0, h1) = match HfeFormat::read_track_data(image, off, e.len as usize) {
                Ok(x) => x,
                Err(err) => return Err(err),
            };
            let ghost before = hfe_track_views(tracks@);
            let t0 = HfeTrack { ch: DiskCh { c: ti as u16, h: 0 }, data: h0 };
            tracks.push(t0);
            assert(hfe_track_views(tracks@) =~= before.push((DiskCh { c: ti as u16, h: 0 }, h0@)));
            if header.number_of_sides > 1 {
                let ghost before1 = hfe_track_views(tracks@);
                let t1 = HfeTrack { ch: DiskCh { c: ti as u16, h: 1 }, data: h1 };
                tracks.push(t1);
                assert(hfe_track_views(tracks@) =~= before1.push((DiskCh { c: ti as u16, h: 1 }, h1@)));
            }
            ti += 1;
        }
        Ok(HfeImage {
            header,
            interface: HfeFloppyInterface::from(header.interface_mode),
            encoding: HfeFloppyEncoding::from(header.track_encoding),
            tracks,
        })
    }
}

/// Whether an eight byte signature is `HXCPICFE`.
fn is_signature(sig: &[u8; 8]) -> (r: bool)
    ensures
        r == (sig@ == hfe_signature()),
{
    let r = sig[0] == 0x48 && sig[1] == 0x58 && sig[2] == 0x43 && sig[3] == 0x50 && sig[4] == 0x49
        && sig[5] == 0x43 && sig[6] == 0x46 && sig[7] == 0x45;
    proof {
        if r {
            assert(sig@ =~= hfe_signature());
        }
    }
    r
}

/// Read the `n` entries of the track list stored at `base` of `image`, each with an even
/// length.
fn read_track_list(image: &[u8], base: usize, n: usize) -> (r: Result<Vec<HfeTrackIndexEntry>, HfeError>)
    requires
        n < 256,
    ensures
        match hfe_index_error(image@, base as int, 0, n as int) {
            Some(e) => r == Err::<Vec<HfeTrackIndexEntry>, HfeError>(e),
            None => r matches Ok(v) && v@.len() == n
                && forall|k: int| 0 <= k < n ==> v@[k] == hfe_entry_of(image@, base as int, k),
        },
{
    let mut v: Vec<HfeTrackIndexEntry> = Vec::new();
    let mut ti: usize = 0;
    while ti < n
        invariant
            n < 256,
            ti <= n,
            v@.len() == ti,
            forall|k: int| 0 <= k < ti ==> v@[k] == hfe_entry_of(image@, base as int, k),
            hfe_index_error(image@, base as int, 0, n as int) == hfe_index_error(image@, base as int, ti as int, n as int),
        decreases n - ti,
    {
        if base > image.len() || image.len() - base < 4 * ti + 4 {
            return Err(HfeError::ReadError);
        }
        let p = base + 4 * ti;
        let offset = image[p] as u16 + image[p + 1] as u16 * 256;
        let len = image[p + 2] as u16 + image[p + 3] as u16 * 256;
        if len & 1 != 0 {
            assert(len % 2 != 0) by (bit_vector) requires len & 1 != 0;
            return Err(HfeError::FormatParseError);
        }
        assert(len % 2 == 0) by (bit_vector) requires len & 1 == 0;
        v.push(HfeTrackIndexEntry { index: ti, offset, len });
        ti += 1;
    }
    Ok(v)
}

} // verus!
