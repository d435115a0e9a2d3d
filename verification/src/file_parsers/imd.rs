//! ImageDisk images.
use vstd::prelude::*;
use crate::file_parsers::{
    bitstream_bits, bitstream_flags, str_views, FormatCaps, CAP_COMMENT, CAP_ENCODING_FM,
    CAP_ENCODING_MFM, CAP_TRACK_ENCODING, CAP_WEAK_BITS,
};
use crate::types::{Platform, TrackDataEncoding, TrackDataRate};

verus! {

/// The parser of ImageDisk images.
pub struct ImdFormat {}

impl ImdFormat {
    /// The file extensions advertised for the format.
    pub fn extensions() -> (r: Vec<&'static str>)
        ensures
            str_views(r@) == seq!["imd"@],
    {
        let r = vec!["imd"];
        assert(str_views(r@) =~= seq!["imd"@]);
        r
    }

    /// The capability flags of the format.
    pub fn capabilities() -> (r: FormatCaps)
        ensures
            r@ == 0,
    {
        FormatCaps::empty()
    }
}

/// A track header of an ImageDisk image.
#[derive(Clone, Copy, Debug)]
pub struct ImdTrack {
    pub mode: u8,
    c: u8,
    h: u8,
    sector_ct: u8,
    sector_size: u8,
}

/// The byte size of an ImageDisk sector size code, if the code is known.
pub open spec fn imd_sector_size_spec(code: u8) -> Option<usize> {
    if code < 7 {
        Some((128 * pow2(code as nat)) as usize)
    } else {
        None
    }
}

/// Two to the power `k`.
pub open spec fn pow2(k: nat) -> nat
    decreases k,
{
    if k == 0 {
        1
    } else {
        2 * pow2((k - 1) as nat)
    }
}

impl ImdTrack {
    /// A track header with the given fields.
    pub fn new(mode: u8, c: u8, h: u8, sector_ct: u8, sector_size: u8) -> (r: ImdTrack)
        ensures
            r.mode_spec() == mode,
            r.c_spec() == c,
            r.h_spec() == h,
            r.sector_ct_spec() == sector_ct,
            r.sector_size_spec() == sector_size,
    {
        ImdTrack { mode, c, h, sector_ct, sector_size }
    }

    /// The track mode field.
    pub closed spec fn mode_spec(&self) -> u8 {
        self.mode
    }

    /// The raw cylinder field.
    pub closed spec fn c_spec(&self) -> u8 {
        self.c
    }

    /// The raw head field, with its map flags.
    pub closed spec fn h_spec(&self) -> u8 {
        self.h
    }

    /// The raw sector count field.
    pub closed spec fn sector_ct_spec(&self) -> u8 {
        self.sector_ct
    }

    /// The raw sector size code.
    pub closed spec fn sector_size_spec(&self) -> u8 {
        self.sector_size
    }

    /// Read a track header from `data` at `pos`.
    pub fn read(data: &[u8], pos: usize) -> (r: Option<ImdTrack>)
        ensures
            pos + 5 <= data@.len() ==> (r matches Some(t) && t.mode_spec() == data@[pos as int]
                && t.c_spec() == data@[pos + 1] && t.h_spec() == data@[pos + 2]
                && t.sector_ct_spec() == data@[pos + 3] && t.sector_size_spec() == data@[pos + 4]),
            pos + 5 > data@.len() ==> r is None,
    {
        if pos > data.len() || data.len() - pos < 5 {
            return None;
        }
        Some(ImdTrack { mode: data[pos], c: data[pos + 1], h: data[pos + 2], sector_ct: data[pos + 3], sector_size: data[pos + 4] })
    }

    /// The cylinder.
    pub fn c(&self) -> (r: u8)
        ensures
            r == self.c_spec(),
    {
        self.c
    }

    /// The head: the low four bits of the head field.
    pub fn h(&self) -> (r: u8)
        ensures
            r == self.h_spec() & 0x0F,
    {
        self.h & 0x0F
    }

    /// The number of sectors of the track.
    pub fn sector_ct(&self) -> (r: u8)
        ensures
            r == self.sector_ct_spec(),
    {
        self.sector_ct
    }

    /// Whether the header is valid: a known mode, a head of 0 or 1 besides the map flags, and a
    /// known sector size code.
    pub fn is_valid(&self) -> (r: bool)
        ensures
            r == (self.mode_spec() < 6 && (self.h_spec() & !0xC0u8) < 2 && self.sector_size_spec() < 7),
    {
        self.mode < 6 && (self.h & !0xC0u8) < 2 && self.sector_size < 7
    }

    /// Whether a head map follows the sector numbers.
    pub fn has_head_map(&self) -> (r: bool)
        ensures
            r == (self.h_spec() & 0x40 != 0),
    {
        self.h & 0x40 != 0
    }

    /// Whether a cylinder map follows the sector numbers.
    pub fn has_cylinder_map(&self) -> (r: bool)
        ensures
            r == (self.h_spec() & 0x80 != 0),
    {
        self.h & 0x80 != 0
    }

    /// Whether a sector size map follows, which the head field marks with 0xFF.
    pub fn has_sector_size_map(&self) -> (r: bool)
        ensures
            r == (self.h_spec() == 0xFF),
    {
        self.h == 0xFF
    }

    /// The byte size of the track's sectors, if the size code is known.
    pub fn sector_size(&self) -> (r: Option<usize>)
        ensures
            r == imd_sector_size_spec(self.sector_size_spec()),
    {
        imd_sector_size_to_usize(self.sector_size)
    }
}

/// The data rate and encoding of an ImageDisk track mode, if the mode is known.
pub open spec fn imd_mode_spec(mode: u8) -> Option<(TrackDataRate, TrackDataEncoding)> {
    if mode == 0 {
        Some((TrackDataRate::Rate500Kbps, TrackDataEncoding::Fm))
    } else if mode == 1 {
        Some((TrackDataRate::Rate300Kbps, TrackDataEncoding::Fm))
    } else if mode == 2 {
        Some((TrackDataRate::Rate250Kbps, TrackDataEncoding::Fm))
    } else if mode == 3 {
        Some((TrackDataRate::Rate500Kbps, TrackDataEncoding::Mfm))
    } else if mode == 4 {
        Some((TrackDataRate::Rate300Kbps, TrackDataEncoding::Mfm))
    } else if mode == 5 {
        Some((TrackDataRate::Rate250Kbps, TrackDataEncoding::Mfm))
    } else {
        None
    }
}

/// The data rate and encoding of an ImageDisk track mode, if the mode is known.
pub fn imd_mode_to_rate(mode: u8) -> (r: Option<(TrackDataRate, TrackDataEncoding)>)
    ensures
        r == imd_mode_spec(mode),
{
    match mode {
        0 => Some((TrackDataRate::Rate500Kbps, TrackDataEncoding::Fm)),
        1 => Some((TrackDataRate::Rate300Kbps, TrackDataEncoding::Fm)),
        2 => Some((TrackDataRate::Rate250Kbps, TrackDataEncoding::Fm)),
        3 => Some((TrackDataRate::Rate500Kbps, TrackDataEncoding::Mfm)),
        4 => Some((TrackDataRate::Rate300Kbps, TrackDataEncoding::Mfm)),
        5 => Some((TrackDataRate::Rate250Kbps, TrackDataEncoding::Mfm)),
        _ => None,
    }
}

/// The byte size of an ImageDisk sector size code, if the code is known.
pub fn imd_sector_size_to_usize(sector_size: u8) -> (r: Option<usize>)
    ensures
        r == imd_sector_size_spec(sector_size),
{
    proof {
        reveal_with_fuel(pow2, 8);
    }
    match sector_size {
        0 => Some(128),
        1 => Some(256),
        2 => Some(512),
        3 => Some(1024),
        4 => Some(2048),
        5 => Some(4096),
        6 => Some(8192),
        _ => None,
    }
}

/// Errors of ImageDisk decoding.
#[derive(Clone, Copy, Debug, PartialEq, Eq, Structural)]
pub enum ImdError {
    /// The input ended before a complete record.
    ReadError,
    /// The data is not laid out as the format says.
    FormatParseError,
}

/// The data of one sector of an ImageDisk image.
#[derive(Clone, Debug)]
pub struct ImdSectorData {
    pub data: Vec<u8>,
    pub deleted: bool,
    pub error: bool,
}

/// What a sector record with data marker `marker`, its data starting at `pos` of `s`, decodes
/// to for a sector of `size` bytes: the data, its deleted and error flags, and the position
/// after the record's data. Markers 1, 3 and 5 carry the full data, 2, 4 and 6 one byte that
/// fills the sector, and 0 no data.
pub open spec fn imd_sector_spec(marker: u8, size: nat, s: Seq<u8>, pos: nat) -> Result<(Seq<u8>, bool, bool, nat), ImdError> {
    if marker == 0 {
        Ok((Seq::empty(), false, false, pos))
    } else if marker == 1 || marker == 3 || marker == 5 {
        if pos + size > s.len() {
            Err(ImdError::ReadError)
        } else {
            Ok((s.subrange(pos as int, (pos + size) as int), marker == 3, marker == 5, pos + size))
        }
    } else if marker == 2 || marker == 4 || marker == 6 {
        if pos + 1 > s.len() {
            Err(ImdError::ReadError)
        } else {
            Ok((Seq::new(size, |i: int| s[pos as int]), marker == 4, marker == 6, pos + 1))
        }
    } else {
        Err(ImdError::FormatParseError)
    }
}

impl ImdFormat {
    /// Read the data of a sector record with data marker `data_marker` from `data` at `pos`,
    /// for a sector of `sector_size` bytes. Returns the sector data and the position after it.
    pub fn read_data(data_marker: u8, sector_size: usize, data: &[u8], pos: usize) -> (r: Result<(ImdSectorData, usize), ImdError>)
        ensures
            match imd_sector_spec(data_marker, sector_size as nat, data@, pos as nat) {
                Ok((bytes, deleted, error, p)) => (r matches Ok((sd, q)) && sd.data@ == bytes
                    && sd.deleted == deleted && sd.error == error && q == p),
                Err(e) => r == Err::<(ImdSectorData, usize), ImdError>(e),
            },
    {
        match data_marker {
            0x00 => Ok((ImdSectorData { data: Vec::new(), deleted: false, error: false }, pos)),
            0x01 | 0x03 | 0x05 => {
                if pos > data.len() || data.len() - pos < sector_size {
                    return Err(ImdError::ReadError);
                }
                let v = vstd::slice::slice_to_vec(vstd::slice::slice_subrange(data, pos, pos + sector_size));
                Ok((ImdSectorData { data: v, deleted: data_marker == 0x03, error: data_marker == 0x05 }, pos + sector_size))
            },
            0x02 | 0x04 | 0x06 => {
                if pos >= data.len() {
                    return Err(ImdError::ReadError);
                }
                let b = data[pos];
                let v = vec![b; sector_size];
                proof { assert(v@ =~= Seq::new(sector_size as nat, |i: int| data@[pos as int])); }
                Ok((ImdSectorData { data: v, deleted: data_marker == 0x04, error: data_marker == 0x06 }, pos + 1))
            },
            _ => Err(ImdError::FormatParseError),
        }
    }
}

/// The end-of-file marker that ends the header text of an ImageDisk image.
pub const ASCII_EOF: u8 = 0x1A;

/// Whether `b` is an ASCII decimal digit.
pub open spec fn is_digit(b: u8) -> bool {
    0x30 <= b <= 0x39
}

/// The decimal value of the `k` digits of `s` from `i` on.
pub open spec fn digits_value(s: Seq<u8>, i: int, k: nat) -> nat
    decreases k,
{
    if k == 0 {
        0
    } else {
        digits_value(s, i, (k - 1) as nat) * 10 + (s[i + k - 1] - 0x30) as nat
    }
}

/// Whether the `k` bytes of `s` from `i` on are all digits.
pub open spec fn all_digits(s: Seq<u8>, i: int, k: nat) -> bool {
    forall|j: int| i <= j < i + k ==> is_digit(#[trigger] s[j])
}

/// Whether `s` holds, from `i` on, the fixed part of an ImageDisk signature line:
/// `IMD v.vv: dd/mm/yyyy hh:mm:ss`.
pub open spec fn imd_signature_at(s: Seq<u8>, i: int) -> bool {
    &&& 0 <= i && i + 29 <= s.len()
    &&& s[i] == 0x49 && s[i + 1] == 0x4D && s[i + 2] == 0x44 && s[i + 3] == 0x20
    &&& all_digits(s, i + 4, 1) && s[i + 5] == 0x2E && all_digits(s, i + 6, 2)
    &&& s[i + 8] == 0x3A && s[i + 9] == 0x20
    &&& all_digits(s, i + 10, 2) && s[i + 12] == 0x2F && all_digits(s, i + 13, 2) && s[i + 15] == 0x2F
    &&& all_digits(s, i + 16, 4) && s[i + 20] == 0x20
    &&& all_digits(s, i + 21, 2) && s[i + 23] == 0x3A && all_digits(s, i + 24, 2) && s[i + 26] == 0x3A
    &&& all_digits(s, i + 27, 2)
}

/// The length of the header text of an ImageDisk image: the bytes before the first end-of-file
/// marker, or all of them if there is none.
pub open spec fn imd_text_len(s: Seq<u8>, from: int) -> int
    decreases s.len() - from,
{
    if from >= s.len() {
        s.len() as int
    } else if s[from] == ASCII_EOF {
        from
    } else {
        imd_text_len(s, from + 1)
    }
}

/// The position of the first signature line in the header text `t`, from `from` on.
pub open spec fn imd_first_signature(t: Seq<u8>, from: int) -> Option<int>
    decreases t.len() - from,
{
    if from < 0 || from + 29 > t.len() {
        None
    } else if imd_signature_at(t, from) {
        Some(from)
    } else {
        imd_first_signature(t, from + 1)
    }
}

/// The fields of an ImageDisk signature line and the comment that follows it.
#[derive(Clone, Debug)]
pub struct ImdHeader {
    pub v_major: u8,
    pub v_minor: u8,
    pub day: u8,
    pub month: u8,
    pub year: u16,
    pub hour: u8,
    pub minute: u8,
    pub second: u8,
    pub comment: Vec<u8>,
}

/// `h` holds the fields of the signature line at `i` of the header text `t`, and the rest of
/// the text as its comment.
pub open spec fn imd_header_fields(h: ImdHeader, t: Seq<u8>, i: int) -> bool {
    &&& h.v_major == digits_value(t, i + 4, 1)
    &&& h.v_minor == digits_value(t, i + 6, 2)
    &&& h.day == digits_value(t, i + 10, 2)
    &&& h.month == digits_value(t, i + 13, 2)
    &&& h.year == digits_value(t, i + 16, 4)
    &&& h.hour == digits_value(t, i + 21, 2)
    &&& h.minute == digits_value(t, i + 24, 2)
    &&& h.second == digits_value(t, i + 27, 2)
    &&& h.comment@ == t.subrange(i + 29, t.len() as int)
}

/// The value of the `k` digits of `data` at `i`.
fn read_digits(data: &[u8], i: usize, k: usize) -> (r: u16)
    requires
        i + k <= data@.len(),
        k <= 4,
        all_digits(data@, i as int, k as nat),
    ensures
        r == digits_value(data@, i as int, k as nat),
        r < pow10(k as nat),
{
    proof { reveal_with_fuel(pow10, 5); }
    let mut v: u16 = 0;
    let mut j: usize = 0;
    let dlen = data.len();
    while j < k
        invariant
            j <= k <= 4,
            i + k <= data@.len(),
            data@.len() == dlen,
            pow10(0) == 1 && pow10(1) == 10 && pow10(2) == 100 && pow10(3) == 1000 && pow10(4) == 10000,
            all_digits(data@, i as int, k as nat),
            v == digits_value(data@, i as int, j as nat),
            v < pow10(j as nat),
        decreases k - j,
    {
        assert(is_digit(data@[i + j]));
        let d = data[i + j];
        v = v * 10 + (d - 0x30) as u16;
        j += 1;
    }
    v
}

/// Ten to the power `k`.
pub open spec fn pow10(k: nat) -> nat
    decreases k,
{
    if k == 0 {
        1
    } else {
        10 * pow10((k - 1) as nat)
    }
}

/// Whether the `k` bytes of `data` at `i` are all digits.
fn check_digits(data: &[u8], i: usize, k: usize) -> (r: bool)
    requires
        i + k <= data@.len(),
    ensures
        r == all_digits(data@, i as int, k as nat),
{
    let mut j: usize = 0;
    let dlen = data.len();
    while j < k
        invariant
            j <= k,
            i + k <= data@.len(),
            data@.len() == dlen,
            forall|m: int| i <= m < i + j ==> is_digit(#[trigger] data@[m]),
        decreases k - j,
    {
        let b = data[i + j];
        if !(0x30 <= b && b <= 0x39) {
            return false;
        }
        j += 1;
    }
    true
}

/// Whether `data` holds a signature line at `i`.
fn signature_at(data: &[u8], i: usize) -> (r: bool)
    requires
        i + 29 <= data@.len(),
    ensures
        r == imd_signature_at(data@, i as int),
{
    data[i] == 0x49 && data[i + 1] == 0x4D && data[i + 2] == 0x44 && data[i + 3] == 0x20
        && check_digits(data, i + 4, 1) && data[i + 5] == 0x2E && check_digits(data, i + 6, 2)
        && data[i + 8] == 0x3A && data[i + 9] == 0x20
        && check_digits(data, i + 10, 2) && data[i + 12] == 0x2F && check_digits(data, i + 13, 2)
        && data[i + 15] == 0x2F && check_digits(data, i + 16, 4) && data[i + 20] == 0x20
        && check_digits(data, i + 21, 2) && data[i + 23] == 0x3A && check_digits(data, i + 24, 2)
        && data[i + 26] == 0x3A && check_digits(data, i + 27, 2)
}

impl ImdFormat {
    /// Whether the header text at the start of `image` holds an IMD signature line.
    pub fn detect(image: &[u8]) -> (r: bool)
        ensures
            r == (imd_first_signature(image@.take(imd_text_len(image@, 0)), 0) is Some),
    {
        Self::parse_header(image).is_some()
    }

    /// The length of the header text at the start of `image`: the bytes before the first
    /// end-of-file marker, or all of them.
    pub fn header_text_len(image: &[u8]) -> (r: usize)
        ensures
            r == imd_text_len(image@, 0),
    {
        let mut i: usize = 0;
        while i < image.len()
            invariant
                i <= image@.len(),
                imd_text_len(image@, 0) == imd_text_len(image@, i as int),
            decreases image.len() - i,
        {
            if image[i] == ASCII_EOF {
                return i;
            }
            i += 1;
        }
        i
    }

    /// Find the signature line `IMD v.vv: dd/mm/yyyy hh:mm:ss` in the header text at the start of
    /// `image`, as the first match of the format's header pattern, and return its fields with
    /// the rest of the header text as the comment; `None` if the header text has none.
    pub fn parse_header(image: &[u8]) -> (r: Option<ImdHeader>)
        ensures
            ({
                let t = image@.take(imd_text_len(image@, 0));
                match imd_first_signature(t, 0) {
                    None => r is None,
                    Some(i) => r is Some && imd_header_fields(r.unwrap(), t, i),
                }
            }),
    {
        let tlen = Self::header_text_len(image);
        proof { lemma_text_len_bound(image@, 0); }
        let text = vstd::slice::slice_subrange(image, 0, tlen);
        let mut i: usize = 0;
        while i <= tlen && tlen - i >= 29
            invariant
                tlen <= image@.len(),
                text@ == image@.take(tlen as int),
                text@.len() == tlen,
                imd_first_signature(text@, 0) == imd_first_signature(text@, i as int),
                i <= tlen,
                tlen == imd_text_len(image@, 0),
            decreases tlen - i,
        {
            if signature_at(text, i) {
                proof {
                    reveal_with_fuel(digits_value, 5);
                }
                let comment = vstd::slice::slice_to_vec(vstd::slice::slice_subrange(text, i + 29, tlen));
                proof { reveal_with_fuel(pow10, 5); }
                let v_major = read_digits(text, i + 4, 1);
                let v_minor = read_digits(text, i + 6, 2);
                let day = read_digits(text, i + 10, 2);
                let month = read_digits(text, i + 13, 2);
                let year = read_digits(text, i + 16, 4);
                let hour = read_digits(text, i + 21, 2);
                let minute = read_digits(text, i + 24, 2);
                let second = read_digits(text, i + 27, 2);
                proof {
                    assert(imd_first_signature(text@, i as int) == Some(i as int));
                    assert(imd_first_signature(text@, 0) == Some(i as int));
                    assert(v_major < 10);
                    assert(year < 10000);
                }
                let h = ImdHeader {
                    v_major: v_major as u8,
                    v_minor: v_minor as u8,
                    day: day as u8,
                    month: month as u8,
                    year,
                    hour: hour as u8,
                    minute: minute as u8,
                    second: second as u8,
                    comment,
                };
                proof {
                    assert(h.v_major == digits_value(text@, i + 4, 1));
                    assert(h.comment@ == text@.subrange(i + 29, text@.len() as int));
                    assert(imd_header_fields(h, text@, i as int));
                    assert(text@ == image@.take(imd_text_len(image@, 0)));
                }
                return Some(h);
            }
            i += 1;
        }
        None
    }
}

/// The header text length lies within the image.
proof fn lemma_text_len_bound(s: Seq<u8>, from: int)
    requires
        0 <= from,
    ensures
        from <= s.len() ==> from <= imd_text_len(s, from) <= s.len(),
        imd_text_len(s, from) <= s.len() || from > s.len(),
    decreases s.len() - from,
{
    if from < s.len() && s[from] != ASCII_EOF {
        lemma_text_len_bound(s, from + 1);
    }
}

} // verus!
