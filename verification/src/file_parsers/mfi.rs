//! MAME floppy images.
use vstd::prelude::*;
use crate::file_parsers::{
    bitstream_bits, bitstream_flags, str_views, FormatCaps, CAP_COMMENT, CAP_ENCODING_FM,
    CAP_ENCODING_MFM, CAP_TRACK_ENCODING, CAP_WEAK_BITS,
};
use crate::types::Platform;
use crate::file_parsers::bytes::{le32, read_u32_le};

verus! {

/// The parser of MAME floppy images.
pub struct MfiFormat {}

impl MfiFormat {
    /// The file extensions advertised for the format.
    pub fn extensions() -> (r: Vec<&'static str>)
        ensures
            str_views(r@) == seq!["mfi"@],
    {
        let r = vec!["mfi"];
        assert(str_views(r@) =~= seq!["mfi"@]);
        r
    }

    /// The capability flags of the format.
    pub fn capabilities() -> (r: FormatCaps)
        ensures
            r@ == bitstream_bits() | (CAP_COMMENT | CAP_WEAK_BITS),
    {
        bitstream_flags().union(FormatCaps::from_bits(CAP_COMMENT | CAP_WEAK_BITS))
    }
}

/// Mask of the cylinder count field of the file header; its top bits hold the resolution.
pub const CYLINDER_MASK: u32 = 0x3FFFFFFF;

/// The signature of current MAME floppy images, in its first 15 bytes.
pub open spec fn new_signature(s: Seq<u8>) -> bool {
    s.len() >= 15 && s.subrange(0, 15) == seq![0x4Du8, 0x41, 0x4D, 0x45, 0x46, 0x4C, 0x4F, 0x50, 0x50, 0x59, 0x49, 0x4D, 0x41, 0x47, 0x45]
}

/// The signature of older MESS floppy images, in its first 15 bytes.
pub open spec fn old_signature(s: Seq<u8>) -> bool {
    s.len() >= 15 && s.subrange(0, 15) == seq![0x4Du8, 0x45, 0x53, 0x53, 0x46, 0x4C, 0x4F, 0x50, 0x50, 0x59, 0x49, 0x4D, 0x41, 0x47, 0x45]
}

/// The file header of a MAME floppy image.
#[derive(Clone, Copy, Debug)]
pub struct MfiFileHeader {
    pub id: [u8; 16],
    pub cylinders: u32,
    pub heads: u32,
    pub form_factor: u32,
    pub variant: u32,
}

/// An entry of the track table of a MAME floppy image.
#[derive(Clone, Copy, Debug, PartialEq, Eq, Structural)]
pub struct MfiTrackHeader {
    pub offset: u32,
    pub compressed_size: u32,
    pub uncompressed_size: u32,
    pub write_splice: u32,
}

/// The decompressed data of a track and its cylinder and head.
#[derive(Clone, Debug)]
pub struct MfiTrackData {
    pub c: u16,
    pub h: u8,
    pub data: Vec<u8>,
}

/// The kind of an entry of the flux data of a track.
#[derive(Clone, Copy, Debug, PartialEq, Eq, Structural)]
pub enum FluxEntryType {
    Flux,
    Nfa,
    Hole,
    End,
}

/// A zone of a track, from a start to an end position.
#[derive(Clone, Copy, Debug)]
pub struct MfiTrackZone {
    pub start: u32,
    pub end: u32,
}

/// Errors of MAME floppy image decoding.
#[derive(Clone, Copy, Debug, PartialEq, Eq, Structural)]
pub enum MfiError {
    /// The input ended before a complete record.
    ReadError,
    /// The image uses the old signature, which is not supported.
    UnsupportedFormat,
    /// The image contradicts itself.
    ImageCorruptError,
}

/// The entry of the track table at index `i` of the table starting at `pos`.
pub open spec fn track_header_spec(s: Seq<u8>, pos: int) -> MfiTrackHeader {
    MfiTrackHeader {
        offset: le32(s, pos) as u32,
        compressed_size: le32(s, pos + 4) as u32,
        uncompressed_size: le32(s, pos + 8) as u32,
        write_splice: le32(s, pos + 12) as u32,
    }
}

/// Whether the first `n` track headers at `pos` of `s` can be read, have offsets that never
/// decrease and lie within the image, starting from `last`.
pub open spec fn track_table_ok(s: Seq<u8>, pos: int, n: nat, last: int) -> Result<(), MfiError>
    decreases n,
{
    if n == 0 {
        Ok(())
    } else if pos + 16 > s.len() {
        Err(MfiError::ReadError)
    } else {
        let h = track_header_spec(s, pos);
        if h.offset < last {
            Err(MfiError::ImageCorruptError)
        } else if h.offset > s.len() {
            Err(MfiError::ImageCorruptError)
        } else {
            track_table_ok(s, pos + 16, (n - 1) as nat, h.offset as int)
        }
    }
}

/// The number of track table entries that a header announces: one cylinder fewer than the
/// header's cylinder count, times the heads. The counts are cut to 16 and 8 bits.
pub open spec fn track_entry_count(h: MfiFileHeader) -> nat {
    let c = (h.cylinders & CYLINDER_MASK) as u16;
    let heads = h.heads as u8;
    if c == 0 || heads == 0 { 0 } else { ((c - 1) * heads) as nat }
}

/// What MAME's zlib inflation of `data` into a buffer of `size` bytes gives: the buffer, or
/// `None` if the stream is corrupt or does not fit.
pub uninterp spec fn zlib_inflate(data: Seq<u8>, size: nat) -> Option<Seq<u8>>;

/// Calls `flate2::Decompress::decompress` on a fresh zlib decompressor, with `Finish`, into a
/// zeroed buffer of `size` bytes. Claimed: the buffer is handed back when the call reports `Ok`
/// or `StreamEnd`, `None` otherwise; the outcome depends on `data` and `size` alone.
#[verifier::external_body]
fn zlib_decompress(data: &[u8], size: usize) -> (r: Option<Vec<u8>>)
    ensures
        match r {
            Some(v) => zlib_inflate(data@, size as nat) == Some(v@) && v@.len() == size,
            None => zlib_inflate(data@, size as nat) is None,
        },
{
    let mut out = vec![0u8; size];
    match flate2::Decompress::new(true).decompress(data, &mut out, flate2::FlushDecompress::Finish) {
        Ok(flate2::Status::Ok) | Ok(flate2::Status::StreamEnd) => Some(out),
        _ => None,
    }
}

impl MfiFileHeader {
    /// Read the header from the start of `data`.
    pub fn read(data: &[u8]) -> (r: Option<MfiFileHeader>)
        ensures
            data@.len() < 32 ==> r is None,
            data@.len() >= 32 ==> (r matches Some(h) && h.id@ == data@.subrange(0, 16)
                && h.cylinders == le32(data@, 16) && h.heads == le32(data@, 20)
                && h.form_factor == le32(data@, 24) && h.variant == le32(data@, 28)),
    {
        if data.len() < 32 {
            return None;
        }
        let cylinders = match read_u32_le(data, 16) { Some(v) => v, None => return None };
        let heads = match read_u32_le(data, 20) { Some(v) => v, None => return None };
        let form_factor = match read_u32_le(data, 24) { Some(v) => v, None => return None };
        let variant = match read_u32_le(data, 28) { Some(v) => v, None => return None };
        let mut id = [0u8; 16];
        let mut i: usize = 0;
        while i < 16
            invariant
                i <= 16,
                data@.len() >= 32,
                forall|j: int| 0 <= j < i ==> id@[j] == data@[j],
            decreases 16 - i,
        {
            id.set(i, data[i]);
            i += 1;
        }
        proof { assert(id@ =~= data@.subrange(0, 16)); }
        Some(MfiFileHeader { id, cylinders, heads, form_factor, variant })
    }
}

impl MfiFormat {
    /// Whether `image` starts with a file header carrying the current or the older signature.
    pub fn detect(image: &[u8]) -> (r: bool)
        ensures
            r == (image@.len() >= 32 && (new_signature(image@) || old_signature(image@))),
    {
        if image.len() < 32 {
            return false;
        }
        let new_sig: [u8; 15] = [0x4D, 0x41, 0x4D, 0x45, 0x46, 0x4C, 0x4F, 0x50, 0x50, 0x59, 0x49, 0x4D, 0x41, 0x47, 0x45];
        let old_sig: [u8; 15] = [0x4D, 0x45, 0x53, 0x53, 0x46, 0x4C, 0x4F, 0x50, 0x50, 0x59, 0x49, 0x4D, 0x41, 0x47, 0x45];
        assert(new_sig@ =~= seq![0x4Du8, 0x41, 0x4D, 0x45, 0x46, 0x4C, 0x4F, 0x50, 0x50, 0x59, 0x49, 0x4D, 0x41, 0x47, 0x45]);
        assert(old_sig@ =~= seq![0x4Du8, 0x45, 0x53, 0x53, 0x46, 0x4C, 0x4F, 0x50, 0x50, 0x59, 0x49, 0x4D, 0x41, 0x47, 0x45]);
        crate::file_parsers::bytes::starts_with(image, new_sig.as_slice())
            || crate::file_parsers::bytes::starts_with(image, old_sig.as_slice())
    }

    /// The kind and the value of a flux entry: the top four bits give the kind, the low 30
    /// the value. Only the four known kinds may occur.
    pub fn mfi_read_flux(flux_entry: u32) -> (r: (FluxEntryType, u32))
        requires
            flux_entry >> 28u32 < 4,
        ensures
            r.0 == if flux_entry >> 28u32 == 0 { FluxEntryType::Flux } else if flux_entry >> 28u32 == 1 {
                FluxEntryType::Nfa
            } else if flux_entry >> 28u32 == 2 { FluxEntryType::Hole } else { FluxEntryType::End },
            r.1 == flux_entry & 0x3FFFFFFF,
    {
        let flux_type = match flux_entry >> 28u32 {
            0 => FluxEntryType::Flux,
            1 => FluxEntryType::Nfa,
            2 => FluxEntryType::Hole,
            _ => FluxEntryType::End,
        };
        (flux_type, flux_entry & 0x3FFFFFFF)
    }

    /// Read the track table that follows the header of `image`. The image must carry the
    /// current signature and a nonzero cylinder and head count; the table's offsets must never
    /// decrease and must lie within the image.
    pub fn read_track_table(image: &[u8]) -> (r: Result<(MfiFileHeader, Vec<MfiTrackHeader>), MfiError>)
        ensures
            match mfi_table_outcome(image@) {
                Err(e) => r == Err::<(MfiFileHeader, Vec<MfiTrackHeader>), MfiError>(e),
                Ok(n) => r matches Ok((_, t)) && t@.len() == n,
            },
            image@.len() < 32 ==> r == Err::<(MfiFileHeader, Vec<MfiTrackHeader>), MfiError>(MfiError::ReadError),
            image@.len() >= 32 && !new_signature(image@) ==> r == Err::<(MfiFileHeader, Vec<MfiTrackHeader>), MfiError>(MfiError::UnsupportedFormat),
            r matches Ok((h, t)) ==> {
                &&& new_signature(image@)
                &&& h.cylinders == le32(image@, 16) && h.heads == le32(image@, 20)
                &&& (h.cylinders & CYLINDER_MASK) as u16 != 0 && h.heads as u8 != 0
                &&& t@.len() == track_entry_count(h)
                &&& track_table_ok(image@, 32, track_entry_count(h), 0) == Ok::<(), MfiError>(())
                &&& forall|i: int| 0 <= i < t@.len() ==> #[trigger] t@[i] == track_header_spec(image@, 32 + 16 * i)
            },
            image@.len() >= 32 && new_signature(image@) ==> {
                let cyl = (le32(image@, 16) as u32 & CYLINDER_MASK) as u16;
                let heads = le32(image@, 20) as u8;
                if cyl == 0 || heads == 0 {
                    r == Err::<(MfiFileHeader, Vec<MfiTrackHeader>), MfiError>(MfiError::ImageCorruptError)
                } else {
                    match track_table_ok(image@, 32, ((cyl - 1) * heads) as nat, 0) {
                        Ok(_) => r is Ok,
                        Err(e) => r == Err::<(MfiFileHeader, Vec<MfiTrackHeader>), MfiError>(e),
                    }
                }
            },
    {
        let header = match MfiFileHeader::read(image) {
            Some(h) => h,
            None => return Err(MfiError::ReadError),
        };
        let sig: [u8; 15] = [0x4D, 0x41, 0x4D, 0x45, 0x46, 0x4C, 0x4F, 0x50, 0x50, 0x59, 0x49, 0x4D, 0x41, 0x47, 0x45];
        proof { assert(sig@ =~= seq![0x4Du8, 0x41, 0x4D, 0x45, 0x46, 0x4C, 0x4F, 0x50, 0x50, 0x59, 0x49, 0x4D, 0x41, 0x47, 0x45]); }
        let mut k: usize = 0;
        while k < 15
            invariant
                k <= 15,
                image@.len() >= 32,
                sig@ == seq![0x4Du8, 0x41, 0x4D, 0x45, 0x46, 0x4C, 0x4F, 0x50, 0x50, 0x59, 0x49, 0x4D, 0x41, 0x47, 0x45],
                forall|j: int| 0 <= j < k ==> image@[j] == sig@[j],
            decreases 15 - k,
        {
            if image[k] != sig[k] {
                proof { assert(image@.subrange(0, 15)[k as int] != seq![0x4Du8, 0x41, 0x4D, 0x45, 0x46, 0x4C, 0x4F, 0x50, 0x50, 0x59, 0x49, 0x4D, 0x41, 0x47, 0x45][k as int]); }
                return Err(MfiError::UnsupportedFormat);
            }
            k += 1;
        }
        proof {
            assert(image@.subrange(0, 15) =~= seq![0x4Du8, 0x41, 0x4D, 0x45, 0x46, 0x4C, 0x4F, 0x50, 0x50, 0x59, 0x49, 0x4D, 0x41, 0x47, 0x45]);
        }
        let cyl = (header.cylinders & CYLINDER_MASK) as u16;
        let heads = header.heads as u8;
        if cyl == 0 || heads == 0 {
            return Err(MfiError::ImageCorruptError);
        }
        proof {
            assert((cyl as int - 1) * (heads as int) <= 65535 * 255) by (nonlinear_arith)
                requires cyl >= 1, heads >= 1;
            assert((cyl as int - 1) * (heads as int) >= 0) by (nonlinear_arith)
                requires cyl >= 1, heads >= 1;
        }
        let count: usize = (cyl as usize - 1) * heads as usize;
        let mut table: Vec<MfiTrackHeader> = Vec::new();
        let mut last_offset: u32 = 0;
        let mut pos: usize = 32;
        let ilen = image.len();
        while table.len() < count
            invariant
                image@.len() == ilen,
                new_signature(image@),
                (header.cylinders & CYLINDER_MASK) as u16 == cyl && header.heads as u8 == heads,
                cyl != 0 && heads != 0,
                pos == 32 + 16 * table@.len(),
                table@.len() <= count,
                count == track_entry_count(header),
                header.cylinders == le32(image@, 16) && header.heads == le32(image@, 20),
                track_table_ok(image@, 32, count as nat, 0) == track_table_ok(image@, pos as int, (count - table@.len()) as nat, last_offset as int),
                forall|i: int| 0 <= i < table@.len() ==> #[trigger] table@[i] == track_header_spec(image@, 32 + 16 * i),
            decreases count - table@.len(),
        {
            if pos > ilen || ilen - pos < 16 {
                return Err(MfiError::ReadError);
            }
            let th = MfiTrackHeader {
                offset: read_u32_le(image, pos).unwrap(),
                compressed_size: read_u32_le(image, pos + 4).unwrap(),
                uncompressed_size: read_u32_le(image, pos + 8).unwrap(),
                write_splice: read_u32_le(image, pos + 12).unwrap(),
            };
            if th.offset < last_offset {
                return Err(MfiError::ImageCorruptError);
            }
            if th.offset as usize > ilen {
                return Err(MfiError::ImageCorruptError);
            }
            last_offset = th.offset;
            table.push(th);
            pos += 16;
        }
        Ok((header, table))
    }

    /// The decompressed data of the track that `entry` describes: its compressed bytes are read
    /// from the image and inflated into `uncompressed_size` bytes.
    pub fn read_track_data(image: &[u8], entry: &MfiTrackHeader) -> (r: Result<Vec<u8>, MfiError>)
        ensures
            entry.offset + entry.compressed_size > image@.len() ==> r == Err::<Vec<u8>, MfiError>(MfiError::ReadError),
            entry.offset + entry.compressed_size <= image@.len() ==> match zlib_inflate(
                image@.subrange(entry.offset as int, entry.offset + entry.compressed_size),
                entry.uncompressed_size as nat,
            ) {
                Some(d) => r matches Ok(v) && v@ == d,
                None => r == Err::<Vec<u8>, MfiError>(MfiError::ImageCorruptError),
            },
    {
        let start = entry.offset as usize;
        let len = entry.compressed_size as usize;
        if start > image.len() || image.len() - start < len {
            return Err(MfiError::ReadError);
        }
        let compressed = vstd::slice::slice_subrange(image, start, start + len);
        match zlib_decompress(compressed, entry.uncompressed_size as usize) {
            Some(v) => Ok(v),
            None => Err(MfiError::ImageCorruptError),
        }
    }
}



/// What reading the track table of an image gives: the number of its entries, or why it
/// cannot be read (see [MfiFormat::read_track_table]).
pub open spec fn mfi_table_outcome(s: Seq<u8>) -> Result<nat, MfiError> {
    if s.len() < 32 {
        Err(MfiError::ReadError)
    } else if !new_signature(s) {
        Err(MfiError::UnsupportedFormat)
    } else {
        let cyl = (le32(s, 16) as u32 & CYLINDER_MASK) as u16;
        let heads = le32(s, 20) as u8;
        if cyl == 0 || heads == 0 {
            Err(MfiError::ImageCorruptError)
        } else {
            match track_table_ok(s, 32, ((cyl - 1) * heads) as nat, 0) {
                Ok(_) => Ok(((cyl - 1) * heads) as nat),
                Err(e) => Err(e),
            }
        }
    }
}

/// Whether the data of entry `i` of the table lies within the image and inflates.
pub open spec fn mfi_data_outcome(s: Seq<u8>, n: nat, i: int) -> Result<(), MfiError>
    decreases n - i,
{
    if i < 0 || i >= n {
        Ok(())
    } else {
        let e = track_header_spec(s, 32 + 16 * i);
        if e.offset + e.compressed_size > s.len() {
            Err(MfiError::ReadError)
        } else if zlib_inflate(s.subrange(e.offset as int, e.offset + e.compressed_size), e.uncompressed_size as nat) is None {
            Err(MfiError::ImageCorruptError)
        } else {
            mfi_data_outcome(s, n, i + 1)
        }
    }
}

/// Whether `ts` are the tracks of the image with header `h`: one for each table entry, the
/// entries taking the cylinders in order and within each the heads, each holding the
/// inflated data of its entry.
pub open spec fn mfi_tracks_read(s: Seq<u8>, h: MfiFileHeader, ts: Seq<MfiTrackData>) -> bool {
    &&& h.cylinders == le32(s, 16) && h.heads == le32(s, 20)
    &&& ts.len() == track_entry_count(h)
    &&& forall|i: int| 0 <= i < ts.len() ==> {
        let e = #[trigger] track_header_spec(s, 32 + 16 * i);
        &&& ts[i].c == i / (h.heads as u8) as int
        &&& ts[i].h == i % (h.heads as u8) as int
        &&& zlib_inflate(s.subrange(e.offset as int, e.offset + e.compressed_size), e.uncompressed_size as nat)
            == Some(ts[i].data@)
    }
}

/// The entry `k` of the flux data `d`: its little endian word.
pub open spec fn flux_word(d: Seq<u8>, k: int) -> u32 {
    le32(d, 4 * k) as u32
}

/// Whether every whole entry of the flux data has one of the four known kinds.
pub open spec fn flux_kinds_known(d: Seq<u8>) -> bool {
    forall|k: int| 0 <= k < d.len() / 4 ==> #[trigger] flux_word(d, k) >> 28u32 < 4
}

/// The entries of a track's flux data, read so far: the flux deltas, the closed NFA and hole
/// zones, and the zones opened but not yet closed.
pub struct MfiEntriesView {
    pub fluxes: Seq<u32>,
    pub nfa_zones: Seq<(u32, u32)>,
    pub hole_zones: Seq<(u32, u32)>,
    pub open_nfa: Option<u32>,
    pub open_hole: Option<u32>,
}

/// The state after the entry `w`: a flux entry adds its delta; an NFA or hole entry opens a
/// zone of its kind at its value unless one is open; an end entry closes the open NFA zone,
/// or else the open hole zone, at its value.
pub open spec fn mfi_entry_step(st: MfiEntriesView, w: u32) -> MfiEntriesView {
    let t = w >> 28u32;
    let v = w & 0x3FFFFFFF;
    if t == 0 {
        MfiEntriesView { fluxes: st.fluxes.push(v), ..st }
    } else if t == 1 {
        if st.open_nfa is Some { st } else { MfiEntriesView { open_nfa: Some(v), ..st } }
    } else if t == 2 {
        if st.open_hole is Some { st } else { MfiEntriesView { open_hole: Some(v), ..st } }
    } else {
        match st.open_nfa {
            Some(a) => MfiEntriesView { nfa_zones: st.nfa_zones.push((a, v)), open_nfa: None, ..st },
            None => match st.open_hole {
                Some(a) => MfiEntriesView { hole_zones: st.hole_zones.push((a, v)), open_hole: None, ..st },
                None => st,
            },
        }
    }
}

/// The state after the first `n` entries of `d`.
pub open spec fn mfi_entries(d: Seq<u8>, n: nat) -> MfiEntriesView
    decreases n,
{
    if n == 0 {
        MfiEntriesView { fluxes: Seq::empty(), nfa_zones: Seq::empty(), hole_zones: Seq::empty(), open_nfa: None, open_hole: None }
    } else {
        mfi_entry_step(mfi_entries(d, (n - 1) as nat), flux_word(d, n - 1))
    }
}

/// The entries of a track's flux data: its flux deltas (in units of 1/2000 microsecond) and
/// its NFA and hole zones.
pub struct MfiTrackEntries {
    pub fluxes: Vec<u32>,
    pub nfa_zones: Vec<MfiTrackZone>,
    pub hole_zones: Vec<MfiTrackZone>,
}

/// The zones of a list, as plain values.
pub open spec fn zone_views(z: Seq<MfiTrackZone>) -> Seq<(u32, u32)> {
    z.map_values(|x: MfiTrackZone| (x.start, x.end))
}

impl MfiFormat {
    /// Read the entries of a track's flux data (see [mfi_entries]), its whole four-byte words
    /// in order; zones left open at the end are dropped. Data with an entry of an unknown kind
    /// is left out.
    pub fn track_entries(track: &MfiTrackData) -> (r: MfiTrackEntries)
        requires
            flux_kinds_known(track.data@),
        ensures
            r.fluxes@ == mfi_entries(track.data@, track.data@.len() / 4).fluxes,
            zone_views(r.nfa_zones@) == mfi_entries(track.data@, track.data@.len() / 4).nfa_zones,
            zone_views(r.hole_zones@) == mfi_entries(track.data@, track.data@.len() / 4).hole_zones,
    {
        let n = track.data.len() / 4;
        let mut fluxes: Vec<u32> = Vec::new();
        let mut nfa_zones: Vec<MfiTrackZone> = Vec::new();
        let mut hole_zones: Vec<MfiTrackZone> = Vec::new();
        let mut open_nfa: Option<u32> = None;
        let mut open_hole: Option<u32> = None;
        let mut k: usize = 0;
        assert(zone_views(nfa_zones@) =~= Seq::<(u32, u32)>::empty());
        assert(zone_views(hole_zones@) =~= Seq::<(u32, u32)>::empty());
        while k < n
            invariant
                n == track.data@.len() / 4,
                k <= n,
                flux_kinds_known(track.data@),
                mfi_entries(track.data@, k as nat) == (MfiEntriesView {
                    fluxes: fluxes@,
                    nfa_zones: zone_views(nfa_zones@),
                    hole_zones: zone_views(hole_zones@),
                    open_nfa,
                    open_hole,
                }),
            decreases n - k,
        {
            assert(4 * k + 4 <= track.data@.len()) by (nonlinear_arith)
                requires
                    k < n,
                    n == track.data@.len() / 4,
            ;
            assert(track.data@.len() == track.data.len());
            let w = match read_u32_le(track.data.as_slice(), 4 * k) {
                Some(v) => v,
                None => 0,
            };
            assert(w == flux_word(track.data@, k as int));
            let ghost before_nfa = zone_views(nfa_zones@);
            let ghost before_hole = zone_views(hole_zones@);
            let (kind, v) = Self::mfi_read_flux(w);
            match kind {
                FluxEntryType::Flux => {
                    fluxes.push(v);
                },
                FluxEntryType::Nfa => {
                    if open_nfa.is_none() {
                        open_nfa = Some(v);
                    }
                },
                FluxEntryType::Hole => {
                    if open_hole.is_none() {
                        open_hole = Some(v);
                    }
                },
                FluxEntryType::End => {
                    match open_nfa {
                        Some(a) => {
                            nfa_zones.push(MfiTrackZone { start: a, end: v });
                            assert(zone_views(nfa_zones@) =~= before_nfa.push((a, v)));
                            open_nfa = None;
                        },
                        None => match open_hole {
                            Some(a) => {
                                hole_zones.push(MfiTrackZone { start: a, end: v });
                                assert(zone_views(hole_zones@) =~= before_hole.push((a, v)));
                                open_hole = None;
                            },
                            None => {},
                        },
                    }
                },
            }
            k += 1;
        }
        MfiTrackEntries { fluxes, nfa_zones, hole_zones }
    }

    /// Read the tracks of an image: its track table (see [MfiFormat::read_track_table]), then
    /// the decompressed data of each entry, the entries taking the cylinders in order and,
    /// within each, the heads.
    pub fn read_tracks(image: &[u8]) -> (r: Result<(MfiFileHeader, Vec<MfiTrackData>), MfiError>)
        ensures
            match mfi_table_outcome(image@) {
                Err(e) => r == Err::<(MfiFileHeader, Vec<MfiTrackData>), MfiError>(e),
                Ok(n) => match mfi_data_outcome(image@, n, 0) {
                    Err(e) => r == Err::<(MfiFileHeader, Vec<MfiTrackData>), MfiError>(e),
                    Ok(_) => r matches Ok((h, ts)) && mfi_tracks_read(image@, h, ts@),
                },
            },
    {
        let (header, table) = match Self::read_track_table(image) {
            Ok(x) => x,
            Err(e) => return Err(e),
        };
        let heads = header.heads as u8;
        let ghost cyl: int = (header.cylinders & CYLINDER_MASK) as u16 as int;
        assert(table@.len() == (cyl - 1) * heads);
        let mut tracks: Vec<MfiTrackData> = Vec::new();
        let mut c: u16 = 0;
        let mut h: u8 = 0;
        let mut i: usize = 0;
        while i < table.len()
            invariant
                heads == header.heads as u8,
                heads > 0,
                i <= table@.len(),
                tracks@.len() == i,
                c as int == (i as int) / (heads as int),
                h as int == (i as int) % (heads as int),
                table@.len() == track_entry_count(header),
                1 <= cyl <= 65535,
                table@.len() == (cyl - 1) * heads,
                header.cylinders == le32(image@, 16) && header.heads == le32(image@, 20),
                mfi_table_outcome(image@) == Ok::<nat, MfiError>(table@.len() as nat),
                mfi_data_outcome(image@, table@.len() as nat, 0) == mfi_data_outcome(image@, table@.len() as nat, i as int),
                forall|j: int| 0 <= j < table@.len() ==> #[trigger] table@[j] == track_header_spec(image@, 32 + 16 * j),
                forall|j: int| 0 <= j < i ==> {
                    let e = #[trigger] track_header_spec(image@, 32 + 16 * j);
                    &&& tracks@[j].c == j / heads as int
                    &&& tracks@[j].h == j % heads as int
                    &&& zlib_inflate(image@.subrange(e.offset as int, e.offset + e.compressed_size), e.uncompressed_size as nat)
                        == Some(tracks@[j].data@)
                },
            decreases table.len() - i,
        {
            let data = match Self::read_track_data(image, &table[i]) {
                Ok(d) => d,
                Err(e) => return Err(e),
            };
            tracks.push(MfiTrackData { c, h, data });
            proof {
                assert((i as int + 1) / (heads as int) == if h + 1 == heads { c + 1 } else { c as int }
                    && (i as int + 1) % (heads as int) == if h + 1 == heads { 0 } else { h + 1 }) by (nonlinear_arith)
                    requires
                        c as int == (i as int) / (heads as int),
                        h as int == (i as int) % (heads as int),
                        heads > 0,
                ;
                assert(c + 1 < cyl) by (nonlinear_arith)
                    requires
                        c as int == (i as int) / (heads as int),
                        (i as int) < (cyl - 1) * heads,
                        heads > 0,
                ;
            }
            if h + 1 == heads {
                h = 0;
                c = c + 1;
            } else {
                h = h + 1;
            }
            i += 1;
        }
        Ok((header, tracks))
    }
}

} // verus!
