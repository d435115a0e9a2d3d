//! Writing 86Box 86F images: a header whose disk flags describe the disk, a table of track
//! offsets, and the tracks, each a header with an absolute bit cell count followed by its bit
//! data and, for a disk with weak bits, its surface description.
use vstd::prelude::*;
use crate::file_parsers::bytes::copy_range;
use crate::file_parsers::f86::{f86_weak_to_holes, f86_weak_to_weak, F86Error, F86Format};
use crate::types::{DiskDataResolution, DiskRpm, TrackDataEncoding, TrackDataRate, TrackDensity};

verus! {

/// A track to be written: its bit cell count and its bit and weak bit data.
pub struct F86SaveTrack {
    pub bit_count: usize,
    pub data: Vec<u8>,
    pub weak: Vec<u8>,
}

/// A disk to be written as an 86F image.
pub struct F86SaveImage {
    pub resolution: DiskDataResolution,
    /// Whether any track of the disk has weak or hole bits.
    pub has_weak_bits: bool,
    pub density: TrackDensity,
    pub heads: u8,
    pub cylinders: u16,
    pub write_protect: Option<bool>,
    pub data_rate: TrackDataRate,
    pub encoding: TrackDataEncoding,
    pub rpm: Option<DiskRpm>,
    /// Whether the disk carries the Prolok protection, whose weak bits on cylinder 39, head 0
    /// are written as holes.
    pub prolok: bool,
    /// The tracks of head 0 and head 1, by cylinder.
    pub head0: Vec<F86SaveTrack>,
    pub head1: Vec<F86SaveTrack>,
}

/// The two little endian bytes of `x`.
pub open spec fn u16_le_bytes(x: u16) -> Seq<u8> {
    seq![(x % 256) as u8, (x / 256) as u8]
}

/// The four little endian bytes of `x`.
pub open spec fn u32_le_bytes(x: u32) -> Seq<u8> {
    seq![(x % 256) as u8, ((x / 256) % 256) as u8, ((x / 65536) % 256) as u8, (x / 16777216) as u8]
}

/// The density bits of the disk flags; a standard density disk cannot be written.
pub open spec fn f86_density_bits(d: TrackDensity) -> Option<u16> {
    match d {
        TrackDensity::Double => Some(0),
        TrackDensity::High => Some(2),
        TrackDensity::Extended => Some(4),
        TrackDensity::Standard => None,
    }
}

/// The data rate bits of the track flags; 125 Kbps cannot be written.
pub open spec fn f86_rate_bits(r: TrackDataRate) -> Option<u16> {
    match r {
        TrackDataRate::Rate500Kbps => Some(0),
        TrackDataRate::Rate300Kbps => Some(1),
        TrackDataRate::Rate250Kbps => Some(2),
        TrackDataRate::Rate1000Kbps => Some(3),
        TrackDataRate::Rate125Kbps => None,
    }
}

/// The encoding bits of the track flags.
pub open spec fn f86_encoding_bits(e: TrackDataEncoding) -> u16 {
    match e {
        TrackDataEncoding::Fm => 0,
        TrackDataEncoding::Mfm => 8,
        TrackDataEncoding::Gcr => 24,
    }
}

/// The rotation rate bits of the track flags.
pub open spec fn f86_rpm_bits(r: Option<DiskRpm>) -> u16 {
    match r {
        Some(DiskRpm::Rpm360) => 32,
        _ => 0,
    }
}

/// The disk flags: a surface description where the disk has weak bits, the density, two
/// sides, absolute bit cell counts (bit cell mode and speedup flag) and write protection.
pub open spec fn f86_save_disk_flags(img: F86SaveImage) -> u16 {
    ((if img.has_weak_bits { 1int } else { 0int }) + f86_density_bits(img.density).unwrap()
        + (if img.heads == 2 { 8int } else { 0int }) + 0x80 + 0x1000
        + (if img.write_protect == Some(true) { 0x10int } else { 0int })) as u16
}

/// The track flags, the same for every track: data rate, encoding and rotation rate.
pub open spec fn f86_save_track_flags(img: F86SaveImage) -> u16 {
    (f86_rate_bits(img.data_rate).unwrap() + f86_encoding_bits(img.encoding) + f86_rpm_bits(img.rpm)) as u16
}

/// Whether each cylinder is written twice, as for a 40 track disk in an 80 track drive.
pub open spec fn f86_double(img: F86SaveImage) -> bool {
    img.cylinders < 80
}

/// The number of track entries written: every cylinder and head, each cylinder twice for a
/// disk under 80 cylinders, at most the 256 entries per head that the table holds.
pub open spec fn f86_save_count(img: F86SaveImage) -> nat {
    let h = img.heads as nat;
    let e = if f86_double(img) { img.cylinders as nat * 2 * h } else { img.cylinders as nat * h };
    if e < 256 * h { e } else { 256 * h }
}

/// The cylinder of track entry `k`.
pub open spec fn f86_save_c(img: F86SaveImage, k: int) -> int {
    if f86_double(img) { k / (2 * img.heads as int) } else { k / (img.heads as int) }
}

/// The head of track entry `k`.
pub open spec fn f86_save_h(img: F86SaveImage, k: int) -> int {
    k % (img.heads as int)
}

/// The track of entry `k`.
pub open spec fn f86_save_track(img: F86SaveImage, k: int) -> F86SaveTrack {
    if f86_save_h(img, k) == 0 { img.head0@[f86_save_c(img, k)] } else { img.head1@[f86_save_c(img, k)] }
}

/// `s`, with a zero byte added where `odd` is set.
pub open spec fn pad_odd(s: Seq<u8>, odd: bool) -> Seq<u8> {
    if odd { s.push(0) } else { s }
}

/// Bit data with the weak bits marked: or-ed in, or, for holes, cleared.
pub open spec fn f86_mark(bits: Seq<u8>, weak: Seq<u8>, holes: bool) -> Seq<u8> {
    Seq::new(bits.len(), |i: int| if i < weak.len() {
        if holes { bits[i] & !weak[i] } else { bits[i] | weak[i] }
    } else {
        bits[i]
    })
}

/// The bytes of a track: a header of the track flags, the bit cell count and a zero index
/// hole position, then the bit data padded to a whole word with its weak bits marked, then,
/// with a surface description, the padded weak bit data.
pub open spec fn f86_track_blob(t: F86SaveTrack, flags: u16, surface: bool, holes: bool) -> Seq<u8> {
    let odd = t.data@.len() % 2 == 1;
    let bits = pad_odd(t.data@, odd);
    let weak = pad_odd(t.weak@, odd);
    u16_le_bytes(flags) + u32_le_bytes(t.bit_count as u32) + u32_le_bytes(0)
        + f86_mark(bits, weak, holes) + if surface { weak } else { Seq::empty() }
}

/// The bytes of track entry `k`.
pub open spec fn f86_blob(img: F86SaveImage, k: int) -> Seq<u8> {
    f86_track_blob(
        f86_save_track(img, k),
        f86_save_track_flags(img),
        img.has_weak_bits,
        img.prolok && f86_save_c(img, k) == 39 && f86_save_h(img, k) == 0,
    )
}

/// The bytes of the first `k` track entries.
pub open spec fn f86_body(img: F86SaveImage, k: nat) -> Seq<u8>
    decreases k,
{
    if k == 0 { Seq::empty() } else { f86_body(img, (k - 1) as nat) + f86_blob(img, k - 1) }
}

/// Where the tracks start: after the 8 byte header and the offset table.
pub open spec fn f86_save_base(img: F86SaveImage) -> nat {
    8 + 1024 * img.heads as nat
}

/// Entry `k` of the offset table: the position of the track, kept to 32 bits, for a written
/// entry, 0 for the rest.
pub open spec fn f86_save_offset(img: F86SaveImage, k: int) -> u32 {
    if 0 <= k < f86_save_count(img) {
        ((f86_save_base(img) + f86_body(img, k as nat).len()) % 0x1_0000_0000) as u32
    } else {
        0
    }
}

/// The bytes of the first `k` entries of the offset table.
pub open spec fn f86_table(img: F86SaveImage, k: nat) -> Seq<u8>
    decreases k,
{
    if k == 0 { Seq::empty() } else { f86_table(img, (k - 1) as nat) + u32_le_bytes(f86_save_offset(img, k - 1)) }
}

/// Whether the disk cannot be written: it is not a bitstream disk, has standard density, a
/// head count other than one or two, fewer tracks on a head than cylinders, a 125 Kbps data
/// rate, or, with weak bits, a written track whose weak data is not as long as its bit data.
pub open spec fn f86_save_refused(img: F86SaveImage) -> bool {
    f86_disk_refused(img) || f86_track_refused(img)
}

/// The 86F image of a disk: the header "86BF", version 2.12 and the disk flags, the offset
/// table of 256 entries per head, and the tracks.
pub open spec fn f86_save_spec(img: F86SaveImage) -> Result<Seq<u8>, F86Error> {
    if f86_save_refused(img) {
        Err(F86Error::UnsupportedFormat)
    } else {
        Ok(seq![0x38u8, 0x36u8, 0x42u8, 0x46u8, 0x0Cu8, 0x02u8] + u16_le_bytes(f86_save_disk_flags(img))
            + f86_table(img, 256 * img.heads as nat) + f86_body(img, f86_save_count(img)))
    }
}

/// Append the two little endian bytes of `x`.
fn push_u16_le(out: &mut Vec<u8>, x: u16)
    ensures
        final(out)@ == old(out)@ + u16_le_bytes(x),
{
    out.push((x % 256) as u8);
    out.push((x / 256) as u8);
    assert(final(out)@ =~= old(out)@ + u16_le_bytes(x));
}

/// Append the four little endian bytes of `x`.
fn push_u32_le(out: &mut Vec<u8>, x: u32)
    ensures
        final(out)@ == old(out)@ + u32_le_bytes(x),
{
    out.push((x % 256) as u8);
    out.push(((x / 256) % 256) as u8);
    out.push(((x / 65536) % 256) as u8);
    out.push((x / 16777216) as u8);
    assert(final(out)@ =~= old(out)@ + u32_le_bytes(x));
}

/// Append the bytes of `s`.
fn append_bytes(out: &mut Vec<u8>, s: &[u8])
    ensures
        final(out)@ == old(out)@ + s@,
{
    let mut i: usize = 0;
    while i < s.len()
        invariant
            i <= s@.len(),
            out@ == old(out)@ + s@.take(i as int),
        decreases s.len() - i,
    {
        out.push(s[i]);
        i += 1;
        assert(out@ =~= old(out)@ + s@.take(i as int));
    }
    assert(s@.take(s@.len() as int) =~= s@);
}

/// Append the bytes of a track (see [f86_track_blob]).
fn append_track_blob(out: &mut Vec<u8>, t: &F86SaveTrack, flags: u16, surface: bool, holes: bool)
    ensures
        final(out)@ == old(out)@ + f86_track_blob(*t, flags, surface, holes),
{
    let mut bits = copy_range(t.data.as_slice(), 0, t.data.len());
    let mut weak = copy_range(t.weak.as_slice(), 0, t.weak.len());
    assert(bits@ =~= t.data@);
    assert(weak@ =~= t.weak@);
    let odd = t.data.len() % 2 == 1;
    if odd {
        bits.push(0);
        weak.push(0);
    }
    let ghost pb = bits@;
    assert(pb == pad_odd(t.data@, odd));
    assert(weak@ == pad_odd(t.weak@, odd));
    if holes {
        f86_weak_to_holes(&mut bits, weak.as_slice());
    } else {
        f86_weak_to_weak(&mut bits, weak.as_slice());
    }
    assert(bits@ =~= f86_mark(pb, weak@, holes));
    push_u16_le(out, flags);
    push_u32_le(out, t.bit_count as u32);
    push_u32_le(out, 0);
    append_bytes(out, bits.as_slice());
    if surface {
        append_bytes(out, weak.as_slice());
    }
    assert(final(out)@ =~= old(out)@ + f86_track_blob(*t, flags, surface, holes));
}

/// Whether the disk itself, before any track is looked at, cannot be written (see
/// [f86_save_refused]).
pub open spec fn f86_disk_refused(img: F86SaveImage) -> bool {
    ||| img.resolution != DiskDataResolution::BitStream
    ||| img.density == TrackDensity::Standard
    ||| !(img.heads == 1 || img.heads == 2)
    ||| img.cylinders > img.head0@.len() || img.cylinders > img.head1@.len()
    ||| img.data_rate == TrackDataRate::Rate125Kbps
}

/// Whether, on a disk with weak bits, a written track's weak data is not as long as its bit
/// data.
pub open spec fn f86_track_refused(img: F86SaveImage) -> bool {
    img.has_weak_bits && exists|k: int| 0 <= k < f86_save_count(img)
        && #[trigger] f86_save_track(img, k).data@.len() != f86_save_track(img, k).weak@.len()
}

/// The disk and track flags of a disk that can be written, `None` for one that cannot.
fn f86_save_flags(image: &F86SaveImage) -> (r: Option<(u16, u16)>)
    ensures
        r is None <==> f86_disk_refused(*image),
        r matches Some((d, t)) ==> d == f86_save_disk_flags(*image) && t == f86_save_track_flags(*image),
{
    if image.resolution != DiskDataResolution::BitStream {
        return None;
    }
    let dbits: u16 = match image.density {
        TrackDensity::Double => 0,
        TrackDensity::High => 2,
        TrackDensity::Extended => 4,
        TrackDensity::Standard => { return None; },
    };
    if image.heads != 1 && image.heads != 2 {
        return None;
    }
    let cyl = image.cylinders as usize;
    if cyl > image.head0.len() || cyl > image.head1.len() {
        return None;
    }
    let rbits: u16 = match image.data_rate {
        TrackDataRate::Rate500Kbps => 0,
        TrackDataRate::Rate300Kbps => 1,
        TrackDataRate::Rate250Kbps => 2,
        TrackDataRate::Rate1000Kbps => 3,
        TrackDataRate::Rate125Kbps => { return None; },
    };
    let ebits: u16 = match image.encoding {
        TrackDataEncoding::Fm => 0,
        TrackDataEncoding::Mfm => 8,
        TrackDataEncoding::Gcr => 24,
    };
    let pbits: u16 = match image.rpm {
        Some(DiskRpm::Rpm360) => 32,
        _ => 0,
    };
    let wp = match image.write_protect {
        Some(true) => true,
        _ => false,
    };
    let disk_flags: u16 = (if image.has_weak_bits { 1u16 } else { 0u16 }) + dbits
        + (if image.heads == 2 { 8u16 } else { 0u16 }) + 0x80 + 0x1000 + (if wp { 0x10u16 } else { 0u16 });
    let track_flags: u16 = rbits + ebits + pbits;
    Some((disk_flags, track_flags))
}

/// The track entries of a disk that passed the disk checks: their bytes and their offsets,
/// or `UnsupportedFormat` where a track is refused.
#[verifier::rlimit(40)]
fn f86_write_tracks(image: &F86SaveImage, track_flags: u16) -> (r: Result<(Vec<u8>, Vec<u32>), F86Error>)
    requires
        !f86_disk_refused(*image),
        track_flags == f86_save_track_flags(*image),
    ensures
        r is Err <==> f86_track_refused(*image),
        r is Err ==> r == Err::<(Vec<u8>, Vec<u32>), F86Error>(F86Error::UnsupportedFormat),
        r matches Ok((body, offsets)) ==> {
            &&& body@ == f86_body(*image, f86_save_count(*image))
            &&& offsets@.len() == f86_save_count(*image)
            &&& forall|j: int| 0 <= j < offsets@.len() ==> #[trigger] offsets@[j] == f86_save_offset(*image, j)
        },
{
    let heads = image.heads as usize;
    let cyl = image.cylinders as usize;
    let double = image.cylinders < 80;
    assert(cyl * 2 * heads <= 65535 * 2 * 2) by (nonlinear_arith)
        requires cyl <= 65535, heads <= 2;
    let entries: usize = if double { cyl * 2 * heads } else { cyl * heads };
    let n: usize = if entries < 256 * heads { entries } else { 256 * heads };
    let base: usize = 8 + 1024 * heads;
    let mut body: Vec<u8> = Vec::new();
    let mut offsets: Vec<u32> = Vec::new();
    let mut k: usize = 0;
    while k < n
        invariant
            k <= n,
            n == f86_save_count(*image),
            n <= entries,
            entries == if f86_double(*image) { cyl * 2 * heads } else { cyl * heads },
            double == f86_double(*image),
            heads == image.heads,
            heads == 1 || heads == 2,
            cyl == image.cylinders,
            cyl <= image.head0@.len(),
            cyl <= image.head1@.len(),
            base == f86_save_base(*image),
            track_flags == f86_save_track_flags(*image),
            body@ == f86_body(*image, k as nat),
            offsets@.len() == k,
            forall|j: int| 0 <= j < k ==> #[trigger] offsets@[j] == f86_save_offset(*image, j),
            image.has_weak_bits ==> forall|j: int| 0 <= j < k
                ==> #[trigger] f86_save_track(*image, j).data@.len() == f86_save_track(*image, j).weak@.len(),
        decreases n - k,
    {
        let h = k % heads;
        let c = if double { k / (2 * heads) } else { k / heads };
        proof {
            if double {
                assert((k as int) / (2 * heads as int) < cyl as int) by (nonlinear_arith)
                    requires (k as int) < (cyl as int) * 2 * (heads as int), heads as int >= 1;
            } else {
                assert((k as int) / (heads as int) < cyl as int) by (nonlinear_arith)
                    requires (k as int) < (cyl as int) * (heads as int), heads as int >= 1;
            }
            assert(h == f86_save_h(*image, k as int));
            assert(c == f86_save_c(*image, k as int));
        }
        let t = if h == 0 { &image.head0[c] } else { &image.head1[c] };
        assert(*t == f86_save_track(*image, k as int));
        if image.has_weak_bits && t.data.len() != t.weak.len() {
            return Err(F86Error::UnsupportedFormat);
        }
        let lm: u64 = (body.len() as u64) % 0x1_0000_0000u64;
        let off: u32 = ((lm + base as u64) % 0x1_0000_0000u64) as u32;
        proof {
            vstd::arithmetic::div_mod::lemma_small_mod(base as nat, 0x1_0000_0000nat);
            vstd::arithmetic::div_mod::lemma_add_mod_noop(body@.len() as int, base as int, 0x1_0000_0000int);
            assert(off == f86_save_offset(*image, k as int));
        }
        offsets.push(off);
        let holes = image.prolok && c == 39 && h == 0;
        append_track_blob(&mut body, t, track_flags, image.has_weak_bits, holes);
        k += 1;
    }
    Ok((body, offsets))
}

impl F86Format {
    /// Write a disk as an 86F image (see [f86_save_spec]): the bytes of the image, or
    /// `UnsupportedFormat` for a disk that cannot be written.
    pub fn save_image(image: &F86SaveImage) -> (r: Result<Vec<u8>, F86Error>)
        ensures
            match f86_save_spec(*image) {
                Ok(b) => r matches Ok(v) && v@ == b,
                Err(e) => r == Err::<Vec<u8>, F86Error>(e),
            },
    {
        let (disk_flags, track_flags) = match f86_save_flags(image) {
            Some(f) => f,
            None => { return Err(F86Error::UnsupportedFormat); },
        };
        let (body, offsets) = match f86_write_tracks(image, track_flags) {
            Ok(x) => x,
            Err(e) => { return Err(e); },
        };
        let heads = image.heads as usize;
        let n = offsets.len();
        let mut out: Vec<u8> = Vec::new();
        out.push(0x38);
        out.push(0x36);
        out.push(0x42);
        out.push(0x46);
        out.push(0x0C);
        out.push(0x02);
        push_u16_le(&mut out, disk_flags);
        let ghost head = out@;
        proof {
            assert(f86_save_count(*image) <= 256 * image.heads);
        }
        let table_len = 256 * heads;
        let mut j: usize = 0;
        while j < table_len
            invariant
                j <= table_len,
                table_len == 256 * image.heads,
                n == f86_save_count(*image),
                n <= table_len,
                offsets@.len() == n,
                forall|i: int| 0 <= i < n ==> #[trigger] offsets@[i] == f86_save_offset(*image, i),
                out@ == head + f86_table(*image, j as nat),
            decreases table_len - j,
        {
            let v: u32 = if j < n { offsets[j] } else { 0 };
            push_u32_le(&mut out, v);
            j += 1;
            assert(out@ =~= head + f86_table(*image, j as nat));
        }
        append_bytes(&mut out, body.as_slice());
        proof {
            assert(head =~= seq![0x38u8, 0x36u8, 0x42u8, 0x46u8, 0x0Cu8, 0x02u8] + u16_le_bytes(f86_save_disk_flags(*image)));
        }
        Ok(out)
    }
}

} // verus!
