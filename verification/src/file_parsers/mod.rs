//! Disk image file format parsers.
use vstd::prelude::*;
use vstd::string::*;
use crate::types::Platform;

pub mod bytes;
pub mod compression;
pub mod f86;
pub mod f86_write;
pub mod hfe;
pub mod imd;
pub mod ipf;
pub mod kryoflux;
pub mod mfi;
pub mod mfm;
pub mod moof;
pub mod pce;
pub mod raw;
pub mod scp;
pub mod str_order;
pub mod tc;
pub mod td0;

verus! {

/// Can support variable sector counts per track.
pub const CAP_VARIABLE_SPT: u32 = 0x0001;
/// Can support variable sector sizes.
pub const CAP_VARIABLE_SSPT: u32 = 0x0002;
/// Encodes sector address mark CRC status.
pub const CAP_ADDRESS_CRC: u32 = 0x0004;
/// Encodes sector data CRC status.
pub const CAP_DATA_CRC: u32 = 0x0008;
/// Encodes 'Deleted address' marks.
pub const CAP_DATA_DELETED: u32 = 0x0010;
/// Can specify the sector ID independent of sector order.
pub const CAP_SID_OVERRIDE: u32 = 0x0020;
/// Can store a text comment field.
pub const CAP_COMMENT: u32 = 0x0040;
/// Can store per-track encoding type.
pub const CAP_TRACK_ENCODING: u32 = 0x0080;
/// Can store per-track data rate.
pub const CAP_TRACK_DATA_RATE: u32 = 0x0100;
/// Can store weak bit information.
pub const CAP_WEAK_BITS: u32 = 0x0200;
/// Can store hole information.
pub const CAP_HOLES: u32 = 0x0400;
/// Can store FM encoding.
pub const CAP_ENCODING_FM: u32 = 0x0800;
/// Can store MFM encoding.
pub const CAP_ENCODING_MFM: u32 = 0x1000;
/// Can store GCR encoding.
pub const CAP_ENCODING_GCR: u32 = 0x2000;
/// Can store an IDAM with no DAM.
pub const CAP_NO_DAM: u32 = 0x4000;

/// A set of capability flags of an image format.
#[derive(Clone, Copy, Debug, PartialEq, Eq, Structural)]
pub struct FormatCaps {
    bits: u32,
}

impl View for FormatCaps {
    type V = u32;

    closed spec fn view(&self) -> u32 {
        self.bits
    }
}

impl FormatCaps {
    /// The empty set of flags.
    pub fn empty() -> (r: Self)
        ensures
            r@ == 0,
    {
        FormatCaps { bits: 0 }
    }

    /// A set holding exactly the given flag bits.
    pub fn from_bits(bits: u32) -> (r: Self)
        ensures
            r@ == bits,
    {
        FormatCaps { bits }
    }

    /// The raw flag bits.
    pub fn bits(&self) -> (r: u32)
        ensures
            r == self@,
    {
        self.bits
    }

    /// The union of two sets of flags.
    pub fn union(self, other: Self) -> (r: Self)
        ensures
            r@ == self@ | other@,
    {
        FormatCaps { bits: self.bits | other.bits }
    }

    /// Whether every flag of `other` is also in `self`.
    pub fn contains(&self, other: Self) -> (r: bool)
        ensures
            r == (self@ & other@ == other@),
    {
        self.bits & other.bits == other.bits
    }

    /// Whether no flag is set.
    pub fn is_empty(&self) -> (r: bool)
        ensures
            r == (self@ == 0),
    {
        self.bits == 0
    }
}

/// The flags implicitly supported by any bitstream format.
pub open spec fn bitstream_bits() -> u32 {
    CAP_VARIABLE_SPT | CAP_VARIABLE_SSPT | CAP_ADDRESS_CRC | CAP_DATA_CRC | CAP_DATA_DELETED
        | CAP_SID_OVERRIDE | CAP_NO_DAM
}

/// Return a set of FormatCaps flags implicitly supported by the nature of any bitstream format.
pub fn bitstream_flags() -> (r: FormatCaps)
    ensures
        r@ == bitstream_bits(),
{
    FormatCaps::from_bits(
        CAP_VARIABLE_SPT | CAP_VARIABLE_SSPT | CAP_ADDRESS_CRC | CAP_DATA_CRC | CAP_DATA_DELETED
            | CAP_SID_OVERRIDE | CAP_NO_DAM,
    )
}

/// Read flag: turn MFM errors into weak bits.
pub const READ_ERRORS_TO_WEAK_BITS: u32 = 0x0001;
/// Read flag: turn no-flux areas into weak bits.
pub const READ_NFA_TO_WEAK_BITS: u32 = 0x0002;
/// Read flag: find weak bits by comparing revolutions.
pub const READ_DETECT_WEAK_BITS: u32 = 0x0004;
/// Read flag: turn weak bits into holes.
pub const READ_WEAK_BITS_TO_HOLES: u32 = 0x0008;
/// Read flag: build a source map of the image file.
pub const READ_CREATE_SOURCE_MAP: u32 = 0x0010;
/// Write flag: reuse the source flux of unmodified tracks.
pub const WRITE_REUSE_SOURCE_FLUX: u32 = 0x0001;
/// Write flag: write a single revolution to a flux image.
pub const WRITE_RESOLVE_FLUX: u32 = 0x0002;

/// Flags that tune how a parser reads an image.
#[derive(Clone, Copy, Debug, PartialEq, Eq, Structural)]
pub struct ReadFlags {
    pub bits: u32,
}

/// Flags that tune how a parser writes an image.
#[derive(Clone, Copy, Debug, PartialEq, Eq, Structural)]
pub struct WriteFlags {
    pub bits: u32,
}

/// Options given to a parser that reads an image: the platform, where it is known, as a
/// hint for images whose platform is ambiguous, and the read flags.
#[derive(Clone, Copy, Debug)]
pub struct ParserReadOptions {
    platform: Option<Platform>,
    flags: ReadFlags,
}

impl ParserReadOptions {
    /// The platform hint.
    pub closed spec fn platform_hint(&self) -> Option<Platform> {
        self.platform
    }

    /// The read flags.
    pub closed spec fn read_flags(&self) -> u32 {
        self.flags.bits
    }
}

impl Default for ParserReadOptions {
    /// No platform hint and no flags.
    fn default() -> (r: Self)
        ensures
            r.platform_hint() is None,
            r.read_flags() == 0,
    {
        ParserReadOptions { platform: None, flags: ReadFlags { bits: 0 } }
    }
}

/// Options given to a parser that writes an image: the platform, where it is known.
#[derive(Clone, Copy, Debug)]
pub struct ParserWriteOptions {
    platform: Option<Platform>,
}

impl ParserWriteOptions {
    /// The platform hint.
    pub closed spec fn platform_hint(&self) -> Option<Platform> {
        self.platform
    }
}

impl Default for ParserWriteOptions {
    /// No platform hint.
    fn default() -> (r: Self)
        ensures
            r.platform_hint() is None,
    {
        ParserWriteOptions { platform: None }
    }
}

/// Describes the basic write compatibility of a disk image as determined by a specific
/// file format parser.
#[derive(Copy, Clone, Debug, PartialEq, Eq, Structural)]
pub enum ParserWriteCompatibility {
    Compatible,
    DataLoss,
    Incompatible,
    UnsupportedFormat,
}

/// The disk image file formats known to the library.
#[derive(Copy, Clone, Debug, PartialEq, Eq, Structural)]
pub enum DiskImageFileFormat {
    RawSectorImage,
    ImageDisk,
    TeleDisk,
    PceSectorImage,
    PceBitstreamImage,
    MfmBitstreamImage,
    HfeImage,
    F86Image,
    TransCopyImage,
    SuperCardPro,
    PceFluxImage,
    KryofluxStream,
    MameFloppyImage,
    IpfImage,
    MoofImage,
}

/// The formats in their declaration order.
pub open spec fn format_order() -> Seq<DiskImageFileFormat> {
    seq![
        DiskImageFileFormat::RawSectorImage,
        DiskImageFileFormat::ImageDisk,
        DiskImageFileFormat::TeleDisk,
        DiskImageFileFormat::PceSectorImage,
        DiskImageFileFormat::PceBitstreamImage,
        DiskImageFileFormat::MfmBitstreamImage,
        DiskImageFileFormat::HfeImage,
        DiskImageFileFormat::F86Image,
        DiskImageFileFormat::TransCopyImage,
        DiskImageFileFormat::SuperCardPro,
        DiskImageFileFormat::PceFluxImage,
        DiskImageFileFormat::KryofluxStream,
        DiskImageFileFormat::MameFloppyImage,
        DiskImageFileFormat::IpfImage,
        DiskImageFileFormat::MoofImage,
    ]
}

/// The views of a list of string slices.
pub open spec fn str_views(s: Seq<&str>) -> Seq<Seq<char>> {
    s.map_values(|x: &str| x@)
}

/// The file extensions advertised for a format.
pub open spec fn format_extensions(f: DiskImageFileFormat) -> Seq<Seq<char>> {
    match f {
        DiskImageFileFormat::RawSectorImage => seq!["img"@, "ima"@, "dsk"@, "bin"@, "adf"@],
        DiskImageFileFormat::ImageDisk => seq!["imd"@],
        DiskImageFileFormat::TeleDisk => seq!["td0"@],
        DiskImageFileFormat::PceSectorImage => seq!["psi"@],
        DiskImageFileFormat::PceBitstreamImage => seq!["pri"@],
        DiskImageFileFormat::MfmBitstreamImage => seq!["mfm"@],
        DiskImageFileFormat::HfeImage => seq!["hfe"@],
        DiskImageFileFormat::F86Image => seq!["86f"@],
        DiskImageFileFormat::TransCopyImage => seq!["tc"@],
        DiskImageFileFormat::SuperCardPro => seq!["scp"@],
        DiskImageFileFormat::PceFluxImage => seq!["pfi"@],
        DiskImageFileFormat::KryofluxStream => seq!["raw"@],
        DiskImageFileFormat::MameFloppyImage => seq!["mfi"@],
        DiskImageFileFormat::IpfImage => seq!["ipf"@],
        DiskImageFileFormat::MoofImage => seq!["moof"@],
    }
}

/// The capability flags of a format.
pub open spec fn format_capabilities(f: DiskImageFileFormat) -> u32 {
    match f {
        DiskImageFileFormat::RawSectorImage => 0,
        DiskImageFileFormat::ImageDisk => 0,
        DiskImageFileFormat::TeleDisk => 0,
        DiskImageFileFormat::PceSectorImage => 0,
        DiskImageFileFormat::PceBitstreamImage => bitstream_bits() | (CAP_COMMENT | CAP_WEAK_BITS),
        DiskImageFileFormat::MfmBitstreamImage => 0,
        DiskImageFileFormat::HfeImage => 0,
        DiskImageFileFormat::F86Image => bitstream_bits(),
        DiskImageFileFormat::TransCopyImage => bitstream_bits() | (CAP_TRACK_ENCODING
            | CAP_ENCODING_FM | CAP_ENCODING_MFM),
        DiskImageFileFormat::SuperCardPro => bitstream_bits(),
        DiskImageFileFormat::PceFluxImage => bitstream_bits() | (CAP_COMMENT | CAP_WEAK_BITS),
        DiskImageFileFormat::KryofluxStream => bitstream_bits(),
        DiskImageFileFormat::MameFloppyImage => bitstream_bits() | (CAP_COMMENT | CAP_WEAK_BITS),
        DiskImageFileFormat::IpfImage => bitstream_bits() | (CAP_COMMENT | CAP_WEAK_BITS),
        DiskImageFileFormat::MoofImage => bitstream_bits() | (CAP_COMMENT | CAP_WEAK_BITS),
    }
}

impl DiskImageFileFormat {
    /// All formats, in declaration order.
    pub fn all() -> (r: Vec<DiskImageFileFormat>)
        ensures
            r@ == format_order(),
    {
        let r = vec![
            DiskImageFileFormat::RawSectorImage,
            DiskImageFileFormat::ImageDisk,
            DiskImageFileFormat::TeleDisk,
            DiskImageFileFormat::PceSectorImage,
            DiskImageFileFormat::PceBitstreamImage,
            DiskImageFileFormat::MfmBitstreamImage,
            DiskImageFileFormat::HfeImage,
            DiskImageFileFormat::F86Image,
            DiskImageFileFormat::TransCopyImage,
            DiskImageFileFormat::SuperCardPro,
            DiskImageFileFormat::PceFluxImage,
            DiskImageFileFormat::KryofluxStream,
            DiskImageFileFormat::MameFloppyImage,
            DiskImageFileFormat::IpfImage,
            DiskImageFileFormat::MoofImage,
        ];
        assert(r@ =~= format_order());
        r
    }

    /// Return the format itself.
    pub fn format(&self) -> (r: DiskImageFileFormat)
        ensures
            r == *self,
    {
        *self
    }

    /// Return a list of file extensions associated with the format.
    pub fn extensions(&self) -> (r: Vec<&'static str>)
        ensures
            str_views(r@) == format_extensions(*self),
    {
        match self {
            DiskImageFileFormat::RawSectorImage => raw::RawFormat::extensions(),
            DiskImageFileFormat::ImageDisk => imd::ImdFormat::extensions(),
            DiskImageFileFormat::TeleDisk => td0::Td0Format::extensions(),
            DiskImageFileFormat::PceSectorImage => pce::psi::PsiFormat::extensions(),
            DiskImageFileFormat::PceBitstreamImage => pce::pri::PriFormat::extensions(),
            DiskImageFileFormat::MfmBitstreamImage => mfm::MfmFormat::extensions(),
            DiskImageFileFormat::HfeImage => hfe::HfeFormat::extensions(),
            DiskImageFileFormat::F86Image => f86::F86Format::extensions(),
            DiskImageFileFormat::TransCopyImage => tc::TCFormat::extensions(),
            DiskImageFileFormat::SuperCardPro => scp::ScpFormat::extensions(),
            DiskImageFileFormat::PceFluxImage => pce::pfi::PfiFormat::extensions(),
            DiskImageFileFormat::KryofluxStream => kryoflux::KfxFormat::extensions(),
            DiskImageFileFormat::MameFloppyImage => mfi::MfiFormat::extensions(),
            DiskImageFileFormat::IpfImage => ipf::ipf::IpfParser::extensions(),
            DiskImageFileFormat::MoofImage => moof::MoofFormat::extensions(),
        }
    }

    /// Return the capability flags for the format.
    pub fn capabilities(&self) -> (r: FormatCaps)
        ensures
            r@ == format_capabilities(*self),
    {
        match self {
            DiskImageFileFormat::RawSectorImage => raw::RawFormat::capabilities(),
            DiskImageFileFormat::ImageDisk => imd::ImdFormat::capabilities(),
            DiskImageFileFormat::TeleDisk => td0::Td0Format::capabilities(),
            DiskImageFileFormat::PceSectorImage => pce::psi::PsiFormat::capabilities(),
            DiskImageFileFormat::PceBitstreamImage => pce::pri::PriFormat::capabilities(),
            DiskImageFileFormat::MfmBitstreamImage => mfm::MfmFormat::capabilities(),
            DiskImageFileFormat::HfeImage => hfe::HfeFormat::capabilities(),
            DiskImageFileFormat::F86Image => f86::F86Format::capabilities(),
            DiskImageFileFormat::TransCopyImage => tc::TCFormat::capabilities(),
            DiskImageFileFormat::SuperCardPro => scp::ScpFormat::capabilities(),
            DiskImageFileFormat::PceFluxImage => pce::pfi::PfiFormat::capabilities(),
            DiskImageFileFormat::KryofluxStream => kryoflux::KfxFormat::capabilities(),
            DiskImageFileFormat::MameFloppyImage => mfi::MfiFormat::capabilities(),
            DiskImageFileFormat::IpfImage => ipf::ipf::IpfParser::capabilities(),
            DiskImageFileFormat::MoofImage => moof::MoofFormat::capabilities(),
        }
    }
}

/// The file extensions of the first `k` formats of [format_order], one format after the
/// other.
pub open spec fn extensions_upto(k: int) -> Seq<Seq<char>>
    decreases k,
{
    if k <= 0 {
        Seq::empty()
    } else {
        extensions_upto(k - 1) + format_extensions(format_order()[k - 1])
    }
}

/// A sequence joined to another holds what either holds.
proof fn lemma_contains_concat(a: Seq<Seq<char>>, b: Seq<Seq<char>>, y: Seq<char>)
    ensures
        (a + b).contains(y) <==> (a.contains(y) || b.contains(y)),
{
    if (a + b).contains(y) {
        let k = choose|k: int| 0 <= k < (a + b).len() && (a + b)[k] == y;
        if k < a.len() {
            assert(a[k] == y);
        } else {
            assert(b[k - a.len()] == y);
        }
    }
    if a.contains(y) {
        let k = choose|k: int| 0 <= k < a.len() && a[k] == y;
        assert((a + b)[k] == y);
    }
    if b.contains(y) {
        let k = choose|k: int| 0 <= k < b.len() && b[k] == y;
        assert((a + b)[k + a.len()] == y);
    }
}

/// The file extensions of all the formats, each once, in lexicographic order; for file
/// dialogs, since formats are told apart by their contents.
pub fn supported_extensions() -> (r: Vec<&'static str>)
    ensures
        str_order::strictly_sorted(str_views(r@)),
        forall|y: Seq<char>| #[trigger] str_views(r@).contains(y) <==> extensions_upto(15).contains(y),
{
    let formats = DiskImageFileFormat::all();
    let mut r: Vec<&'static str> = Vec::new();
    let mut i: usize = 0;
    assert(str_views(r@) =~= Seq::<Seq<char>>::empty());
    while i < formats.len()
        invariant
            formats@ == format_order(),
            i <= formats@.len(),
            str_order::strictly_sorted(str_views(r@)),
            forall|y: Seq<char>| #[trigger] str_views(r@).contains(y) <==> extensions_upto(i as int).contains(y),
        decreases formats.len() - i,
    {
        let exts = formats[i].extensions();
        let mut j: usize = 0;
        while j < exts.len()
            invariant
                formats@ == format_order(),
                i < formats@.len(),
                str_views(exts@) == format_extensions(formats@[i as int]),
                j <= exts@.len(),
                str_order::strictly_sorted(str_views(r@)),
                forall|y: Seq<char>| #[trigger] str_views(r@).contains(y)
                    <==> (extensions_upto(i as int).contains(y) || str_views(exts@).take(j as int).contains(y)),
            decreases exts.len() - j,
        {
            let ghost before = str_views(r@);
            str_order::insert_sorted(&mut r, exts[j]);
            proof {
                let t = str_views(exts@);
                assert(t.take(j as int + 1) =~= t.take(j as int).push(t[j as int]));
                assert forall|y: Seq<char>| #[trigger] str_views(r@).contains(y)
                    <==> (extensions_upto(i as int).contains(y) || t.take(j as int + 1).contains(y)) by {
                    lemma_contains_concat(t.take(j as int), seq![t[j as int]], y);
                    assert(t.take(j as int).push(t[j as int]) =~= t.take(j as int) + seq![t[j as int]]);
                    if y == t[j as int] {
                        assert(seq![t[j as int]][0] == y);
                    }
                    if seq![t[j as int]].contains(y) {
                        let k = choose|k: int| 0 <= k < 1 && seq![t[j as int]][k] == y;
                    }
                }
            }
            j += 1;
        }
        proof {
            let t = str_views(exts@);
            assert(t.take(t.len() as int) =~= t);
            assert forall|y: Seq<char>| #[trigger] str_views(r@).contains(y) <==> extensions_upto(i + 1).contains(y) by {
                lemma_contains_concat(extensions_upto(i as int), format_extensions(format_order()[i as int]), y);
            }
        }
        i += 1;
    }
    r
}

/// Whether two string slices hold the same characters.
pub fn str_eq(a: &str, b: &str) -> (r: bool)
    ensures
        r == (a@ == b@),
{
    let n = a.unicode_len();
    if n != b.unicode_len() {
        return false;
    }
    let mut i: usize = 0;
    while i < n
        invariant
            n == a@.len(),
            n == b@.len(),
            i <= n,
            forall|j: int| 0 <= j < i ==> a@[j] == b@[j],
        decreases n - i,
    {
        if a.get_char(i) != b.get_char(i) {
            return false;
        }
        i += 1;
    }
    assert(a@ =~= b@);
    true
}

/// The lower case form of a string, as `str::to_lowercase` computes it.
pub uninterp spec fn lowercase(s: Seq<char>) -> Seq<char>;

/// Calls `str::to_lowercase`. Claimed: the result is `lowercase` of the argument,
/// a function of the argument's characters alone.
#[verifier::external_body]
fn to_lowercase(s: &str) -> (r: String)
    ensures
        r@ == lowercase(s@),
{
    s.to_lowercase()
}

/// The first format, from the `i`-th in declaration order on, that advertises the extension `ext`.
pub open spec fn format_for_ext_from(ext: Seq<char>, i: int) -> Option<DiskImageFileFormat>
    decreases 15 - i,
{
    if i < 0 || i >= 15 {
        None
    } else if format_extensions(format_order()[i]).contains(ext) {
        Some(format_order()[i])
    } else {
        format_for_ext_from(ext, i + 1)
    }
}

/// The first format in declaration order that advertises the extension `ext`.
pub open spec fn format_for_ext(ext: Seq<char>) -> Option<DiskImageFileFormat> {
    format_for_ext_from(ext, 0)
}

/// Whether `exts` holds an entry equal to `ext`.
fn list_contains(exts: &Vec<&'static str>, ext: &str) -> (r: bool)
    ensures
        r == str_views(exts@).contains(ext@),
{
    let mut k: usize = 0;
    while k < exts.len()
        invariant
            k <= exts.len(),
            forall|j: int| 0 <= j < k ==> exts@[j]@ != ext@,
        decreases exts.len() - k,
    {
        if str_eq(exts[k], ext) {
            assert(str_views(exts@)[k as int] == ext@);
            return true;
        }
        k += 1;
    }
    assert forall|j: int| 0 <= j < str_views(exts@).len() implies str_views(exts@)[j] != ext@ by {
        assert(str_views(exts@)[j] == exts@[j]@);
    }
    false
}

/// Returns the format advertising the extension `ext`, which is already in lower case:
/// the first such format in declaration order, or `None` if no format advertises it.
pub fn format_from_lowercase_ext(ext: &str) -> (r: Option<DiskImageFileFormat>)
    ensures
        r == format_for_ext(ext@),
{
    let formats = DiskImageFileFormat::all();
    let mut i: usize = 0;
    while i < formats.len()
        invariant
            formats@ == format_order(),
            i <= formats.len(),
            format_for_ext(ext@) == format_for_ext_from(ext@, i as int),
        decreases formats.len() - i,
    {
        let exts = formats[i].extensions();
        if list_contains(&exts, ext) {
            return Some(formats[i]);
        }
        i += 1;
    }
    None
}

/// Returns a format based on the file extension provided, compared without regard to case.
/// If the extension is not recognized, `None` is returned.
pub fn format_from_ext(ext: &str) -> (r: Option<DiskImageFileFormat>)
    ensures
        r == format_for_ext(lowercase(ext@)),
{
    let lower = to_lowercase(ext);
    format_from_lowercase_ext(lower.as_str())
}

/// The formats, from the `i`-th in declaration order on, whose capabilities include `caps`
/// (all of them when `caps` is empty), each with its extensions.
pub open spec fn formats_with_caps_from(caps: u32, i: int) -> Seq<(DiskImageFileFormat, Seq<Seq<char>>)>
    decreases 15 - i,
{
    if i < 0 || i >= 15 {
        Seq::empty()
    } else {
        let f = format_order()[i];
        let rest = formats_with_caps_from(caps, i + 1);
        if caps == 0 || format_capabilities(f) & caps == caps {
            seq![(f, format_extensions(f))] + rest
        } else {
            rest
        }
    }
}

/// The view of a list of formats paired with their extensions.
pub open spec fn format_list_view(v: Seq<(DiskImageFileFormat, Vec<String>)>) -> Seq<(DiskImageFileFormat, Seq<Seq<char>>)> {
    v.map_values(|e: (DiskImageFileFormat, Vec<String>)| (e.0, e.1@.map_values(|s: String| s@)))
}

/// Owned copies of a list of string slices.
fn owned_strings(v: &Vec<&'static str>) -> (r: Vec<String>)
    ensures
        r@.map_values(|s: String| s@) == str_views(v@),
{
    let mut r: Vec<String> = Vec::new();
    let mut k: usize = 0;
    while k < v.len()
        invariant
            k <= v.len(),
            r@.len() == k,
            forall|j: int| 0 <= j < k ==> r@[j]@ == v@[j]@,
        decreases v.len() - k,
    {
        r.push(v[k].to_owned());
        k += 1;
    }
    assert(r@.map_values(|s: String| s@) =~= str_views(v@));
    r
}

/// Returns a list of image formats and their associated file extensions that support the
/// specified capabilities, in declaration order. Empty capabilities select every format.
pub fn formats_from_caps(caps: FormatCaps) -> (r: Vec<(DiskImageFileFormat, Vec<String>)>)
    ensures
        format_list_view(r@) == formats_with_caps_from(caps@, 0),
{
    let formats = DiskImageFileFormat::all();
    let mut r: Vec<(DiskImageFileFormat, Vec<String>)> = Vec::new();
    let mut i: usize = formats.len();
    // Build the list from the back so that each step prepends one entry.
    let mut acc: Vec<(DiskImageFileFormat, Vec<String>)> = Vec::new();
    while i > 0
        invariant
            formats@ == format_order(),
            i <= formats.len(),
            format_list_view(acc@.reverse()) == formats_with_caps_from(caps@, i as int),
        decreases i,
    {
        i -= 1;
        let f = formats[i];
        if caps.is_empty() || f.capabilities().contains(caps) {
            let exts = owned_strings(&f.extensions());
            let ghost old_acc = acc@;
            acc.push((f, exts));
            assert(acc@.reverse() =~= seq![(f, exts)] + old_acc.reverse());
            assert(format_list_view(acc@.reverse()) =~= seq![(f, format_extensions(f))]
                + format_list_view(old_acc.reverse()));
        }
    }
    let ghost full = acc@.reverse();
    while acc.len() > 0
        invariant
            r@ + acc@.reverse() == full,
        decreases acc.len(),
    {
        let ghost before = acc@;
        let e = acc.pop().unwrap();
        assert(before.reverse() =~= seq![e] + acc@.reverse());
        r.push(e);
        assert(r@ + acc@.reverse() =~= full);
    }
    assert(acc@.reverse() =~= Seq::<(DiskImageFileFormat, Vec<String>)>::empty());
    assert(r@ =~= full);
    r
}

} // verus!
