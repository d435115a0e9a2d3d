//! The stream elements of the extra data blocks of IPF tracks: a head byte (the element type
//! in its low bits, the width of the size field in bits 5 to 7), a big endian size field,
//! and the samples.
use vstd::prelude::*;

verus! {

/// The type of a data stream element.
#[derive(Clone, Copy, Debug, PartialEq, Eq, Structural)]
pub enum DataType {
    End,
    Sync,
    Data,
    Gap,
    Raw,
    Fuzzy,
    Invalid0,
    Invalid1,
}

/// The data type that the three type bits `v` name.
pub open spec fn data_type_of(v: u8) -> DataType {
    if v == 0 {
        DataType::End
    } else if v == 1 {
        DataType::Sync
    } else if v == 2 {
        DataType::Data
    } else if v == 3 {
        DataType::Gap
    } else if v == 4 {
        DataType::Raw
    } else if v == 5 {
        DataType::Fuzzy
    } else if v == 6 {
        DataType::Invalid0
    } else {
        DataType::Invalid1
    }
}

/// The head of a data stream element.
#[derive(Clone, Copy, Debug, PartialEq, Eq, Structural)]
pub struct DataHead {
    pub data_type: DataType,
    pub data_size_width: u8,
}

/// The head that the byte `b` holds: the type in bits 0 to 2, the size width in bits 5 to 7.
pub open spec fn data_head_of(b: u8) -> DataHead {
    DataHead { data_type: data_type_of(b % 8), data_size_width: b / 32 }
}

impl DataHead {
    /// The head that the byte `b` holds.
    pub fn from_byte(b: u8) -> (r: DataHead)
        ensures
            r == data_head_of(b),
    {
        let t = b % 8;
        let data_type = if t == 0 {
            DataType::End
        } else if t == 1 {
            DataType::Sync
        } else if t == 2 {
            DataType::Data
        } else if t == 3 {
            DataType::Gap
        } else if t == 4 {
            DataType::Raw
        } else if t == 5 {
            DataType::Fuzzy
        } else if t == 6 {
            DataType::Invalid0
        } else {
            DataType::Invalid1
        };
        DataHead { data_type, data_size_width: b / 32 }
    }

    /// Whether this is the null head that ends a list of elements: an end element with no
    /// size field.
    pub fn is_null(&self) -> (r: bool)
        ensures
            r == (self.data_type == DataType::End && self.data_size_width == 0),
    {
        self.data_type == DataType::End && self.data_size_width == 0
    }
}

/// The type of a gap stream element.
#[derive(Clone, Copy, Debug, PartialEq, Eq, Structural)]
pub enum GapType {
    End,
    GapLength,
    SampleLength,
    Invalid0,
}

/// The gap type that the two type bits `v` name.
pub open spec fn gap_type_of(v: u8) -> GapType {
    if v == 0 {
        GapType::End
    } else if v == 1 {
        GapType::GapLength
    } else if v == 2 {
        GapType::SampleLength
    } else {
        GapType::Invalid0
    }
}

/// The head of a gap stream element.
#[derive(Clone, Copy, Debug, PartialEq, Eq, Structural)]
pub struct GapHead {
    pub gap_type: GapType,
    pub data_size_width: u8,
}

/// The head that the byte `b` holds: the type in bits 0 and 1, the size width in bits 5 to 7.
pub open spec fn gap_head_of(b: u8) -> GapHead {
    GapHead { gap_type: gap_type_of(b % 4), data_size_width: b / 32 }
}

impl GapHead {
    /// The head that the byte `b` holds.
    pub fn from_byte(b: u8) -> (r: GapHead)
        ensures
            r == gap_head_of(b),
    {
        let t = b % 4;
        let gap_type = if t == 0 {
            GapType::End
        } else if t == 1 {
            GapType::GapLength
        } else if t == 2 {
            GapType::SampleLength
        } else {
            GapType::Invalid0
        };
        GapHead { gap_type, data_size_width: b / 32 }
    }

    /// Whether this is the null head that ends a list of elements.
    pub fn is_null(&self) -> (r: bool)
        ensures
            r == (self.gap_type == GapType::End && self.data_size_width == 0),
    {
        self.gap_type == GapType::End && self.data_size_width == 0
    }
}

/// The big endian value of the bytes `s`.
pub open spec fn be_value(s: Seq<u8>) -> nat
    decreases s.len(),
{
    if s.len() == 0 {
        0
    } else {
        be_value(s.drop_last()) * 256 + s.last() as nat
    }
}

/// 256 to the power `n`.
pub open spec fn pow256(n: nat) -> nat
    decreases n,
{
    if n == 0 {
        1
    } else {
        256 * pow256((n - 1) as nat)
    }
}

proof fn lemma_pow256_bound(n: nat)
    requires
        n <= 7,
    ensures
        pow256(n) <= 0x100_0000_0000_0000,
{
    reveal_with_fuel(pow256, 8);
}

/// The size field of `width` bytes at `pos`: their big endian value.
pub fn calculate_sample_size(data: &[u8], pos: usize, width: usize) -> (r: u64)
    requires
        pos + width <= data.len(),
        width <= 7,
    ensures
        r == be_value(data@.subrange(pos as int, pos + width)),
        r < 0x100_0000_0000_0000,
{
    let mut acc: u64 = 0;
    let mut i: usize = 0;
    while i < width
        invariant
            pos + width <= data.len(),
            width <= 7,
            i <= width,
            acc == be_value(data@.subrange(pos as int, pos + i)),
            acc < pow256(i as nat),
        decreases width - i,
    {
        proof {
            lemma_pow256_bound((i + 1) as nat);
            assert(pow256((i + 1) as nat) == 256 * pow256(i as nat));
            let s = data@.subrange(pos as int, pos + i + 1);
            assert(s.drop_last() =~= data@.subrange(pos as int, pos + i));
        }
        let b = data[pos + i];
        assert(acc * 256 + b < pow256((i + 1) as nat)) by (nonlinear_arith)
            requires
                acc < pow256(i as nat),
                b < 256,
                pow256((i + 1) as nat) == 256 * pow256(i as nat),
        ;
        acc = acc * 256 + b as u64;
        i += 1;
    }
    proof {
        lemma_pow256_bound(width as nat);
    }
    acc
}

/// The bits of `bytes`, most significant first, of which the first `n` are taken.
pub open spec fn bits_of(bytes: Seq<u8>, n: nat) -> Seq<bool> {
    Seq::new(n, |i: int| (bytes[i / 8] >> ((7 - i % 8) as u8)) & 1u8 == 1u8)
}

/// The samples of a data stream element: bytes, or bytes that hold bits.
pub enum DataSample {
    Bytes(Vec<u8>),
    Bits(Vec<u8>),
}

/// A data stream element.
pub struct DataStreamElement {
    pub data_head: DataHead,
    pub encoded_data_size: Vec<u8>,
    pub sample_size_decoded: u64,
    pub data_sample: Option<DataSample>,
}

/// A data stream element as plain values.
pub struct DataElementView {
    pub head: DataHead,
    /// The bytes of the size field.
    pub encoded_size: Seq<u8>,
    pub size: nat,
    /// The sample bytes; none for fuzzy data.
    pub sample: Option<Seq<u8>>,
    /// Whether the samples are bits (never, where there are none).
    pub in_bits: bool,
}

/// The sample bytes of a data element.
pub open spec fn data_sample_bytes(s: Option<DataSample>) -> Option<Seq<u8>> {
    match s {
        Some(DataSample::Bytes(v)) => Some(v@),
        Some(DataSample::Bits(v)) => Some(v@),
        None => None,
    }
}

impl DataStreamElement {
    /// The element as plain values.
    pub open spec fn view_of(&self) -> DataElementView {
        DataElementView {
            head: self.data_head,
            encoded_size: self.encoded_data_size@,
            size: self.sample_size_decoded as nat,
            sample: data_sample_bytes(self.data_sample),
            in_bits: self.data_sample matches Some(DataSample::Bits(_)),
        }
    }
}

/// The data element at `pos` and where the next one starts, if the data holds it. A fuzzy
/// element has no samples; otherwise `size` samples follow the size field: bytes, or where
/// `data_is_bits`, bits in whole bytes.
pub open spec fn data_element_at(s: Seq<u8>, pos: int, data_is_bits: bool) -> Option<(DataElementView, int)> {
    if pos < 0 || pos >= s.len() {
        None
    } else {
        let head = data_head_of(s[pos]);
        let w = head.data_size_width as int;
        if pos + 1 + w > s.len() {
            None
        } else {
            let size = be_value(s.subrange(pos + 1, pos + 1 + w));
            if head.data_type == DataType::Fuzzy {
                Some((DataElementView { head, encoded_size: s.subrange(pos + 1, pos + 1 + w), size, sample: None, in_bits: false }, pos + 1 + w))
            } else {
                let n: int = if data_is_bits { ((size + 7) / 8) as int } else { size as int };
                if pos + 1 + w + n > s.len() {
                    None
                } else {
                    Some((
                        DataElementView {
                            head,
                            encoded_size: s.subrange(pos + 1, pos + 1 + w),
                            size,
                            sample: Some(s.subrange(pos + 1 + w, pos + 1 + w + n)),
                            in_bits: data_is_bits,
                        },
                        pos + 1 + w + n,
                    ))
                }
            }
        }
    }
}

/// The bytes `pos` to `pos + n` of `data`, which holds them.
fn take_bytes(data: &[u8], pos: usize, n: usize) -> (r: Vec<u8>)
    requires
        pos + n <= data.len(),
    ensures
        r@ == data@.subrange(pos as int, pos + n),
{
    crate::file_parsers::bytes::copy_range(data, pos, n)
}

impl DataStreamElement {
    /// Read the data element at `pos` (see [data_element_at]); returns it and where the next
    /// one starts.
    pub fn read_args(data: &[u8], pos: usize, data_is_bits: bool) -> (r: Option<(DataStreamElement, usize)>)
        ensures
            match data_element_at(data@, pos as int, data_is_bits) {
                Some((v, next)) => r matches Some((e, n)) && e.view_of() == v && n == next,
                None => r is None,
            },
    {
        if pos >= data.len() {
            return None;
        }
        let data_head = DataHead::from_byte(data[pos]);
        let w = data_head.data_size_width as usize;
        if data.len() - pos - 1 < w {
            return None;
        }
        let size = calculate_sample_size(data, pos + 1, w);
        let encoded_data_size = take_bytes(data, pos + 1, w);
        let start = pos + 1 + w;
        if data_head.data_type == DataType::Fuzzy {
            return Some((
                DataStreamElement { data_head, encoded_data_size, sample_size_decoded: size, data_sample: None },
                start,
            ));
        }
        let n: u64 = if data_is_bits { (size + 7) / 8 } else { size };
        if n > (data.len() - start) as u64 {
            return None;
        }
        let n = n as usize;
        let bytes = take_bytes(data, start, n);
        let data_sample = if data_is_bits { DataSample::Bits(bytes) } else { DataSample::Bytes(bytes) };
        Some((
            DataStreamElement { data_head, encoded_data_size, sample_size_decoded: size, data_sample: Some(data_sample) },
            start + n,
        ))
    }
}


/// The samples of a gap stream element: a repeat count, or a bit pattern.
pub enum GapSample {
    RepeatCt(u64),
    Sample(Vec<bool>),
}

/// The samples of a gap stream element, as plain values.
pub enum GapSampleView {
    RepeatCt(nat),
    Sample(Seq<bool>),
}

/// A gap stream element.
pub struct GapStreamElement {
    pub gap_head: GapHead,
    pub encoded_data_size: Vec<u8>,
    pub sample_size_decoded: u64,
    pub gap_sample: Option<GapSample>,
}

/// A gap stream element as plain values.
pub struct GapElementView {
    pub head: GapHead,
    /// The bytes of the size field.
    pub encoded_size: Seq<u8>,
    pub size: nat,
    pub sample: Option<GapSampleView>,
}

/// The samples of a gap element, as plain values.
pub open spec fn gap_sample_view(s: Option<GapSample>) -> Option<GapSampleView> {
    match s {
        Some(GapSample::RepeatCt(n)) => Some(GapSampleView::RepeatCt(n as nat)),
        Some(GapSample::Sample(v)) => Some(GapSampleView::Sample(v@)),
        None => None,
    }
}

impl GapStreamElement {
    /// The element as plain values.
    pub open spec fn view_of(&self) -> GapElementView {
        GapElementView {
            head: self.gap_head,
            encoded_size: self.encoded_data_size@,
            size: self.sample_size_decoded as nat,
            sample: gap_sample_view(self.gap_sample),
        }
    }
}

/// The gap element at `pos` and where the next one starts, if the data holds it. A gap length
/// element gives its size as a repeat count; a sample length element is followed by `size`
/// bits in whole bytes; other elements have no samples.
pub open spec fn gap_element_at(s: Seq<u8>, pos: int) -> Option<(GapElementView, int)> {
    if pos < 0 || pos >= s.len() {
        None
    } else {
        let head = gap_head_of(s[pos]);
        let w = head.data_size_width as int;
        if pos + 1 + w > s.len() {
            None
        } else {
            let size = be_value(s.subrange(pos + 1, pos + 1 + w));
            if head.gap_type == GapType::GapLength {
                Some((GapElementView { head, encoded_size: s.subrange(pos + 1, pos + 1 + w), size, sample: Some(GapSampleView::RepeatCt(size)) }, pos + 1 + w))
            } else if head.gap_type == GapType::SampleLength {
                let n: int = ((size + 7) / 8) as int;
                if pos + 1 + w + n > s.len() {
                    None
                } else {
                    Some((
                        GapElementView {
                            head,
                            encoded_size: s.subrange(pos + 1, pos + 1 + w),
                            size,
                            sample: Some(GapSampleView::Sample(bits_of(s.subrange(pos + 1 + w, pos + 1 + w + n), size))),
                        },
                        pos + 1 + w + n,
                    ))
                }
            } else {
                Some((GapElementView { head, encoded_size: s.subrange(pos + 1, pos + 1 + w), size, sample: None }, pos + 1 + w))
            }
        }
    }
}

/// The first `n` bits of `bytes`, most significant first.
pub fn bits_from_bytes(bytes: &[u8], n: u64) -> (r: Vec<bool>)
    requires
        n <= 8 * bytes@.len(),
    ensures
        r@ == bits_of(bytes@, n as nat),
{
    let mut v: Vec<bool> = Vec::new();
    let mut i: u64 = 0;
    while i < n
        invariant
            i <= n,
            n <= 8 * bytes@.len(),
            v@.len() == i,
            forall|k: int| 0 <= k < i ==> v@[k] == bits_of(bytes@, n as nat)[k],
        decreases n - i,
    {
        let b = bytes[(i / 8) as usize];
        let bit = (b >> ((7 - i % 8) as u8)) & 1u8 == 1u8;
        v.push(bit);
        i += 1;
    }
    assert(v@ =~= bits_of(bytes@, n as nat));
    v
}

impl GapStreamElement {
    /// Read the gap element at `pos` (see [gap_element_at]); returns it and where the next
    /// one starts.
    pub fn read(data: &[u8], pos: usize) -> (r: Option<(GapStreamElement, usize)>)
        ensures
            match gap_element_at(data@, pos as int) {
                Some((v, next)) => r matches Some((e, n)) && e.view_of() == v && n == next,
                None => r is None,
            },
    {
        if pos >= data.len() {
            return None;
        }
        let gap_head = GapHead::from_byte(data[pos]);
        let w = gap_head.data_size_width as usize;
        if data.len() - pos - 1 < w {
            return None;
        }
        let size = calculate_sample_size(data, pos + 1, w);
        let encoded_data_size = take_bytes(data, pos + 1, w);
        let start = pos + 1 + w;
        if gap_head.gap_type == GapType::GapLength {
            return Some((
                GapStreamElement {
                    gap_head,
                    encoded_data_size,
                    sample_size_decoded: size,
                    gap_sample: Some(GapSample::RepeatCt(size)),
                },
                start,
            ));
        }
        if gap_head.gap_type == GapType::SampleLength {
            let n: u64 = (size + 7) / 8;
            if n > (data.len() - start) as u64 {
                return None;
            }
            let n = n as usize;
            let bytes = take_bytes(data, start, n);
            let bits = bits_from_bytes(bytes.as_slice(), size);
            return Some((
                GapStreamElement {
                    gap_head,
                    encoded_data_size,
                    sample_size_decoded: size,
                    gap_sample: Some(GapSample::Sample(bits)),
                },
                start + n,
            ));
        }
        Some((
            GapStreamElement { gap_head, encoded_data_size, sample_size_decoded: size, gap_sample: None },
            start,
        ))
    }
}

} // verus!
