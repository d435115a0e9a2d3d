//! The INFO record of an IPF file, which describes the imaged disk as a whole.
use vstd::prelude::*;
use crate::file_parsers::bytes::{be32, read_u32_be};
use crate::file_parsers::ipf::ipf::IpfError;
use crate::types::Platform;

verus! {

/// The kind of media an IPF file images.
#[derive(Clone, Copy, Debug, PartialEq, Eq, Structural)]
pub enum MediaType {
    Unknown,
    FloppyDisk,
}

impl MediaType {
    /// The media type with code `value`, if there is one.
    pub fn from_u32(value: u32) -> (r: Option<MediaType>)
        ensures
            r == (if value == 0 {
                Some(MediaType::Unknown)
            } else if value == 1 {
                Some(MediaType::FloppyDisk)
            } else {
                None::<MediaType>
            }),
    {
        match value {
            0 => Some(MediaType::Unknown),
            1 => Some(MediaType::FloppyDisk),
            _ => None,
        }
    }
}

/// The encoder that wrote an IPF file.
#[derive(Clone, Copy, Debug, PartialEq, Eq, Structural)]
pub enum EncoderType {
    Unknown,
    V1,
    V2,
}

impl EncoderType {
    /// The encoder type with code `value`, if there is one.
    pub fn from_u32(value: u32) -> (r: Option<EncoderType>)
        ensures
            r == (if value == 0 {
                Some(EncoderType::Unknown)
            } else if value == 1 {
                Some(EncoderType::V1)
            } else if value == 2 {
                Some(EncoderType::V2)
            } else {
                None::<EncoderType>
            }),
    {
        match value {
            0 => Some(EncoderType::Unknown),
            1 => Some(EncoderType::V1),
            2 => Some(EncoderType::V2),
            _ => None,
        }
    }
}

/// The platforms an IPF file may name.
#[derive(Clone, Copy, Debug, PartialEq, Eq, Structural)]
pub enum IpfPlatform {
    Empty,
    Amiga,
    AtariSt,
    Pc,
    AmstradCpc,
    Spectrum,
    SamCoupe,
    Archimedes,
    C64,
    Atari8Bit,
}

/// The platform with code `v`, if there is one.
pub open spec fn ipf_platform_of(v: u32) -> Option<IpfPlatform> {
    if v == 0 { Some(IpfPlatform::Empty) }
    else if v == 1 { Some(IpfPlatform::Amiga) }
    else if v == 2 { Some(IpfPlatform::AtariSt) }
    else if v == 3 { Some(IpfPlatform::Pc) }
    else if v == 4 { Some(IpfPlatform::AmstradCpc) }
    else if v == 5 { Some(IpfPlatform::Spectrum) }
    else if v == 6 { Some(IpfPlatform::SamCoupe) }
    else if v == 7 { Some(IpfPlatform::Archimedes) }
    else if v == 8 { Some(IpfPlatform::C64) }
    else if v == 9 { Some(IpfPlatform::Atari8Bit) }
    else { None }
}

/// The supported platform that an IPF platform stands for, if it is supported.
pub open spec fn platform_of(p: IpfPlatform) -> Option<Platform> {
    match p {
        IpfPlatform::Amiga => Some(Platform::Amiga),
        IpfPlatform::AtariSt => Some(Platform::AtariSt),
        IpfPlatform::Pc => Some(Platform::IbmPc),
        _ => None,
    }
}

/// The name of a platform.
pub open spec fn ipf_platform_name(p: IpfPlatform) -> Seq<char> {
    match p {
        IpfPlatform::Empty => "None"@,
        IpfPlatform::Amiga => "Amiga"@,
        IpfPlatform::AtariSt => "AtariSt"@,
        IpfPlatform::Pc => "Pc"@,
        IpfPlatform::AmstradCpc => "AmstradCpc"@,
        IpfPlatform::Spectrum => "Spectrum"@,
        IpfPlatform::SamCoupe => "SamCoupe"@,
        IpfPlatform::Archimedes => "Archimedes"@,
        IpfPlatform::C64 => "C64"@,
        IpfPlatform::Atari8Bit => "Atari8Bit"@,
    }
}

impl IpfPlatform {
    /// The platform with code `value`, if there is one.
    pub fn from_u32(value: u32) -> (r: Option<IpfPlatform>)
        ensures
            r == ipf_platform_of(value),
    {
        match value {
            0 => Some(IpfPlatform::Empty),
            1 => Some(IpfPlatform::Amiga),
            2 => Some(IpfPlatform::AtariSt),
            3 => Some(IpfPlatform::Pc),
            4 => Some(IpfPlatform::AmstradCpc),
            5 => Some(IpfPlatform::Spectrum),
            6 => Some(IpfPlatform::SamCoupe),
            7 => Some(IpfPlatform::Archimedes),
            8 => Some(IpfPlatform::C64),
            9 => Some(IpfPlatform::Atari8Bit),
            _ => None,
        }
    }

    /// The supported platform this stands for: an error for `None` and for the platforms
    /// that are not supported.
    pub fn to_platform(self) -> (r: Result<Platform, ()>)
        ensures
            r == match platform_of(self) {
                Some(p) => Ok::<Platform, ()>(p),
                None => Err(()),
            },
    {
        match self {
            IpfPlatform::Amiga => Ok(Platform::Amiga),
            IpfPlatform::AtariSt => Ok(Platform::AtariSt),
            IpfPlatform::Pc => Ok(Platform::IbmPc),
            _ => Err(()),
        }
    }

    /// The supported platform this stands for, with `None` standing for no platform (the
    /// padding of the platform table); an error for the platforms that are not supported.
    pub fn to_optional_platform(self) -> (r: Result<Option<Platform>, ()>)
        ensures
            r == (if self == IpfPlatform::Empty {
                Ok::<Option<Platform>, ()>(None)
            } else {
                match platform_of(self) {
                    Some(p) => Ok(Some(p)),
                    None => Err(()),
                }
            }),
    {
        match self {
            IpfPlatform::Empty => Ok(None),
            IpfPlatform::Amiga => Ok(Some(Platform::Amiga)),
            IpfPlatform::AtariSt => Ok(Some(Platform::AtariSt)),
            IpfPlatform::Pc => Ok(Some(Platform::IbmPc)),
            _ => Err(()),
        }
    }

    /// The name of the platform.
    pub fn name(&self) -> (r: &'static str)
        ensures
            r@ == ipf_platform_name(*self),
    {
        match self {
            IpfPlatform::Empty => "None",
            IpfPlatform::Amiga => "Amiga",
            IpfPlatform::AtariSt => "AtariSt",
            IpfPlatform::Pc => "Pc",
            IpfPlatform::AmstradCpc => "AmstradCpc",
            IpfPlatform::Spectrum => "Spectrum",
            IpfPlatform::SamCoupe => "SamCoupe",
            IpfPlatform::Archimedes => "Archimedes",
            IpfPlatform::C64 => "C64",
            IpfPlatform::Atari8Bit => "Atari8Bit",
        }
    }
}

/// The platforms named by the codes in `vals`, in order, skipping unknown codes.
pub open spec fn platform_enums_of(vals: Seq<u32>) -> Seq<IpfPlatform>
    decreases vals.len(),
{
    if vals.len() == 0 {
        Seq::empty()
    } else {
        let rest = platform_enums_of(vals.drop_last());
        match ipf_platform_of(vals.last()) {
            Some(p) => rest.push(p),
            None => rest,
        }
    }
}

/// The supported platforms among `ps`, in order.
pub open spec fn supported_platforms(ps: Seq<IpfPlatform>) -> Seq<Platform>
    decreases ps.len(),
{
    if ps.len() == 0 {
        Seq::empty()
    } else {
        let rest = supported_platforms(ps.drop_last());
        match platform_of(ps.last()) {
            Some(p) => rest.push(p),
            None => rest,
        }
    }
}

/// The size of an INFO record in bytes.
pub const INFO_RECORD_SIZE: usize = 84;

/// The INFO record of an IPF file.
pub struct InfoRecord {
    pub media_type: u32,
    pub media_type_enum: Option<MediaType>,
    pub encoder_type: u32,
    pub encoder_type_enum: Option<EncoderType>,
    pub encoder_rev: u32,
    pub file_key: u32,
    pub file_rev: u32,
    pub origin: u32,
    pub min_track: u32,
    pub max_track: u32,
    pub min_side: u32,
    pub max_side: u32,
    pub creation_date: u32,
    pub creation_time: u32,
    pub platforms: [u32; 4],
    pub platform_enums: Vec<IpfPlatform>,
    pub disk_number: u32,
    pub creator_id: u32,
    pub reserved: [u8; 12],
}

/// The big endian word `k` of `s`.
pub open spec fn word(s: Seq<u8>, k: int) -> u32 {
    be32(s, 4 * k) as u32
}

/// Whether `r` is the INFO record stored at the start of `s`.
pub open spec fn info_record_of(s: Seq<u8>, r: InfoRecord) -> bool {
    &&& r.media_type == word(s, 0)
    &&& r.media_type_enum == (if word(s, 0) == 0 {
        Some(MediaType::Unknown)
    } else if word(s, 0) == 1 {
        Some(MediaType::FloppyDisk)
    } else {
        None::<MediaType>
    })
    &&& r.encoder_type == word(s, 1)
    &&& r.encoder_type_enum == (if word(s, 1) == 0 {
        Some(EncoderType::Unknown)
    } else if word(s, 1) == 1 {
        Some(EncoderType::V1)
    } else if word(s, 1) == 2 {
        Some(EncoderType::V2)
    } else {
        None::<EncoderType>
    })
    &&& r.encoder_rev == word(s, 2)
    &&& r.file_key == word(s, 3)
    &&& r.file_rev == word(s, 4)
    &&& r.origin == word(s, 5)
    &&& r.min_track == word(s, 6)
    &&& r.max_track == word(s, 7)
    &&& r.min_side == word(s, 8)
    &&& r.max_side == word(s, 9)
    &&& r.creation_date == word(s, 10)
    &&& r.creation_time == word(s, 11)
    &&& r.platforms@ == seq![word(s, 12), word(s, 13), word(s, 14), word(s, 15)]
    &&& r.platform_enums@ == platform_enums_of(r.platforms@)
    &&& r.disk_number == word(s, 16)
    &&& r.creator_id == word(s, 17)
    &&& r.reserved@ == s.subrange(72, 84)
}

/// The big endian word `k` of `data`, which holds it.
fn word_at(data: &[u8], k: usize) -> (r: u32)
    requires
        4 * k + 4 <= data.len(),
    ensures
        r == word(data@, k as int),
{
    read_u32_be(data, 4 * k).unwrap()
}

impl InfoRecord {
    /// Read an INFO record from the data of an INFO chunk; an error if the data is too short.
    pub fn read(data: &[u8]) -> (r: Result<InfoRecord, IpfError>)
        ensures
            data@.len() < INFO_RECORD_SIZE ==> r == Err::<InfoRecord, IpfError>(IpfError::RecordTooShort),
            data@.len() >= INFO_RECORD_SIZE ==> (r matches Ok(rec) && info_record_of(data@, rec)),
    {
        if data.len() < INFO_RECORD_SIZE {
            return Err(IpfError::RecordTooShort);
        }
        let platforms = [word_at(data, 12), word_at(data, 13), word_at(data, 14), word_at(data, 15)];
        let mut platform_enums: Vec<IpfPlatform> = Vec::new();
        let mut i: usize = 0;
        while i < 4
            invariant
                i <= 4,
                platform_enums@ == platform_enums_of(platforms@.take(i as int)),
            decreases 4 - i,
        {
            proof {
                assert(platforms@.take(i as int + 1).drop_last() =~= platforms@.take(i as int));
            }
            match IpfPlatform::from_u32(platforms[i]) {
                Some(p) => platform_enums.push(p),
                None => {},
            }
            i += 1;
        }
        assert(platforms@.take(4) =~= platforms@);
        let mut reserved = [0u8; 12];
        let mut j: usize = 0;
        while j < 12
            invariant
                j <= 12,
                data@.len() >= 84,
                forall|k: int| 0 <= k < j ==> reserved@[k] == data@[72 + k],
            decreases 12 - j,
        {
            reserved.set(j, data[72 + j]);
            j += 1;
        }
        assert(reserved@ =~= data@.subrange(72, 84));
        let media_type = word_at(data, 0);
        let encoder_type = word_at(data, 1);
        let rec = InfoRecord {
            media_type,
            media_type_enum: MediaType::from_u32(media_type),
            encoder_type,
            encoder_type_enum: EncoderType::from_u32(encoder_type),
            encoder_rev: word_at(data, 2),
            file_key: word_at(data, 3),
            file_rev: word_at(data, 4),
            origin: word_at(data, 5),
            min_track: word_at(data, 6),
            max_track: word_at(data, 7),
            min_side: word_at(data, 8),
            max_side: word_at(data, 9),
            creation_date: word_at(data, 10),
            creation_time: word_at(data, 11),
            platforms,
            platform_enums,
            disk_number: word_at(data, 16),
            creator_id: word_at(data, 17),
            reserved,
        };
        assert(rec.platforms@ =~= seq![word(data@, 12), word(data@, 13), word(data@, 14), word(data@, 15)]);
        Ok(rec)
    }

    /// The supported platforms that the file names, in order.
    pub fn platforms(&self) -> (r: Vec<Platform>)
        ensures
            r@ == supported_platforms(self.platform_enums@),
    {
        let mut r: Vec<Platform> = Vec::new();
        let mut i: usize = 0;
        while i < self.platform_enums.len()
            invariant
                i <= self.platform_enums@.len(),
                r@ == supported_platforms(self.platform_enums@.take(i as int)),
            decreases self.platform_enums.len() - i,
        {
            proof {
                assert(self.platform_enums@.take(i as int + 1).drop_last()
                    =~= self.platform_enums@.take(i as int));
            }
            match self.platform_enums[i].to_platform() {
                Ok(p) => r.push(p),
                Err(_) => {},
            }
            i += 1;
        }
        assert(self.platform_enums@.take(self.platform_enums@.len() as int) =~= self.platform_enums@);
        r
    }
}

} // verus!
