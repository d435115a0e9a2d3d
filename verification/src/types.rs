//! Descriptive types shared by the image format parsers.
use vstd::prelude::*;

verus! {

/// A computer platform that a disk image may be associated with.
#[derive(Clone, Copy, Debug, PartialEq, Eq, Structural)]
pub enum Platform {
    IbmPc,
    Amiga,
    Macintosh,
    AtariSt,
    AppleII,
}

/// The resolution at which a disk image stores its track data.
#[derive(Clone, Copy, Debug, PartialEq, Eq, Structural)]
pub enum DiskDataResolution {
    MetaSector,
    FluxStream,
    BitStream,
}

/// The encoding scheme of a track.
#[derive(Clone, Copy, Debug, PartialEq, Eq, Structural)]
pub enum TrackDataEncoding {
    Fm,
    Mfm,
    Gcr,
}

/// The density of a track.
#[derive(Clone, Copy, Debug, PartialEq, Eq, Structural)]
pub enum TrackDensity {
    Standard,
    Double,
    High,
    Extended,
}

/// The nominal data rate of a track, in bits per second.
#[derive(Clone, Copy, Debug, PartialEq, Eq, Structural)]
pub enum TrackDataRate {
    Rate125Kbps,
    Rate250Kbps,
    Rate300Kbps,
    Rate500Kbps,
    Rate1000Kbps,
}

/// The nominal rotation rate of a disk.
#[derive(Clone, Copy, Debug, PartialEq, Eq, Structural)]
pub enum DiskRpm {
    Rpm300,
    Rpm360,
}

/// A standard disk format of known geometry.
#[derive(Clone, Copy, Debug, PartialEq, Eq, Structural)]
pub enum StandardFormat {
    PcFloppy160,
    PcFloppy180,
    PcFloppy320,
    PcFloppy360,
    PcFloppy720,
    PcFloppy1200,
    PcFloppy1440,
    PcFloppy2880,
}

/// The address of a track: a cylinder and a head.
#[derive(Clone, Copy, Debug, PartialEq, Eq, Structural)]
pub struct DiskCh {
    pub c: u16,
    pub h: u8,
}

impl DiskCh {
    /// The track at cylinder `c`, head `h`.
    pub fn new(c: u16, h: u8) -> (r: DiskCh)
        ensures
            r.c == c,
            r.h == h,
    {
        DiskCh { c, h }
    }
}

/// The address of a sector by position: a cylinder, a head and a sector number.
#[derive(Clone, Copy, Debug, PartialEq, Eq, Structural)]
pub struct DiskChs {
    pub c: u16,
    pub h: u8,
    pub s: u8,
}

/// The identity of a sector as its address mark gives it: a cylinder, a head, a sector
/// number and a size code.
#[derive(Clone, Copy, Debug, PartialEq, Eq, Structural)]
pub struct DiskChsn {
    pub c: u16,
    pub h: u8,
    pub s: u8,
    pub n: u8,
}

} // verus!
