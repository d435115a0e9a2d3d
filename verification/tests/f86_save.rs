use fluxfox::file_parsers::f86::{F86Error, F86Format};
use fluxfox::file_parsers::f86_write::{F86SaveImage, F86SaveTrack};
use fluxfox::types::{DiskDataResolution, TrackDataEncoding, TrackDataRate, TrackDensity};

fn track(data: &[u8], weak: &[u8]) -> F86SaveTrack {
    F86SaveTrack { bit_count: data.len() * 8, data: data.to_vec(), weak: weak.to_vec() }
}

fn disk(has_weak_bits: bool, density: TrackDensity) -> F86SaveImage {
    F86SaveImage {
        resolution: DiskDataResolution::BitStream,
        has_weak_bits,
        density,
        heads: 1,
        cylinders: 2,
        write_protect: Some(true),
        data_rate: TrackDataRate::Rate250Kbps,
        encoding: TrackDataEncoding::Mfm,
        rpm: None,
        prolok: false,
        head0: vec![track(&[1, 2, 3], &[0x80, 0, 0]), track(&[4, 5, 6, 7], &[0, 0, 0, 1])],
        head1: vec![track(&[], &[]), track(&[], &[])],
    }
}

#[test]
fn f86_save_layout() {
    let bytes = F86Format::save_image(&disk(false, TrackDensity::Double)).unwrap();
    // Header: bit cell mode, speedup flag and write protection; one side, double density.
    assert_eq!(&bytes[..8], &[0x38, 0x36, 0x42, 0x46, 0x0C, 0x02, 0x90, 0x10]);
    // Two cylinders under 80 are each written twice: four entries, then zeros.
    let offset = |k: usize| u32::from_le_bytes([bytes[8 + 4 * k], bytes[9 + 4 * k], bytes[10 + 4 * k], bytes[11 + 4 * k]]);
    assert_eq!((offset(0), offset(1), offset(2), offset(3), offset(4)), (1032, 1046, 1060, 1074, 0));
    // Track flags: 250 Kbps and MFM; 24 bit cells; odd data padded to a word, weak bits
    // or-ed in even without a surface description.
    assert_eq!(&bytes[1032..1046], &[10, 0, 24, 0, 0, 0, 0, 0, 0, 0, 0x81, 2, 3, 0]);
    assert_eq!(&bytes[1060..1064], &[10, 0, 32, 0]);
    assert_eq!(&bytes[1070..1074], &[4, 5, 6, 7 | 1]);
    assert_eq!(bytes.len(), 1088);
}

#[test]
fn f86_save_surface() {
    let mut d = disk(true, TrackDensity::High);
    d.head0[0].weak = vec![0x80, 0, 0];
    let bytes = F86Format::save_image(&d).unwrap();
    // The surface flag and the high density bits are set; each track carries its weak data.
    assert_eq!(bytes[6], 0x90 | 0x01 | 0x02);
    assert_eq!(&bytes[1032..1050], &[10, 0, 24, 0, 0, 0, 0, 0, 0, 0, 0x81, 2, 3, 0, 0x80, 0, 0, 0]);
}

#[test]
fn f86_save_refused() {
    assert_eq!(F86Format::save_image(&disk(false, TrackDensity::Standard)).err(), Some(F86Error::UnsupportedFormat));
    let mut d = disk(true, TrackDensity::Double);
    d.head0[1].weak = vec![0];
    assert_eq!(F86Format::save_image(&d).err(), Some(F86Error::UnsupportedFormat));
    let mut d = disk(false, TrackDensity::Double);
    d.head1.pop();
    assert_eq!(F86Format::save_image(&d).err(), Some(F86Error::UnsupportedFormat));
    let mut d = disk(false, TrackDensity::Double);
    d.resolution = DiskDataResolution::MetaSector;
    assert_eq!(F86Format::save_image(&d).err(), Some(F86Error::UnsupportedFormat));
}

#[test]
fn f86_save_then_load() {
    let bytes = F86Format::save_image(&disk(false, TrackDensity::Double)).unwrap();
    let image = F86Format::load_image(&bytes).unwrap();
    assert_eq!(image.params.heads, 1);
    assert!(image.params.write_protect);
    assert_eq!(image.params.data_rate, TrackDataRate::Rate250Kbps);
}
