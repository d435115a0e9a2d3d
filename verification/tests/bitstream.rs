use fluxfox::file_parsers::hfe::{reverse_bits, HfeError, HfeFloppyEncoding, HfeFloppyInterface, HfeFormat};
use fluxfox::file_parsers::mfm::{MfmError, MfmFormat};
use fluxfox::flux::FluxTransition;

fn hfe_header(tracks: u8, sides: u8) -> Vec<u8> {
    let mut h = b"HXCPICFE".to_vec();
    h.extend_from_slice(&[0, tracks, sides, 0]);
    h.extend_from_slice(&250u16.to_le_bytes());
    h.extend_from_slice(&300u16.to_le_bytes());
    h.extend_from_slice(&[0x04, 0]);
    h.extend_from_slice(&1u16.to_le_bytes());
    h.extend_from_slice(&[0x00, 0xFF, 0xFF, 0xFF, 0xFF, 0xFF]);
    assert_eq!(h.len(), 26);
    h
}

fn hfe_image(sides: u8, second_len: u16) -> Vec<u8> {
    let mut v = hfe_header(2, sides);
    v.resize(512, 0);
    v.extend_from_slice(&2u16.to_le_bytes());
    v.extend_from_slice(&8u16.to_le_bytes());
    v.extend_from_slice(&3u16.to_le_bytes());
    v.extend_from_slice(&second_len.to_le_bytes());
    v.resize(1024, 0);
    v.extend_from_slice(&[0x01, 0x02, 0x03, 0x04, 0x10, 0x20, 0x30, 0x40]);
    v.resize(1536, 0);
    v.extend_from_slice(&[0x80, 0xC0, 0x0F, 0xF0]);
    v
}

#[test]
fn hfe_load_image_two_sides() {
    let img = HfeFormat::load_image(&hfe_image(2, 4)).unwrap();
    assert_eq!(img.header.number_of_tracks, 2);
    assert_eq!(img.header.bit_rate, 250);
    assert_eq!(img.interface, HfeFloppyInterface::AmigaDd);
    assert_eq!(img.encoding, HfeFloppyEncoding::IsoIbmMfm);
    let chs: Vec<(u16, u8)> = img.tracks.iter().map(|t| (t.ch.c, t.ch.h)).collect();
    assert_eq!(chs, vec![(0, 0), (0, 1), (1, 0), (1, 1)]);
    assert_eq!(img.tracks[0].data, vec![0x80, 0x40, 0xC0, 0x20]);
    assert_eq!(img.tracks[1].data, vec![0x08, 0x04, 0x0C, 0x02]);
    assert_eq!(img.tracks[2].data, vec![reverse_bits(0x80), reverse_bits(0xC0)]);
    assert_eq!(img.tracks[3].data, vec![0xF0, 0x0F]);
    assert!(HfeFormat::detect(&hfe_image(2, 4)));
}

#[test]
fn hfe_load_image_one_side() {
    let img = HfeFormat::load_image(&hfe_image(1, 4)).unwrap();
    let chs: Vec<(u16, u8)> = img.tracks.iter().map(|t| (t.ch.c, t.ch.h)).collect();
    assert_eq!(chs, vec![(0, 0), (1, 0)]);
}

#[test]
fn hfe_load_image_errors() {
    let mut bad = hfe_image(2, 4);
    bad[0] = b'X';
    assert!(!HfeFormat::detect(&bad));
    assert!(matches!(HfeFormat::load_image(&bad), Err(HfeError::UnknownFormat)));
    assert!(matches!(HfeFormat::load_image(&hfe_image(2, 3)), Err(HfeError::FormatParseError)));
    assert!(matches!(HfeFormat::load_image(&hfe_image(2, 4)[..20]), Err(HfeError::ReadError)));
    // The second cylinder claims more data than the image holds.
    assert!(matches!(HfeFormat::load_image(&hfe_image(2, 8)), Err(HfeError::ReadError)));
}

fn mfm_header(if_type: u8, tracks: u16, heads: u8) -> Vec<u8> {
    let mut h = b"HXCMFM".to_vec();
    h.push(0);
    h.extend_from_slice(&tracks.to_le_bytes());
    h.push(heads);
    h.extend_from_slice(&300u16.to_le_bytes());
    h.extend_from_slice(&250u16.to_le_bytes());
    h.push(if_type);
    h.extend_from_slice(&19u32.to_le_bytes());
    h
}

fn mfm_std_entry(no: u16, side: u8, size: u32, off: u32) -> Vec<u8> {
    let mut v = no.to_le_bytes().to_vec();
    v.push(side);
    v.extend_from_slice(&size.to_le_bytes());
    v.extend_from_slice(&off.to_le_bytes());
    v
}

#[test]
fn mfm_load_standard_image() {
    let mut v = mfm_header(0, 2, 1);
    v.extend(mfm_std_entry(0, 0, 3, 41));
    v.extend(mfm_std_entry(0x101, 0, 2, 44));
    v.extend_from_slice(&[9, 8, 7, 6, 5]);
    assert!(MfmFormat::detect(&v));
    let img = MfmFormat::load_image(&v).unwrap();
    assert_eq!(img.header.track_ct, 2);
    assert_eq!(img.tracks.len(), 2);
    assert_eq!((img.tracks[0].ch.c, img.tracks[0].ch.h), (0, 0));
    assert_eq!(img.tracks[0].data_rate, 25000);
    assert_eq!(img.tracks[0].bitcell_ct, None);
    assert_eq!(img.tracks[0].data, vec![9, 8, 7]);
    // The cylinder is the low byte of the track number.
    assert_eq!(img.tracks[1].ch.c, 1);
    assert_eq!(img.tracks[1].data, vec![6, 5]);
}

#[test]
fn mfm_load_advanced_image() {
    let mut v = mfm_header(0x80, 1, 1);
    v.extend_from_slice(&3u16.to_le_bytes());
    v.push(1);
    v.extend_from_slice(&360u16.to_le_bytes());
    v.extend_from_slice(&500u16.to_le_bytes());
    v.extend_from_slice(&20u32.to_le_bytes());
    v.extend_from_slice(&34u32.to_le_bytes());
    v.extend_from_slice(&[1, 2, 3, 4]);
    let img = MfmFormat::load_image(&v).unwrap();
    assert_eq!(img.tracks.len(), 1);
    assert_eq!((img.tracks[0].ch.c, img.tracks[0].ch.h), (3, 1));
    assert_eq!(img.tracks[0].data_rate, 50000);
    assert_eq!(img.tracks[0].bitcell_ct, Some(20));
    assert_eq!(img.tracks[0].data, vec![1, 2, 3]);
}

#[test]
fn mfm_load_errors() {
    let mut v = mfm_header(0, 2, 1);
    v.extend(mfm_std_entry(0, 0, 3, 41));
    assert!(matches!(MfmFormat::load_image(&v), Err(MfmError::FormatParseError)));
    v.extend(mfm_std_entry(1, 0, 2, 44));
    v.extend_from_slice(&[9, 8, 7, 6]);
    assert!(matches!(MfmFormat::load_image(&v), Err(MfmError::Io)));
    let mut bad = mfm_header(0, 0, 0);
    bad[0] = b'h';
    assert!(!MfmFormat::detect(&bad));
    assert!(matches!(MfmFormat::load_image(&bad), Err(MfmError::UnsupportedFormat)));
    // An image too short for a header reads as empty.
    let img = MfmFormat::load_image(b"HXC").unwrap();
    assert_eq!(img.tracks.len(), 0);
    assert_eq!(img.header.track_ct, 0);
}

#[test]
fn flux_transition_bits() {
    assert_eq!(FluxTransition::Short.to_bits(), vec![true, false]);
    assert_eq!(FluxTransition::Medium.to_bits(), vec![true, false, false]);
    assert_eq!(FluxTransition::Long.to_bits(), vec![true, false, false, false]);
    assert!(FluxTransition::Other.to_bits().is_empty());
    assert_eq!(FluxTransition::Long.to_string(), "L");
    assert_eq!(FluxTransition::Other.to_string(), "X");
}
