use fluxfox::file_parsers::moof::{decode_as_flux_ticks, MoofDiskType, MoofError, MoofFormat, MoofTrackData};
use fluxfox::types::{TrackDataEncoding, TrackDensity};

fn chunk(id: &[u8; 4], body: &[u8]) -> Vec<u8> {
    let mut v = id.to_vec();
    v.extend_from_slice(&(body.len() as u32).to_le_bytes());
    v.extend_from_slice(body);
    v
}

fn info_body(version: u8, disk_type: u8) -> Vec<u8> {
    let mut b = vec![version, disk_type, 1, 0, 16];
    let mut creator = b"Test".to_vec();
    creator.resize(32, b' ');
    b.extend_from_slice(&creator);
    b.push(0);
    b.extend_from_slice(&2u16.to_le_bytes());
    b.extend_from_slice(&0u16.to_le_bytes());
    b.extend_from_slice(&0u16.to_le_bytes());
    b.resize(60, 0);
    b
}

fn trks_body() -> Vec<u8> {
    let mut b = vec![0u8; 1280];
    let entries: [(u16, u16, u32); 2] = [(3, 1, 4000), (4, 1, 3000)];
    for (i, (start, count, bits)) in entries.iter().enumerate() {
        b[8 * i..8 * i + 2].copy_from_slice(&start.to_le_bytes());
        b[8 * i + 2..8 * i + 4].copy_from_slice(&count.to_le_bytes());
        b[8 * i + 4..8 * i + 8].copy_from_slice(&bits.to_le_bytes());
    }
    b
}

fn with_header(rest: Vec<u8>) -> Vec<u8> {
    let mut crc = flate2::Crc::new();
    crc.update(&rest);
    let mut v = b"MOOF".to_vec();
    v.extend_from_slice(&[0xFF, 0x0A, 0x0D, 0x0A]);
    v.extend_from_slice(&crc.sum().to_le_bytes());
    v.extend(rest);
    v
}

fn moof_image(info: Vec<u8>, tmap: Option<Vec<u8>>) -> Vec<u8> {
    let mut rest = chunk(b"INFO", &info);
    if let Some(t) = tmap {
        rest.extend(chunk(b"TMAP", &t));
    }
    rest.extend(chunk(b"TRKS", &trks_body()));
    // The track data blocks, at 512 byte blocks 3 and 4; each reads as an unknown chunk.
    let mut block3 = chunk(b"DAT1", &[0x33u8; 504]);
    block3[9] = 0x01;
    rest.extend(block3);
    rest.extend(chunk(b"DAT2", &[0x44u8; 504]));
    with_header(rest)
}

fn tmap_two_tracks() -> Vec<u8> {
    let mut t = vec![0xFFu8; 160];
    t[0] = 0;
    t[2] = 1;
    t
}

#[test]
fn moof_load_tracks() {
    let image = moof_image(info_body(1, 1), Some(tmap_two_tracks()));
    assert_eq!(image.len(), 2560);
    let img = MoofFormat::load_image(&image).unwrap();
    assert_eq!(img.info.disk_type, MoofDiskType::SsDdGcr400K);
    assert_eq!(img.info.creator, b"Test".to_vec());
    assert_eq!(img.encoding, TrackDataEncoding::Gcr);
    assert_eq!(img.density, TrackDensity::Standard);
    assert_eq!((img.geometry.c, img.geometry.h), (80, 1));
    assert!(img.write_protect);
    assert!(!img.multires);
    assert_eq!(img.tracks.len(), 2);
    assert_eq!((img.tracks[0].ch.c, img.tracks[0].ch.h), (0, 0));
    assert_eq!((img.tracks[1].ch.c, img.tracks[1].ch.h), (1, 0));
    match &img.tracks[0].data {
        MoofTrackData::Bitstream { data, bit_ct } => {
            assert_eq!(*bit_ct, 4000);
            assert_eq!(&data[..], &image[1536..2048]);
        }
        _ => panic!("expected a bit stream track"),
    }
    match &img.tracks[1].data {
        MoofTrackData::Bitstream { data, bit_ct } => {
            assert_eq!(*bit_ct, 3000);
            assert_eq!(&data[..], &image[2048..2560]);
        }
        _ => panic!("expected a bit stream track"),
    }
}

#[test]
fn moof_load_errors() {
    let good = moof_image(info_body(1, 1), Some(tmap_two_tracks()));

    let mut bad_magic = good.clone();
    bad_magic[0] = b'W';
    assert_eq!(MoofFormat::load_image(&bad_magic).err(), Some(MoofError::BadMagic));

    let mut bad_crc = good.clone();
    bad_crc[100] ^= 0xFF;
    assert_eq!(MoofFormat::load_image(&bad_crc).err(), Some(MoofError::CrcMismatch));

    let v2 = moof_image(info_body(2, 1), Some(tmap_two_tracks()));
    assert_eq!(MoofFormat::load_image(&v2).err(), Some(MoofError::UnsupportedInfoVersion));

    let unknown = moof_image(info_body(1, 9), Some(tmap_two_tracks()));
    assert_eq!(MoofFormat::load_image(&unknown).err(), Some(MoofError::UnsupportedDiskType));

    let no_map = moof_image(info_body(1, 1), None);
    assert_eq!(MoofFormat::load_image(&no_map).err(), Some(MoofError::MissingTrackMap));

    let mut bad_index = tmap_two_tracks();
    bad_index[4] = 200;
    let bad = moof_image(info_body(1, 1), Some(bad_index));
    assert_eq!(MoofFormat::load_image(&bad).err(), Some(MoofError::InvalidTrackIndex));

    assert_eq!(MoofFormat::load_image(&[]).err(), Some(MoofError::MissingInfo));
}

#[test]
fn moof_flux_ticks() {
    assert_eq!(decode_as_flux_ticks(&[16, 255, 255, 10, 0, 32]), vec![16, 520, 32]);
    assert_eq!(decode_as_flux_ticks(&[255]), Vec::<u64>::new());
    assert_eq!(decode_as_flux_ticks(&[]), Vec::<u64>::new());
}
