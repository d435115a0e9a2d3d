use fluxfox::file_parsers::imd::{imd_mode_to_rate, imd_sector_size_to_usize, ImdFormat, ImdTrack};
use fluxfox::file_parsers::td0::{td0_crc, Td0Error, Td0Format};
use fluxfox::types::{TrackDataEncoding, TrackDataRate};

fn reference_td0_crc(data: &[u8], start: u16) -> u16 {
    let mut crc = start;
    for &b in data {
        crc ^= (b as u16) << 8;
        for _ in 0..8 {
            crc = if crc & 0x8000 != 0 { (crc << 1) ^ 0xA097 } else { crc << 1 };
        }
    }
    crc
}

#[test]
fn td0_crc_matches_reference() {
    for data in [&b""[..], b"TD", b"123456789", &[0xFFu8; 40][..]] {
        assert_eq!(td0_crc(data, 0), reference_td0_crc(data, 0));
    }
    // Feeding data in two pieces gives the CRC of the whole.
    let whole = td0_crc(b"123456789", 0);
    assert_eq!(td0_crc(b"6789", td0_crc(b"12345", 0)), whole);
}

fn td0_header(id: &[u8; 2], stepping: u8) -> Vec<u8> {
    let mut h = vec![id[0], id[1], 0, 0, 21, 2, 1, stepping, 0, 2];
    let crc = td0_crc(&h, 0);
    h.extend_from_slice(&crc.to_le_bytes());
    h
}

#[test]
fn td0_image_header() {
    let info = Td0Format::read_image_header(&td0_header(b"TD", 0x80)).unwrap();
    assert!(!info.compressed);
    assert_eq!((info.major_version, info.minor_version), (2, 1));
    assert!(info.has_comment_block);
    assert_eq!(info.header.heads, 2);
    let info = Td0Format::read_image_header(&td0_header(b"td", 0)).unwrap();
    assert!(info.compressed);
    assert!(!info.has_comment_block);
    assert!(Td0Format::detect(&td0_header(b"td", 0)));
}

#[test]
fn td0_image_header_errors() {
    assert!(matches!(Td0Format::read_image_header(&td0_header(b"XD", 0)), Err(Td0Error::UnknownFormat)));
    assert!(matches!(Td0Format::read_image_header(&td0_header(b"TD", 0)[..11]), Err(Td0Error::UnknownFormat)));
    let mut bad = td0_header(b"TD", 0);
    bad[10] ^= 1;
    assert!(matches!(Td0Format::read_image_header(&bad), Err(Td0Error::ImageCorruptError)));
}

#[test]
fn td0_comment_block() {
    let text = b"ab\0cd\0";
    let mut block = vec![0, 0];
    block.extend_from_slice(&(text.len() as u16).to_le_bytes());
    block.extend_from_slice(&[124, 1, 2, 3, 4, 5]);
    block.extend_from_slice(text);
    let crc = td0_crc(&block[2..], 0);
    block[0..2].copy_from_slice(&crc.to_le_bytes());
    let mut data = vec![0xEE; 3];
    data.extend(block.clone());
    let (h, t, next) = Td0Format::read_comment_block(&data, 3).unwrap();
    assert_eq!(h.length, 6);
    assert_eq!(h.year, 124);
    assert_eq!(t, b"ab\ncd\n".to_vec());
    assert_eq!(next, data.len());
    let mut bad = data.clone();
    bad[14] = b'x';
    assert!(matches!(Td0Format::read_comment_block(&bad, 3), Err(Td0Error::ImageCorruptError)));
    assert!(matches!(Td0Format::read_comment_block(&data[..data.len() - 1], 3), Err(Td0Error::ReadError)));
}

#[test]
fn td0_repeated_data() {
    let mut out = vec![0u8; 4];
    let next = Td0Format::td0_decompress_repeated_data(&[2, 0, 0xAA, 0xBB, 0x77], 0, &mut out).unwrap();
    assert_eq!(out, vec![0xBB, 0xAA, 0xBB, 0xAA]);
    assert_eq!(next, 4);
    let mut out = vec![0u8; 4];
    assert!(matches!(
        Td0Format::td0_decompress_repeated_data(&[3, 0, 0xAA, 0xBB], 0, &mut out),
        Err(Td0Error::FormatParseError)
    ));
    let mut out = vec![0u8; 4];
    assert!(matches!(
        Td0Format::td0_decompress_repeated_data(&[1, 0, 0xAA, 0xBB, 1], 0, &mut out),
        Err(Td0Error::ReadError)
    ));
}

#[test]
fn td0_rle_data() {
    let mut out = vec![0u8; 7];
    let input = [0, 3, 1, 2, 3, 1, 2, 9, 8];
    let next = Td0Format::td0_decompress_rle_data(&input, 0, &mut out).unwrap();
    assert_eq!(out, vec![1, 2, 3, 9, 8, 9, 8]);
    assert_eq!(next, input.len());
    let mut out = vec![0u8; 4];
    assert!(matches!(Td0Format::td0_decompress_rle_data(&[0, 2, 1], 0, &mut out), Err(Td0Error::ReadError)));
}

#[test]
fn imd_header_parse() {
    let mut image = b"IMD 1.18: 12/03/2024 10:20:30\r\nA comment".to_vec();
    image.push(0x1A);
    image.extend_from_slice(&[0, 0, 0, 9, 2]);
    assert!(ImdFormat::detect(&image));
    let h = ImdFormat::parse_header(&image).unwrap();
    assert_eq!((h.v_major, h.v_minor), (1, 18));
    assert_eq!((h.day, h.month, h.year), (12, 3, 2024));
    assert_eq!((h.hour, h.minute, h.second), (10, 20, 30));
    assert_eq!(h.comment, b"\r\nA comment".to_vec());
    assert_eq!(ImdFormat::header_text_len(&image), 40);
    assert!(!ImdFormat::detect(b"IMD x.18: 12/03/2024 10:20:30\x1a"));
    assert!(ImdFormat::parse_header(b"no header here").is_none());
}

#[test]
fn imd_track_fields() {
    let t = ImdTrack::read(&[3, 5, 0xC1, 9, 2], 0).unwrap();
    assert_eq!(t.c(), 5);
    assert_eq!(t.sector_ct(), 9);
    assert!(t.has_cylinder_map());
    assert!(t.has_head_map());
    assert_eq!(t.sector_size(), Some(512));
    assert!(ImdTrack::read(&[3, 5, 0], 0).is_none());
    assert_eq!(imd_sector_size_to_usize(6), Some(8192));
    assert_eq!(imd_sector_size_to_usize(7), None);
    assert_eq!(imd_mode_to_rate(3), Some((TrackDataRate::Rate500Kbps, TrackDataEncoding::Mfm)));
    assert_eq!(imd_mode_to_rate(6), None);
}

#[test]
fn imd_sector_data() {
    let data = [0xAB, 0xCD];
    let (sd, next) = ImdFormat::read_data(0x02, 4, &data, 0).unwrap();
    assert_eq!(sd.data, vec![0xAB; 4]);
    assert_eq!(next, 1);
    let (sd, next) = ImdFormat::read_data(0x01, 2, &data, 0).unwrap();
    assert_eq!(sd.data, vec![0xAB, 0xCD]);
    assert!(!sd.deleted && !sd.error);
    assert_eq!(next, 2);
}

fn td0_track(sectors: u8, c: u8, h: u8) -> Vec<u8> {
    let mut t = vec![sectors, c, h];
    let crc = td0_crc(&t, 0);
    t.push(crc as u8);
    t
}

fn td0_sector(c: u8, h: u8, id: u8, flags: u8, data: &[u8], encoded: &[u8], encoding: u8) -> Vec<u8> {
    let crc = td0_crc(data, 0) as u8;
    let mut s = vec![c, h, id, 0, flags, crc];
    if flags & 0x30 == 0 {
        let len = (encoded.len() + 1) as u16;
        s.extend_from_slice(&len.to_le_bytes());
        s.push(encoding);
        s.extend_from_slice(encoded);
    }
    s
}

fn td0_image() -> Vec<u8> {
    let mut image = td0_header(b"TD", 0);
    image.extend(td0_track(2, 0, 0));
    let raw: Vec<u8> = (0..128u32).map(|i| i as u8).collect();
    image.extend(td0_sector(0, 0, 1, 0x02, &raw, &raw, 0));
    image.extend(td0_sector(0, 0, 2, 0x10, &[], &[], 0));
    image.extend(td0_track(1, 1, 1));
    let pattern: Vec<u8> = [0x55u8, 0xAA].repeat(64);
    image.extend(td0_sector(1, 1, 1, 0, &pattern, &[64, 0, 0xAA, 0x55], 1));
    image.extend(td0_track(1, 0, 1));
    image.extend(td0_sector(0, 1, 1, 0, &[7u8; 128], &[1, 64, 7, 7], 2));
    image.push(0xFF);
    image
}

#[test]
fn td0_load_image() {
    let image = td0_image();
    let disk = Td0Format::load_image(&image).unwrap();
    assert_eq!(disk.tracks.len(), 3);
    // Cylinders 0 and 1 are named; the header gives two heads and a 500 Kbps rate.
    assert_eq!(disk.cylinders, 2);
    assert_eq!(disk.heads, 2);
    assert_eq!(disk.encoding, TrackDataEncoding::Mfm);
    assert_eq!(disk.data_rate, TrackDataRate::Rate500Kbps);
    assert!(disk.comment.is_none());
    // The skipped sector carries no data and is left out.
    assert_eq!(disk.tracks[0].sectors.len(), 1);
    assert_eq!(disk.tracks[0].sectors[0].data, (0..128u32).map(|i| i as u8).collect::<Vec<u8>>());
    assert_eq!(disk.tracks[0].sectors[0].header.flags, 0x02);
    assert_eq!(disk.tracks[1].header.cylinder, 1);
    assert_eq!(disk.tracks[1].sectors[0].data, [0x55u8, 0xAA].repeat(64));
    assert_eq!(disk.tracks[2].sectors[0].data, vec![7u8; 128]);
}

#[test]
fn td0_load_image_errors() {
    let image = td0_image();
    // A wrong track header CRC.
    let mut bad = image.clone();
    bad[15] ^= 0xFF;
    assert!(matches!(Td0Format::load_image(&bad), Err(Td0Error::ImageCorruptError)));
    // A wrong sector data CRC.
    let mut bad = image.clone();
    bad[16 + 9 + 5] ^= 0xFF;
    assert!(matches!(Td0Format::load_image(&bad), Err(Td0Error::ImageCorruptError)));
    // An unknown sector data encoding.
    let mut bad = image.clone();
    bad[16 + 8] = 3;
    assert!(matches!(Td0Format::load_image(&bad), Err(Td0Error::FormatParseError)));
    // Data that ends inside a sector.
    assert!(matches!(Td0Format::load_image(&image[..40]), Err(Td0Error::ReadError)));
    // Data that ends between tracks reads the tracks so far.
    let cut = Td0Format::load_image(&image[..image.len() - 1]).unwrap();
    assert_eq!(cut.tracks.len(), 3);
    // A compressed image.
    assert!(matches!(Td0Format::load_image(&td0_header(b"td", 0)), Err(Td0Error::Compressed)));
}

#[test]
fn td0_repeated_odd_length() {
    let mut out = vec![0u8; 3];
    assert!(matches!(
        Td0Format::td0_decompress_repeated_data(&[2, 0, 1, 2], 0, &mut out),
        Err(Td0Error::FormatParseError)
    ));
}
