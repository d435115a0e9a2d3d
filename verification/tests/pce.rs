use fluxfox::file_parsers::pce::pfi::{PfiChunkType, PfiFormat};
use fluxfox::file_parsers::pce::pri::{pri_crc, pri_weak_bounds, PriChunkFooter, PriChunkType, PriFormat};
use fluxfox::file_parsers::pce::psi::{decode_psi_sector_format, psi_crc, PsiChunkType, PsiFormat, SectorContext};
use fluxfox::file_parsers::pce::{pce_crc, read_pce_chunk, write_pce_chunk, PceError};
use fluxfox::file_parsers::{FormatCaps, ParserWriteCompatibility, CAP_COMMENT, CAP_HOLES};
use fluxfox::types::{DiskDataResolution, TrackDataEncoding, TrackDensity};

fn reference_crc(buf: &[u8]) -> u32 {
    let mut crc: u32 = 0;
    for &b in buf {
        crc ^= (b as u32) << 24;
        for _ in 0..8 {
            crc = if crc & 0x8000_0000 != 0 { (crc << 1) ^ 0x1edc_6f41 } else { crc << 1 };
        }
    }
    crc
}

fn chunk(id: &[u8; 4], data: &[u8]) -> Vec<u8> {
    let mut v = Vec::new();
    write_pce_chunk(&mut v, *id, data);
    v
}

#[test]
fn pce_crc_of_end_chunk_header() {
    // The CRC that closes an END chunk, which the PRI footer carries.
    assert_eq!(pri_crc(b"END \0\0\0\0"), 0x3d64af78);
    assert_eq!(PriChunkFooter::default().footer, 0x3d64af78);
    assert_eq!(PriChunkFooter::default().id, *b"END ");
}

#[test]
fn pce_crc_matches_reference() {
    for data in [&b""[..], b"a", b"123456789", b"PSI \0\0\0\x04\0\0\0\0"] {
        assert_eq!(pce_crc(data), reference_crc(data));
        assert_eq!(psi_crc(data), reference_crc(data));
    }
}

#[test]
fn pce_chunk_layout() {
    let c = chunk(b"TEXT", b"hi");
    assert_eq!(&c[0..4], b"TEXT");
    assert_eq!(&c[4..8], &[0, 0, 0, 2]);
    assert_eq!(&c[8..10], b"hi");
    assert_eq!(u32::from_be_bytes([c[10], c[11], c[12], c[13]]), reference_crc(&c[..10]));
    let raw = read_pce_chunk(&c, 0, 0x100000).unwrap();
    assert_eq!(&raw.id, b"TEXT");
    assert_eq!(raw.data, b"hi".to_vec());
    assert_eq!(raw.next, 14);
}

#[test]
fn pce_chunk_errors() {
    let mut c = chunk(b"DATA", &[1, 2, 3]);
    assert!(matches!(read_pce_chunk(&c[..7], 0, 0x100000), Err(PceError::Io)));
    assert!(matches!(read_pce_chunk(&c[..c.len() - 1], 0, 0x100000), Err(PceError::Io)));
    assert!(matches!(read_pce_chunk(&c, 0, 2), Err(PceError::FormatParseError)));
    c[9] ^= 1;
    assert!(matches!(read_pce_chunk(&c, 0, 0x100000), Err(PceError::CrcError)));
}

#[test]
fn pri_chunks_round_trip() {
    let types = [
        PriChunkType::FileHeader,
        PriChunkType::Text,
        PriChunkType::TrackHeader,
        PriChunkType::TrackData,
        PriChunkType::WeakMask,
        PriChunkType::AlternateBitClock,
        PriChunkType::End,
        PriChunkType::Unknown,
    ];
    let mut out = vec![0xAA, 0xBB];
    for (i, t) in types.iter().enumerate() {
        PriFormat::write_chunk_raw(&mut out, *t, &vec![i as u8; i]);
    }
    PriFormat::write_text(&mut out, "a comment");
    let mut pos = 2;
    for (i, t) in types.iter().enumerate() {
        let (c, next) = PriFormat::read_chunk(&out, pos).unwrap();
        assert_eq!(c.chunk_type, *t);
        assert_eq!(c.size as usize, i);
        assert_eq!(c.data, vec![i as u8; i]);
        pos = next;
    }
    let (c, next) = PriFormat::read_chunk(&out, pos).unwrap();
    assert_eq!(c.chunk_type, PriChunkType::Text);
    assert_eq!(c.data, b"a comment".to_vec());
    assert_eq!(next, out.len());
}

#[test]
fn pri_weak_bounds_values() {
    assert_eq!(pri_weak_bounds(&[0, 0, 3, 0, 5, 0]), (2, 4));
    assert_eq!(pri_weak_bounds(&[0, 0, 0]), (0, 0));
    assert_eq!(pri_weak_bounds(&[]), (0, 0));
    assert_eq!(pri_weak_bounds(&[9]), (0, 0));
    assert_eq!(pri_weak_bounds(&[0, 1]), (1, 1));
}

#[test]
fn pri_can_write() {
    assert_eq!(PriFormat::can_write(None), ParserWriteCompatibility::Compatible);
    let bs = [DiskDataResolution::BitStream];
    assert_eq!(PriFormat::can_write(Some((&bs, FormatCaps::from_bits(CAP_COMMENT)))), ParserWriteCompatibility::Compatible);
    assert_eq!(PriFormat::can_write(Some((&bs, FormatCaps::from_bits(CAP_HOLES)))), ParserWriteCompatibility::DataLoss);
    let ms = [DiskDataResolution::MetaSector];
    assert_eq!(PriFormat::can_write(Some((&ms, FormatCaps::empty()))), ParserWriteCompatibility::Incompatible);
    let both = [DiskDataResolution::MetaSector, DiskDataResolution::BitStream];
    assert_eq!(PriFormat::can_write(Some((&both, FormatCaps::empty()))), ParserWriteCompatibility::Incompatible);
}

#[test]
fn pri_detect() {
    assert!(PriFormat::detect(&chunk(b"PRI ", &[0, 0, 0, 0])));
    assert!(!PriFormat::detect(&chunk(b"PSI ", &[0, 0, 0, 0])));
    assert!(!PriFormat::detect(b"PRI "));
}

#[test]
fn psi_sector_formats() {
    assert_eq!(decode_psi_sector_format([0, 0]), Some((TrackDataEncoding::Fm, TrackDensity::Standard)));
    assert_eq!(decode_psi_sector_format([2, 1]), Some((TrackDataEncoding::Fm, TrackDensity::High)));
    assert_eq!(decode_psi_sector_format([2, 2]), Some((TrackDataEncoding::Mfm, TrackDensity::Extended)));
    assert_eq!(decode_psi_sector_format([3, 0]), Some((TrackDataEncoding::Gcr, TrackDensity::Double)));
    assert_eq!(decode_psi_sector_format([3, 1]), None);
}

#[test]
fn psi_sector_context() {
    let mut ctx = SectorContext::default();
    assert!(!ctx.have_context());
    ctx.phys_size = 512;
    ctx.deleted = true;
    ctx.reset();
    assert_eq!(ctx, SectorContext::default());
}

fn psi_image() -> Vec<u8> {
    let mut v = Vec::new();
    v.extend(chunk(b"PSI ", &[0, 0, 0x01, 0x00]));
    v.extend(chunk(b"TEXT", b"made by hand"));
    v.extend(chunk(b"SECT", &[0, 0, 0, 1, 0, 4, 0, 0]));
    v.extend(chunk(b"DATA", &[1, 2, 3, 4]));
    v.extend(chunk(b"SECT", &[0, 0, 1, 1, 0, 3, 0b0101, 0xE5]));
    v.extend(chunk(b"SECT", &[0, 1, 0, 2, 0, 2, 0b0010, 0]));
    v.extend(chunk(b"IBMM", &[1, 0, 9, 2, 0b0101, 0]));
    v.extend(chunk(b"OFFS", &[0, 0, 1, 0]));
    v.extend(chunk(b"DATA", &[7, 8]));
    v.extend(chunk(b"END ", &[]));
    v
}

#[test]
fn psi_load_image() {
    let img = PsiFormat::load_image(&psi_image()).unwrap();
    assert_eq!(img.encoding, TrackDataEncoding::Fm);
    assert_eq!(img.density, TrackDensity::Double);
    let tracks: Vec<(u16, u8)> = img.tracks.iter().map(|t| (t.c, t.h)).collect();
    assert_eq!(tracks, vec![(0, 0), (0, 1), (1, 0)]);
    assert_eq!(img.heads, vec![0, 1]);
    assert_eq!(img.sectors.len(), 3);

    let s0 = &img.sectors[0];
    assert_eq!((s0.track, s0.phys_chs.c, s0.phys_chs.h, s0.phys_chs.s, s0.phys_size), (0, 0, 0, 1, 4));
    assert_eq!(s0.data, vec![1, 2, 3, 4]);
    assert!(s0.ibm_chsn.is_none() && s0.address_crc_valid && s0.data_crc_valid && !s0.alternate);

    let s1 = &img.sectors[1];
    assert_eq!((s1.track, s1.phys_chs.h), (1, 1));
    assert_eq!(s1.data, vec![0xE5, 0xE5, 0xE5]);
    assert!(!s1.data_crc_valid && s1.address_crc_valid);

    let s2 = &img.sectors[2];
    assert_eq!(s2.track, 2);
    let id = s2.ibm_chsn.unwrap();
    assert_eq!((id.c, id.h, id.s, id.n), (1, 0, 9, 2));
    assert_eq!(s2.data, vec![7, 8]);
    assert!(!s2.address_crc_valid && s2.data_crc_valid && s2.deleted_mark && !s2.no_dam && s2.alternate);
    assert_eq!(s2.bit_index, Some(256));

    let g = img.geometry();
    assert_eq!((g.c, g.h), (1, 2));
}

#[test]
fn psi_load_image_errors() {
    let mut not_psi = chunk(b"PRI ", &[0, 0, 0, 0]);
    not_psi.extend(chunk(b"END ", &[]));
    assert!(matches!(PsiFormat::load_image(&not_psi), Err(PceError::UnknownFormat)));

    let mut bad_format = chunk(b"PSI ", &[0, 0, 9, 9]);
    bad_format.extend(chunk(b"END ", &[]));
    assert!(matches!(PsiFormat::load_image(&bad_format), Err(PceError::FormatParseError)));

    let mut orphan = chunk(b"PSI ", &[0, 0, 0, 0]);
    orphan.extend(chunk(b"DATA", &[1]));
    orphan.extend(chunk(b"END ", &[]));
    assert!(matches!(PsiFormat::load_image(&orphan), Err(PceError::FormatParseError)));

    let image = psi_image();
    assert!(matches!(PsiFormat::load_image(&image[..image.len() - 12]), Err(PceError::Io)));
    assert!(PsiFormat::detect(&image));
    assert_eq!(PsiFormat::read_chunk(&image, 0).unwrap().0.chunk_type, PsiChunkType::FileHeader);
}

#[test]
fn pfi_track_data_decoding() {
    let data = [0x08, 0x0A, 0x01, 0x00, 0x0C, 0x04, 0x05, 0x02, 0x00, 0x00, 0x10, 0x20];
    let revs = PfiFormat::read_track_data(&data, &[10, 30, 50]).unwrap();
    assert_eq!(revs.len(), 2);
    assert_eq!(revs[0].transitions, vec![12]);
    assert_eq!(revs[0].index_time, 12);
    assert_eq!(revs[1].transitions, vec![5, 16]);
    assert_eq!(revs[1].index_time, 21);
}

#[test]
fn pfi_track_data_runs_to_end() {
    // With the data ending before the last index, the last revolution is closed at the end.
    let data = [0x09, 0x03, 0x00, 0x01, 0x00, 0x00, 0xFF];
    let revs = PfiFormat::read_track_data(&data, &[5, 1_000_000]).unwrap();
    assert_eq!(revs.len(), 1);
    assert_eq!(revs[0].transitions, vec![65536, 255]);
    assert_eq!(revs[0].index_time, 65536 + 255);
    // A single index position gives no revolution.
    assert_eq!(PfiFormat::read_track_data(&data, &[5]).unwrap().len(), 0);
}

#[test]
fn pfi_track_data_errors() {
    assert!(matches!(PfiFormat::read_track_data(&[0x08], &[]), Err(PceError::FormatParseError)));
    assert!(matches!(PfiFormat::read_track_data(&[0x08, 0x00], &[100]), Err(PceError::FormatParseError)));
    assert!(matches!(PfiFormat::read_track_data(&[0x08, 0x01, 0x00], &[100]), Err(PceError::Io)));
}

#[test]
fn pfi_chunks_and_index() {
    let mut image = chunk(b"PFI ", &[0, 1, 0, 0]);
    image.extend(chunk(b"INDX", &[0, 0, 0, 10, 0, 1, 0, 0]));
    assert!(PfiFormat::detect(&image));
    let (c, next) = PfiFormat::read_chunk(&image, 0).unwrap();
    assert_eq!(c.chunk_type, PfiChunkType::FileHeader);
    let (c, _) = PfiFormat::read_chunk(&image, next).unwrap();
    assert_eq!(c.chunk_type, PfiChunkType::Index);
    assert_eq!(PfiFormat::read_index(&c.data), vec![10, 65536]);
    assert_eq!(PfiFormat::can_write(), ParserWriteCompatibility::UnsupportedFormat);
}
