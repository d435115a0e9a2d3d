use fluxfox::file_parsers::f86::{f86_weak_to_holes, f86_weak_to_weak, F86Format};
use fluxfox::file_parsers::kryoflux::{kfx_transition_ct_to_bitrate, read_osb_block, KfxFormat, OsbBlock, StreamInfoBlock};
use fluxfox::file_parsers::mfi::{MfiError, MfiFileHeader, MfiFormat, MfiTrackHeader};
use fluxfox::file_parsers::moof::{MoofChunk, MoofDiskType, MoofFormat};
use fluxfox::file_parsers::{supported_extensions, ParserReadOptions};
use fluxfox::types::{TrackDataEncoding, TrackDataRate, TrackDensity};
use std::io::Write;

fn zlib(data: &[u8]) -> Vec<u8> {
    let mut enc = flate2::write::ZlibEncoder::new(Vec::new(), flate2::Compression::default());
    enc.write_all(data).unwrap();
    enc.finish().unwrap()
}

#[test]
fn mfi_track_data_inflates() {
    let plain: Vec<u8> = (0..200u32).map(|i| (i % 7) as u8).collect();
    let packed = zlib(&plain);
    let mut image = vec![0u8; 48];
    image.extend_from_slice(&packed);
    let entry = MfiTrackHeader {
        offset: 48,
        compressed_size: packed.len() as u32,
        uncompressed_size: plain.len() as u32,
        write_splice: 0,
    };
    assert_eq!(MfiFormat::read_track_data(&image, &entry).unwrap(), plain);
    let short = MfiTrackHeader { compressed_size: packed.len() as u32 + 1, ..entry };
    assert!(matches!(MfiFormat::read_track_data(&image, &short), Err(MfiError::ReadError)));
    let mut broken = image.clone();
    broken[48] ^= 0xFF;
    assert!(matches!(MfiFormat::read_track_data(&broken, &entry), Err(MfiError::ImageCorruptError)));
}

#[test]
fn mfi_header_and_detect() {
    let mut image = b"MAMEFLOPPYIMAGE\0".to_vec();
    for v in [84u32, 2, 0x2020_3525, 0x4444_4444] {
        image.extend_from_slice(&v.to_le_bytes());
    }
    let h = MfiFileHeader::read(&image).unwrap();
    assert_eq!((h.cylinders, h.heads), (84, 2));
    assert!(MfiFormat::detect(&image));
    image[1] = b'E';
    image[2] = b'S';
    image[3] = b'S';
    assert!(MfiFormat::detect(&image));
    image[0] = b'X';
    assert!(!MfiFormat::detect(&image));
    assert!(!MfiFormat::detect(&image[..20]));
}

#[test]
fn f86_weak_bits() {
    let mut bits = vec![0b1010_0000, 0b0000_1111, 0xFF];
    f86_weak_to_weak(&mut bits, &[0b0000_0101, 0b1111_0000]);
    assert_eq!(bits, vec![0b1010_0101, 0xFF, 0xFF]);
    let mut bits = vec![0xFF, 0xFF];
    f86_weak_to_holes(&mut bits, &[0x0F, 0xF0, 0x55]);
    assert_eq!(bits, vec![0xF0, 0x0F]);
    let mut image = b"86BF".to_vec();
    image.extend_from_slice(&[0x0C, 0x02, 0, 0]);
    assert!(F86Format::detect(&image));
    assert!(!F86Format::detect(b"86BX\0\0\0\0"));
}

#[test]
fn kryoflux_blocks() {
    assert!(KfxFormat::detect(&[0x0D, 0x01]));
    assert!(!KfxFormat::detect(&[0x00]));
    assert!(!KfxFormat::detect(&[]));
    assert_eq!(read_osb_block(&[0x0D, 0x02], 1), OsbBlock::Index);
    assert_eq!(read_osb_block(&[0x0D, 0x07], 1), OsbBlock::Invalid(7));
    assert_eq!(read_osb_block(&[0x0D], 1), OsbBlock::Invalid(0));
    let mut blk = vec![0u8, 0];
    blk.extend_from_slice(&8u16.to_le_bytes());
    blk.extend_from_slice(&1234u32.to_le_bytes());
    blk.extend_from_slice(&77u32.to_le_bytes());
    let sib = StreamInfoBlock::read(&blk, 2).unwrap();
    assert_eq!((sib.size, sib.stream_pos, sib.transfer_time_ms), (8, 1234, 77));
    assert!(StreamInfoBlock::read(&blk, 3).is_none());
    assert_eq!(kfx_transition_ct_to_bitrate(50000), Some(TrackDataRate::Rate250Kbps));
    assert_eq!(kfx_transition_ct_to_bitrate(100000), Some(TrackDataRate::Rate500Kbps));
    assert_eq!(kfx_transition_ct_to_bitrate(65000), None);
}

#[test]
fn moof_disk_types_and_chunks() {
    assert_eq!(MoofDiskType::from_code(1), MoofDiskType::SsDdGcr400K);
    assert_eq!(MoofDiskType::SsDdGcr400K.heads(), 1);
    assert_eq!(MoofDiskType::DsHdMfm144M.heads(), 2);
    assert_eq!(MoofDiskType::DsHdMfm144M.encoding(), Some(TrackDataEncoding::Mfm));
    assert_eq!(MoofDiskType::SsDdGcr400K.density(), Some(TrackDensity::Standard));
    assert_eq!(MoofDiskType::from_code(9), MoofDiskType::Unknown);
    let mut image = b"MOOF\xFF\n\r\n".to_vec();
    image.extend_from_slice(&[0u8; 4]);
    assert!(MoofFormat::detect(&image));
    let mut meta = b"META".to_vec();
    meta.extend_from_slice(&6u32.to_le_bytes());
    meta.extend_from_slice(b" k\tv \n");
    match MoofFormat::read_chunk(&meta, 0).unwrap() {
        Some((MoofChunk::Meta(text), next)) => {
            assert_eq!(next, meta.len());
            assert!(!text.is_empty());
        }
        _ => panic!("expected a META chunk"),
    }
    assert!(MoofFormat::read_chunk(&meta, meta.len()).unwrap().is_none());
    assert!(MoofFormat::read_chunk(&meta, meta.len() - 3).is_err());
}

#[test]
fn supported_extensions_sorted_and_distinct() {
    let exts = supported_extensions();
    let mut expected = vec![
        "img", "ima", "dsk", "bin", "adf", "imd", "td0", "psi", "pri", "mfm", "hfe", "86f", "tc", "scp", "pfi", "raw",
        "mfi", "ipf", "moof",
    ];
    expected.sort();
    expected.dedup();
    assert_eq!(exts, expected);
    assert_eq!(exts[0], "86f");
    let _ = ParserReadOptions::default();
}
