use fluxfox::file_parsers::ipf::chunk::{IpfChunk, IpfChunkType, MAXIMUM_CHUNK_SIZE};
use fluxfox::file_parsers::ipf::crc::{ipf_crc_u32r, IpfCrcHasher};
use fluxfox::file_parsers::ipf::image_record::{ImageRecord, IpfTrackDensity};
use fluxfox::file_parsers::ipf::info_record::{EncoderType, InfoRecord, IpfPlatform, MediaType};
use fluxfox::file_parsers::ipf::ipf::{IpfError, IpfParser};
use fluxfox::file_parsers::ipf::source_map::{Representation, SourceData, SourceMapNode};
use fluxfox::types::Platform;

fn make_chunk(id: &[u8; 4], data: &[u8]) -> Vec<u8> {
    let size = (data.len() + 12) as u32;
    let crc = IpfChunk::calculate_crc(id, size, data);
    let mut v = Vec::new();
    v.extend_from_slice(id);
    v.extend_from_slice(&size.to_be_bytes());
    v.extend_from_slice(&crc.to_be_bytes());
    v.extend_from_slice(data);
    v
}

#[test]
fn ipf_crc_check_value() {
    // The standard check value of the reflected CRC-32.
    assert_eq!(ipf_crc_u32r(b"123456789", None), 0xCBF4_3926);
    assert_eq!(ipf_crc_u32r(b"", None), 0);
}

#[test]
fn ipf_crc_hasher_pieces_match_whole() {
    let data = b"The quick brown fox jumps over the lazy dog";
    let mut h = IpfCrcHasher::new();
    h.update(&data[..10]);
    h.update(&data[10..]);
    assert_eq!(h.finalize(), ipf_crc_u32r(data, None));
    assert_eq!(h.finalize(), 0x414F_A339);
    let mut d = IpfCrcHasher::default();
    d.update(data);
    assert_eq!(d.finalize(), h.finalize());
}

#[test]
fn ipf_crc_with_start_register() {
    let mut h = IpfCrcHasher::new();
    h.update(b"1234");
    // Continuing from the register after "1234" (the inverted CRC) gives the CRC of the whole.
    let reg = !h.finalize();
    assert_eq!(ipf_crc_u32r(b"56789", Some(reg)), 0xCBF4_3926);
}

#[test]
fn ipf_chunk_type_ids_round_trip() {
    for t in [
        IpfChunkType::Caps,
        IpfChunkType::Dump,
        IpfChunkType::Data,
        IpfChunkType::Track,
        IpfChunkType::Info,
        IpfChunkType::Image,
        IpfChunkType::Ctei,
        IpfChunkType::Ctex,
    ] {
        assert_eq!(IpfChunkType::from_id(&t.id()), Some(t));
    }
    assert_eq!(IpfChunkType::from_id(b"CAPS"), Some(IpfChunkType::Caps));
    assert_eq!(IpfChunkType::from_id(b"XXXX"), None);
}

#[test]
fn ipf_read_good_chunk() {
    let mut image = make_chunk(b"CAPS", &[]);
    image.extend(make_chunk(b"INFO", &[1, 2, 3, 4]));
    let (c0, next) = IpfParser::read_chunk(&image, 0).unwrap();
    assert_eq!(c0.chunk_type, Some(IpfChunkType::Caps));
    assert_eq!(c0.size, 12);
    assert_eq!(next, 12);
    assert!(c0.is_crc_valid());
    let (c1, next) = IpfParser::read_chunk(&image, next).unwrap();
    assert_eq!(c1.chunk_type, Some(IpfChunkType::Info));
    assert_eq!(c1.data, vec![1, 2, 3, 4]);
    assert_eq!(next, image.len());
}

#[test]
fn ipf_read_chunk_errors() {
    let mut bad = make_chunk(b"CAPS", &[9, 9]);
    bad[11] ^= 0xFF;
    assert!(matches!(IpfParser::read_chunk(&bad, 0), Err(IpfError::CrcMismatch)));

    let short = make_chunk(b"DATA", &[1, 2, 3, 4, 5]);
    assert!(matches!(IpfParser::read_chunk(&short[..short.len() - 1], 0), Err(IpfError::ReadError)));
    assert!(matches!(IpfParser::read_chunk(&short, short.len()), Err(IpfError::ReadError)));

    let big = make_chunk(b"DATA", &vec![0u8; MAXIMUM_CHUNK_SIZE]);
    assert!(matches!(IpfParser::read_chunk(&big, 0), Err(IpfError::ChunkTooLarge)));
}

#[test]
fn ipf_read_args_limits_data() {
    let image = make_chunk(b"TRCK", &[5, 6, 7, 8]);
    let (c, next) = IpfChunk::read_args(&image, 0, Some(2)).unwrap();
    assert_eq!(c.data, vec![5, 6]);
    assert_eq!(next, 14);
    assert!(!c.is_crc_valid());
    assert!(IpfChunk::read_args(&image[..11], 0, None).is_none());
}

#[test]
fn ipf_detect() {
    let image = make_chunk(b"CAPS", &[]);
    assert!(IpfParser::detect(&image));
    assert!(!IpfParser::detect(&make_chunk(b"INFO", &[])));
    assert!(!IpfParser::detect(b"CAPS"));
    assert_eq!(IpfParser::platforms(), vec![Platform::Amiga]);
    assert_eq!(IpfParser::extensions(), vec!["ipf"]);
}

fn words(ws: &[u32]) -> Vec<u8> {
    ws.iter().flat_map(|w| w.to_be_bytes()).collect()
}

#[test]
fn ipf_info_record() {
    let mut data = words(&[1, 2, 5, 0x1234, 1, 0xDEADBEEF, 0, 83, 0, 1, 0x20240101, 0x120000, 1, 2, 0, 7, 1, 0x55]);
    data.extend_from_slice(&[0u8; 12]);
    let rec = InfoRecord::read(&data).unwrap();
    assert_eq!(rec.media_type_enum, Some(MediaType::FloppyDisk));
    assert_eq!(rec.encoder_type_enum, Some(EncoderType::V2));
    assert_eq!(rec.max_track, 83);
    assert_eq!(rec.origin, 0xDEADBEEF);
    assert_eq!(
        rec.platform_enums,
        vec![IpfPlatform::Amiga, IpfPlatform::AtariSt, IpfPlatform::Empty, IpfPlatform::Archimedes]
    );
    assert_eq!(rec.platforms(), vec![Platform::Amiga, Platform::AtariSt]);
    assert_eq!(rec.creator_id, 0x55);
    assert!(matches!(InfoRecord::read(&data[..83]), Err(IpfError::RecordTooShort)));
}

#[test]
fn ipf_info_record_unknown_codes() {
    let mut data = words(&[7, 9, 0, 0, 0, 0, 0, 0, 0, 0, 0, 0, 42, 3, 99, 0, 0, 0]);
    data.extend_from_slice(&[0u8; 12]);
    let rec = InfoRecord::read(&data).unwrap();
    assert_eq!(rec.media_type_enum, None);
    assert_eq!(rec.encoder_type_enum, None);
    assert_eq!(rec.platform_enums, vec![IpfPlatform::Pc, IpfPlatform::Empty]);
    assert_eq!(rec.platforms(), vec![Platform::IbmPc]);
}

#[test]
fn ipf_platform_conversions() {
    assert_eq!(IpfPlatform::from_u32(9), Some(IpfPlatform::Atari8Bit));
    assert_eq!(IpfPlatform::from_u32(10), None);
    assert_eq!(IpfPlatform::Empty.to_optional_platform(), Ok(None));
    assert_eq!(IpfPlatform::Pc.to_optional_platform(), Ok(Some(Platform::IbmPc)));
    assert_eq!(IpfPlatform::C64.to_optional_platform(), Err(()));
    assert_eq!(IpfPlatform::Empty.to_platform(), Err(()));
    assert_eq!(IpfPlatform::AtariSt.to_platform(), Ok(Platform::AtariSt));
    assert_eq!(IpfPlatform::Empty.name(), "None");
    assert_eq!(IpfPlatform::AmstradCpc.name(), "AmstradCpc");
}

#[test]
fn ipf_image_record() {
    let data = words(&[40, 1, 3, 1, 6250, 0, 10, 100000, 2000, 102000, 11, 0, 1, 40, 0, 0, 0]);
    let rec = ImageRecord::read(&data).unwrap();
    assert_eq!(rec.key(), 40);
    let ch = rec.ch();
    assert_eq!((ch.c, ch.h), (40, 1));
    assert_eq!(rec.density_enum, IpfTrackDensity::CopylockAmiga);
    assert_eq!(rec.block_count, 11);
    assert!(matches!(ImageRecord::read(&data[..67]), Err(IpfError::RecordTooShort)));
    assert_eq!(IpfTrackDensity::from(0u32), IpfTrackDensity::Unknown);
    assert_eq!(IpfTrackDensity::from(99u32), IpfTrackDensity::Unknown);
    assert_eq!(IpfTrackDensity::from(9u32), IpfTrackDensity::AdamBrierleyDensityKeyAmiga);
}

#[test]
fn ipf_source_map_values() {
    assert_eq!(Representation::Decimal.format(255), "255");
    assert_eq!(Representation::Hexadecimal.format(255), "0xFF");
    assert_eq!(Representation::Binary.format(5), "0b101");
    assert_eq!(Representation::Decimal.format(0), "0");
    assert_eq!(SourceData::U16(4096, Representation::Hexadecimal).to_string(), "0x1000");
    assert_eq!(SourceData::U8(7, Representation::Binary).to_string(), "0b111");
    assert_eq!(SourceData::String("abc".to_string()).to_string(), "abc");

    let mut root = SourceMapNode::new("Info Record", None, true);
    root.add_child(SourceMapNode::new("mediaType", Some(SourceData::U32(1, Representation::Decimal)), true));
    root.add_child(SourceMapNode::new("fileKey", Some(SourceData::U32(0x10, Representation::Hexadecimal)), false));
    assert_eq!(root.children.len(), 2);
    assert_eq!(root.children[1].name, "fileKey");
    assert!(!root.children[1].valid);
    assert_eq!(root.children[1].data.as_ref().unwrap().to_string(), "0x10");
}
