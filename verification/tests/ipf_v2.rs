use fluxfox::file_parsers::ipf::chunk::IpfChunk;
use fluxfox::file_parsers::ipf::data_block::{BlockDescriptor, BlockFlags, BLOCK_DATA_IN_BITS, BLOCK_FORWARD_GAP};
use fluxfox::file_parsers::ipf::data_record::DataRecord;
use fluxfox::file_parsers::ipf::image_record::ImageRecord;
use fluxfox::file_parsers::ipf::info_record::InfoRecord;
use fluxfox::file_parsers::ipf::ipf::{GapFillDirection, IpfError, IpfParser};
use fluxfox::file_parsers::ipf::stream_element::{
    calculate_sample_size, DataHead, DataSample, DataStreamElement, DataType, GapHead, GapSample,
    GapStreamElement, GapType,
};
use fluxfox::file_parsers::ipf::v2_track::{DataRecordInfo, IpfTrackWrite};

fn words(ws: &[u32]) -> Vec<u8> {
    ws.iter().flat_map(|w| w.to_be_bytes()).collect()
}

fn make_chunk(id: &[u8; 4], data: &[u8]) -> Vec<u8> {
    let size = (data.len() + 12) as u32;
    let crc = IpfChunk::calculate_crc(id, size, data);
    let mut v = Vec::new();
    v.extend_from_slice(id);
    v.extend_from_slice(&size.to_be_bytes());
    v.extend_from_slice(&crc.to_be_bytes());
    v.extend_from_slice(data);
    v
}

fn v2_block(gap_bits: u32, gap_offset: u32, flags: u32, data_offset: u32) -> BlockDescriptor {
    BlockDescriptor {
        data_bits: 0,
        gap_bits,
        data_bytes: None,
        gap_bytes: None,
        gap_offset: Some(gap_offset),
        cell_type: Some(1),
        blk_encoder_type: 0,
        block_flags: Some(BlockFlags { bits: flags }),
        gap_default: 0,
        data_offset,
        saved_encoder_type: 2,
    }
}

// A sync element of two bytes, a data element of two bytes, and the null element.
const ELEMENTS: [u8; 9] = [0x21, 0x02, 0x44, 0x89, 0x22, 0x02, 0x01, 0x02, 0x00];

fn image_record(track: u32, side: u32, start_bit_pos: u32, block_count: u32, key: u32) -> ImageRecord {
    let mut ws = vec![0u32; 17];
    ws[0] = track;
    ws[1] = side;
    ws[6] = start_bit_pos;
    ws[9] = 100_000;
    ws[10] = block_count;
    ws[13] = key;
    ImageRecord::read(&words(&ws)).unwrap()
}

fn info_bytes(encoder: u32) -> Vec<u8> {
    let mut ws = vec![0u32; 21];
    ws[0] = 1;
    ws[1] = encoder;
    ws[7] = 79;
    ws[9] = 1;
    words(&ws)
}

#[test]
fn ipf_stream_heads() {
    let h = DataHead::from_byte(0x22);
    assert_eq!(h, DataHead { data_type: DataType::Data, data_size_width: 1 });
    assert!(DataHead::from_byte(0x00).is_null());
    assert!(!DataHead::from_byte(0x20).is_null());
    assert_eq!(DataHead::from_byte(0xE5), DataHead { data_type: DataType::Fuzzy, data_size_width: 7 });
    assert_eq!(GapHead::from_byte(0x41), GapHead { gap_type: GapType::GapLength, data_size_width: 2 });
    assert!(GapHead::from_byte(0x1C).is_null());
    assert_eq!(calculate_sample_size(&[0x01, 0x02, 0x03], 0, 3), 0x010203);
    assert_eq!(calculate_sample_size(&[0x01, 0x02, 0x03], 1, 0), 0);
}

#[test]
fn ipf_data_element_reading() {
    let (e, next) = DataStreamElement::read_args(&[0x22, 0x03, 0xAA, 0xBB, 0xCC], 0, false).unwrap();
    assert_eq!(next, 5);
    assert_eq!(e.data_head.data_type, DataType::Data);
    assert_eq!(e.sample_size_decoded, 3);
    assert!(matches!(e.data_sample, Some(DataSample::Bytes(ref b)) if b == &vec![0xAA, 0xBB, 0xCC]));

    let (e, next) = DataStreamElement::read_args(&[0x22, 0x0C, 0xAB, 0xC0], 0, true).unwrap();
    assert_eq!(next, 4);
    assert!(matches!(e.data_sample, Some(DataSample::Bits(ref b)) if b == &vec![0xAB, 0xC0]));

    let (e, next) = DataStreamElement::read_args(&[0x25, 0x10], 0, false).unwrap();
    assert_eq!(next, 2);
    assert!(e.data_sample.is_none());

    assert!(DataStreamElement::read_args(&[0x22, 0x03, 0xAA], 0, false).is_none());
    assert!(DataStreamElement::read_args(&[0x40], 0, false).is_none());
}

#[test]
fn ipf_gap_element_reading() {
    let (e, next) = GapStreamElement::read(&[0x21, 0x04], 0).unwrap();
    assert_eq!(next, 2);
    assert!(matches!(e.gap_sample, Some(GapSample::RepeatCt(4))));

    let (e, next) = GapStreamElement::read(&[0x22, 0x0C, 0xAB, 0xC0], 0).unwrap();
    assert_eq!(next, 4);
    let expected = vec![true, false, true, false, true, false, true, true, true, true, false, false];
    assert!(matches!(e.gap_sample, Some(GapSample::Sample(ref b)) if b == &expected));
}

#[test]
fn ipf_gap_list() {
    let image = [0x21, 0x04, 0x22, 0x0C, 0xAB, 0xC0, 0x00];
    let (pattern, end) = IpfParser::read_v2_gap_elements(&image, 0, GapFillDirection::Forwards).unwrap();
    assert_eq!(end, 7);
    let unit = [true, false, true, false, true, false, true, true, true, true, false, false];
    let expected: Vec<bool> = (0..48).map(|i| unit[i % 12]).collect();
    assert_eq!(pattern, expected);
    // A sample with no repeat count before it is taken once.
    let (pattern, _) = IpfParser::read_v2_gap_elements(&image[2..], 0, GapFillDirection::Backwards).unwrap();
    assert_eq!(pattern, unit.to_vec());
    assert_eq!(IpfParser::read_v2_gap_elements(&image[..6], 0, GapFillDirection::Forwards), Err(IpfError::ReadError));
}

#[test]
fn ipf_data_elements_decode() {
    let block = v2_block(0, 0, 0, 0);
    let mut cursor = 32usize;
    let (decoded, writes) = IpfParser::decode_v2_data_elements(&ELEMENTS, 0, &block, &mut cursor).unwrap();
    assert_eq!(decoded, 6);
    assert_eq!(cursor, 80);
    assert_eq!(
        writes,
        vec![
            IpfTrackWrite { raw: true, cursor: 32, data: vec![0x44, 0x89] },
            IpfTrackWrite { raw: false, cursor: 48, data: vec![0x01, 0x02] },
        ]
    );
    // A fuzzy element carries no samples.
    let mut cursor = 0usize;
    assert_eq!(IpfParser::decode_v2_data_elements(&[0x05, 0x00], 0, &block, &mut cursor), Err(IpfError::MissingSamples));
    // With the data-in-bits flag, the elements after the first give their sizes in bits.
    let bits_block = v2_block(0, 0, BLOCK_DATA_IN_BITS, 0);
    let image = [0x22, 0x01, 0x55, 0x22, 0x10, 0x12, 0x34, 0x00];
    let mut cursor = 0usize;
    let (decoded, writes) = IpfParser::decode_v2_data_elements(&image, 0, &bits_block, &mut cursor).unwrap();
    assert_eq!(decoded, 6);
    assert_eq!(writes[1].data, vec![0x12, 0x34]);
}

#[test]
fn ipf_data_block_decode() {
    let mut image = ELEMENTS.to_vec();
    image.extend_from_slice(&[0x21, 0x04, 0x22, 0x0C, 0xAB, 0xC0, 0x00]);
    let block = v2_block(16, 9, BLOCK_FORWARD_GAP, 0);
    let mut cursor = 0usize;
    let (count, writes) = IpfParser::decode_v2_data_block(&image, 0, &block, &mut cursor).unwrap();
    assert_eq!(count, 12);
    assert_eq!(cursor, 64);
    assert_eq!(writes.len(), 2);

    let mut missing = block;
    missing.gap_offset = None;
    let mut cursor = 0usize;
    assert_eq!(IpfParser::decode_v2_data_block(&image, 0, &missing, &mut cursor), Err(IpfError::MissingDescriptorField));
    // A gap list that is cut short is an error.
    let cut = v2_block(16, 16, BLOCK_FORWARD_GAP, 0);
    let mut cursor = 0usize;
    assert_eq!(IpfParser::decode_v2_data_block(&image, 0, &cut, &mut cursor), Err(IpfError::ReadError));
}

#[test]
fn ipf_block_descriptor_reading() {
    let v2 = words(&[100, 200, 7, 1, 0, 0x0F, 0x4E, 12]);
    let (d, next) = BlockDescriptor::read_args(&v2, 0, 2).unwrap();
    assert_eq!(next, 32);
    assert_eq!((d.data_bits, d.gap_bits), (100, 200));
    assert_eq!((d.gap_offset, d.cell_type), (Some(7), Some(1)));
    assert_eq!(d.block_flags, Some(BlockFlags { bits: 0x07 }));
    assert!(d.block_flags.unwrap().contains(BLOCK_DATA_IN_BITS));
    assert_eq!((d.gap_default, d.data_offset), (0x4E, 12));
    assert_eq!(d.data_bytes, None);

    let (d1, _) = BlockDescriptor::read_args(&v2, 0, 1).unwrap();
    assert_eq!((d1.data_bytes, d1.gap_bytes), (Some(7), Some(1)));
    assert_eq!(d1.block_flags, None);

    assert!(BlockDescriptor::read_args(&v2[..31], 0, 2).is_none());
    let (d0, next0) = BlockDescriptor::read_args(&v2, 0, 0).unwrap();
    assert_eq!(next0, 24);
    assert_eq!(d0.data_offset, 0x0F);
}

#[test]
fn ipf_data_record_reading() {
    let r = DataRecord::read(&words(&[32, 256, 0xDEAD_BEEF, 5])).unwrap();
    assert_eq!(r, DataRecord { length: 32, bit_size: 256, crc: 0xDEAD_BEEF, data_key: 5 });
    assert_eq!(r.key(), 5);
    assert_eq!(DataRecord::read(&[0u8; 15]), Err(IpfError::RecordTooShort));
}

fn ipf_image(with_info: bool, data_key: u32, edb_len: u32) -> Vec<u8> {
    let mut v = make_chunk(b"CAPS", &[]);
    if with_info {
        v.extend(make_chunk(b"INFO", &info_bytes(2)));
    }
    let mut img1 = vec![0u32; 17];
    img1[0] = 1;
    img1[10] = 1;
    img1[13] = 5;
    v.extend(make_chunk(b"IMGE", &words(&img1)));
    let mut img2 = vec![0u32; 17];
    img2[1] = 1;
    img2[13] = 6;
    v.extend(make_chunk(b"IMGE", &words(&img2)));
    v.extend(make_chunk(b"DATA", &words(&[edb_len, 0, 0, data_key])));
    v.extend(words(&[100, 200, 0, 1, 0, 0, 0, 0]));
    v
}

#[test]
fn ipf_records_reading() {
    let image = ipf_image(true, 5, 32);
    let recs = IpfParser::read_records(&image).unwrap();
    assert_eq!(recs.info.encoder_type, 2);
    assert_eq!(recs.images.len(), 2);
    assert_eq!(recs.order, vec![1, 0]);
    assert_eq!(recs.datas.len(), 1);
    assert_eq!(recs.datas[0].data_record.data_key, 5);
    assert_eq!(recs.datas[0].edb_offset, image.len() - 32);
    assert_eq!(recs.datas[0].blocks.len(), 1);
    assert_eq!(recs.datas[0].blocks[0].gap_bits, 200);

    assert_eq!(IpfParser::read_records(&ipf_image(false, 5, 32)).err(), Some(IpfError::NoInfoRecord));
    assert_eq!(IpfParser::read_records(&ipf_image(true, 9, 32)).err(), Some(IpfError::NoImageRecord));
    assert_eq!(IpfParser::read_records(&image[12..]).err(), Some(IpfError::UnknownFormat));
    // A DATA record whose block reaches past the image.
    assert_eq!(IpfParser::read_records(&ipf_image(true, 5, 33)).err(), Some(IpfError::RecordOutOfRange));
    // Block descriptors cut short.
    assert_eq!(IpfParser::read_records(&image[..image.len() - 1]).err(), Some(IpfError::ReadError));
}

#[test]
fn ipf_sort_tracks_is_stable() {
    let images = vec![
        image_record(1, 0, 0, 0, 1),
        image_record(0, 1, 0, 0, 2),
        image_record(0, 0, 0, 0, 3),
        image_record(0, 1, 0, 0, 4),
    ];
    assert_eq!(IpfParser::sort_tracks(&images), vec![2, 1, 3, 0]);
}

#[test]
fn ipf_track_decode() {
    let rec = image_record(3, 1, 35, 1, 0);
    let data = DataRecordInfo {
        data_record: DataRecord { length: 9, bit_size: 0, crc: 0, data_key: 0 },
        edb_offset: 0,
        blocks: vec![v2_block(16, 0, 0, 0)],
    };
    let t = IpfParser::decode_v2_track(&ELEMENTS, &rec, &data).unwrap();
    assert_eq!((t.ch.c, t.ch.h), (3, 1));
    assert_eq!(t.track_bits, 100_000);
    assert_eq!(t.writes[0].cursor, 32);
    assert_eq!(t.writes[1].cursor, 48);
    assert!(!IpfParser::v2_track_overflows(&ELEMENTS, &rec, &data));

    let v2_info = InfoRecord::read(&info_bytes(2)).unwrap();
    assert!(IpfParser::process_track(&ELEMENTS, &v2_info, &rec, &data).unwrap().is_some());
    let v1_info = InfoRecord::read(&info_bytes(1)).unwrap();
    assert!(IpfParser::process_track(&ELEMENTS, &v1_info, &rec, &data).unwrap().is_none());
    let bad_info = InfoRecord::read(&info_bytes(7)).unwrap();
    assert!(matches!(IpfParser::process_track(&ELEMENTS, &bad_info, &rec, &data), Err(IpfError::InvalidEncoder)));
}
