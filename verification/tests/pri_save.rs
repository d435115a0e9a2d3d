use fluxfox::file_parsers::pce::pri::{PriChunkType, PriFormat};
use fluxfox::file_parsers::pce::pri_write::{PriSaveImage, PriSaveTrack};
use fluxfox::file_parsers::pce::{pce_crc, PceError};
use fluxfox::types::DiskDataResolution;

fn image() -> PriSaveImage {
    let mut weak = vec![false; 40];
    weak[2] = true;
    weak[5] = true;
    weak[35] = true;
    PriSaveImage {
        resolutions: vec![DiskDataResolution::BitStream],
        comment: Some("Hi".to_string()),
        tracks: vec![
            PriSaveTrack { cylinder: 1, head: 0, bit_count: 16, clock_rate: 500_000, data: vec![0xAA, 0x55], weak },
            PriSaveTrack { cylinder: 1, head: 1, bit_count: 8, clock_rate: 500_000, data: vec![0x12], weak: vec![false; 8] },
        ],
    }
}

#[test]
fn pri_save_chunks() {
    let bytes = PriFormat::save_image(&image()).unwrap();
    let mut pos = 0;
    let mut chunks = Vec::new();
    while pos < bytes.len() {
        let (c, next) = PriFormat::read_chunk(&bytes, pos).unwrap();
        chunks.push((c.chunk_type, c.data));
        pos = next;
    }
    let kinds: Vec<PriChunkType> = chunks.iter().map(|c| c.0).collect();
    assert_eq!(
        kinds,
        vec![
            PriChunkType::FileHeader,
            PriChunkType::Text,
            PriChunkType::TrackHeader,
            PriChunkType::TrackData,
            PriChunkType::WeakMask,
            PriChunkType::TrackHeader,
            PriChunkType::TrackData,
            PriChunkType::End,
        ]
    );
    assert_eq!(chunks[0].1, vec![0, 0, 0, 0]);
    assert_eq!(chunks[1].1, b"Hi".to_vec());
    assert_eq!(chunks[2].1, vec![0, 0, 0, 1, 0, 0, 0, 0, 0, 0, 0, 16, 0, 0x07, 0xA1, 0x20]);
    assert_eq!(chunks[3].1, vec![0xAA, 0x55]);
    // Bit 2 opens an entry at offset 3 that also covers bit 5 (three bits below the top bit);
    // bit 35 opens the next at offset 36.
    assert_eq!(chunks[4].1, vec![0, 0, 0, 3, 0x90, 0, 0, 0, 0, 0, 0, 36, 0x80, 0, 0, 0]);
    // The track without weak bits has no weak mask chunk; the end chunk carries its fixed CRC.
    assert_eq!(&bytes[bytes.len() - 12..], &[0x45, 0x4E, 0x44, 0x20, 0, 0, 0, 0, 0x3d, 0x64, 0xaf, 0x78]);
    assert_eq!(pce_crc(&[0x45, 0x4E, 0x44, 0x20, 0, 0, 0, 0]), 0x3d64af78);
}

#[test]
fn pri_save_refused() {
    let mut img = image();
    img.resolutions = vec![DiskDataResolution::BitStream, DiskDataResolution::MetaSector];
    assert_eq!(PriFormat::save_image(&img).err(), Some(PceError::UnsupportedFormat));
    img.resolutions = vec![DiskDataResolution::FluxStream];
    assert_eq!(PriFormat::save_image(&img).err(), Some(PceError::UnsupportedFormat));
}
