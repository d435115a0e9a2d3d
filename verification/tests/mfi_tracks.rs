use fluxfox::file_parsers::mfi::{MfiError, MfiFormat, MfiTrackData};
use std::io::Write;

fn zlib(data: &[u8]) -> Vec<u8> {
    let mut enc = flate2::write::ZlibEncoder::new(Vec::new(), flate2::Compression::default());
    enc.write_all(data).unwrap();
    enc.finish().unwrap()
}

fn mfi_image(tracks: &[&[u8]], cylinders: u32, heads: u32) -> Vec<u8> {
    let mut v = b"MAMEFLOPPYIMAGE\0".to_vec();
    for w in [cylinders, heads, 0, 0] {
        v.extend_from_slice(&w.to_le_bytes());
    }
    let packed: Vec<Vec<u8>> = tracks.iter().map(|t| zlib(t)).collect();
    let mut offset = 32 + 16 * tracks.len();
    for (t, p) in tracks.iter().zip(packed.iter()) {
        for w in [offset as u32, p.len() as u32, t.len() as u32, 0] {
            v.extend_from_slice(&w.to_le_bytes());
        }
        offset += p.len();
    }
    for p in packed {
        v.extend(p);
    }
    v
}

#[test]
fn mfi_read_tracks() {
    let image = mfi_image(&[&[1, 2, 3, 4], &[5, 6, 7, 8]], 2, 2);
    let (h, tracks) = MfiFormat::read_tracks(&image).unwrap();
    assert_eq!((h.cylinders, h.heads), (2, 2));
    assert_eq!(tracks.len(), 2);
    assert_eq!((tracks[0].c, tracks[0].h, tracks[0].data.clone()), (0, 0, vec![1, 2, 3, 4]));
    assert_eq!((tracks[1].c, tracks[1].h, tracks[1].data.clone()), (0, 1, vec![5, 6, 7, 8]));

    // One head: the second entry is the next cylinder.
    let image = mfi_image(&[&[1], &[2]], 3, 1);
    let (_, tracks) = MfiFormat::read_tracks(&image).unwrap();
    assert_eq!((tracks[1].c, tracks[1].h), (1, 0));
}

#[test]
fn mfi_read_tracks_errors() {
    let image = mfi_image(&[&[1, 2, 3, 4], &[5, 6, 7, 8]], 2, 2);
    // Corrupt the compressed data of the second track.
    let mut broken = image.clone();
    let n = broken.len();
    broken[n - 3] ^= 0xFF;
    assert_eq!(MfiFormat::read_tracks(&broken).err(), Some(MfiError::ImageCorruptError));
    // Data that ends early.
    assert_eq!(MfiFormat::read_tracks(&image[..image.len() - 1]).err(), Some(MfiError::ReadError));
    // No heads.
    assert_eq!(MfiFormat::read_tracks(&mfi_image(&[], 2, 0)).err(), Some(MfiError::ImageCorruptError));
}

fn word(kind: u32, value: u32) -> [u8; 4] {
    ((kind << 28) | value).to_le_bytes()
}

#[test]
fn mfi_track_entries() {
    let mut data = Vec::new();
    for (k, v) in [(0, 100), (1, 5), (0, 200), (3, 7), (2, 9), (2, 10), (3, 11), (3, 12), (1, 13)] {
        data.extend_from_slice(&word(k, v));
    }
    data.extend_from_slice(&[0xAA, 0xBB]);
    let e = MfiFormat::track_entries(&MfiTrackData { c: 0, h: 0, data });
    assert_eq!(e.fluxes, vec![100, 200]);
    // A zone entry keeps the low 30 bits of its word, the low bits of its kind among them.
    assert_eq!(
        e.nfa_zones.iter().map(|z| (z.start, z.end)).collect::<Vec<_>>(),
        vec![(0x1000_0005, 0x3000_0007)]
    );
    assert_eq!(
        e.hole_zones.iter().map(|z| (z.start, z.end)).collect::<Vec<_>>(),
        vec![(0x2000_0009, 0x3000_000B)]
    );
}
