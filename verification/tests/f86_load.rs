use fluxfox::file_parsers::f86::{F86Error, F86Format};
use fluxfox::types::{DiskRpm, TrackDataEncoding, TrackDataRate, TrackDensity};

fn f86_image(flags: u16, track_flags: [u16; 2], first: u32) -> Vec<u8> {
    let mut v = b"86BF".to_vec();
    v.extend_from_slice(&[0x0C, 0x02]);
    v.extend_from_slice(&flags.to_le_bytes());
    for o in [first, 34, 0] {
        v.extend_from_slice(&o.to_le_bytes());
    }
    for (i, tf) in track_flags.iter().enumerate() {
        v.extend_from_slice(&tf.to_le_bytes());
        v.extend_from_slice(&0u32.to_le_bytes());
        v.extend_from_slice(&[0x10 * (i as u8 + 1); 8]);
    }
    v
}

#[test]
fn f86_load_tracks() {
    let image = f86_image(0x0018, [0x000A, 0x000A], 20);
    assert_eq!(image.len(), 48);
    assert!(!F86Format::load_panics(&image));
    let img = F86Format::load_image(&image).unwrap();
    assert_eq!(img.params.heads, 2);
    assert_eq!(img.params.density, TrackDensity::Double);
    assert!(img.params.write_protect);
    assert_eq!((img.geometry.c, img.geometry.h), (1, 2));
    assert_eq!(img.rpm, Some(DiskRpm::Rpm300));
    assert_eq!(img.tracks.len(), 2);
    assert_eq!((img.tracks[0].ch.c, img.tracks[0].ch.h), (0, 0));
    assert_eq!((img.tracks[1].ch.c, img.tracks[1].ch.h), (0, 1));
    assert_eq!(img.tracks[0].encoding, TrackDataEncoding::Mfm);
    assert_eq!(img.tracks[0].data_rate, TrackDataRate::Rate250Kbps);
    assert_eq!(img.tracks[0].bitcell_ct, None);
    // Half of the eight data bytes: the rest is the surface of a second revolution.
    assert_eq!(img.tracks[0].data, vec![0x10; 4]);
    assert_eq!(img.tracks[1].data, vec![0x20; 4]);
}

#[test]
fn f86_load_errors() {
    assert_eq!(F86Format::load_image(&[0x38, 0x36]).err(), Some(F86Error::Io));
    // Hole kind 3, the zoned disk type, big endian data.
    for flags in [0x0006u16, 0x0100, 0x0800] {
        assert_eq!(F86Format::load_image(&f86_image(flags, [0x000A, 0x000A], 20)).err(), Some(F86Error::UnsupportedFormat));
    }
    // Tracks of different rotation rates.
    let mixed = f86_image(0x0008, [0x000A, 0x002A], 20);
    assert_eq!(F86Format::load_image(&mixed).err(), Some(F86Error::UnsupportedFormat));
    // An unknown encoding.
    let unknown = f86_image(0x0008, [0x0012, 0x000A], 20);
    assert_eq!(F86Format::load_image(&unknown).err(), Some(F86Error::UnsupportedFormat));
}

#[test]
fn f86_load_panic_inputs() {
    // A first offset below the header size underflows the table size.
    assert!(F86Format::load_panics(&f86_image(0x0008, [0x000A, 0x000A], 4)));
    // An offset before the one before it underflows the track size.
    assert!(F86Format::load_panics(&f86_image(0x0008, [0x000A, 0x000A], 40)));
    assert!(!F86Format::load_panics(&f86_image(0x0008, [0x000A, 0x000A], 20)));
}
