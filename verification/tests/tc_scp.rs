use fluxfox::file_parsers::scp::{ScpDiskManufacturer, ScpError, ScpFileHeader, ScpFormat};
use fluxfox::file_parsers::tc::{TCFormat, TcError};
use fluxfox::types::{DiskRpm, StandardFormat, TrackDataEncoding, TrackDataRate};

fn tc_image(num_sides: u8, tracks: &[(u16, u16)], disk_type: u8) -> Vec<u8> {
    let mut v = vec![0u8; 256];
    v[0] = 0x5A;
    v[1] = 0xA5;
    v[2..7].copy_from_slice(b"Hello");
    v[34..39].copy_from_slice(b"World");
    v.extend_from_slice(&[disk_type, 0, 39, num_sides, 1]);
    let mut skews = vec![0x11u8; 512];
    let mut offs = vec![0u8; 512];
    let mut sizes = vec![0x33u8; 512];
    let mut flags = vec![0x44u8; 512];
    for (i, (off, size)) in tracks.iter().enumerate() {
        skews[2 * i..2 * i + 2].copy_from_slice(&0u16.to_le_bytes());
        offs[2 * i..2 * i + 2].copy_from_slice(&off.to_be_bytes());
        sizes[2 * i..2 * i + 2].copy_from_slice(&size.to_le_bytes());
        flags[2 * i..2 * i + 2].copy_from_slice(&0u16.to_le_bytes());
    }
    v.extend(skews);
    v.extend(offs);
    v.extend(sizes);
    v.extend(flags);
    v
}

#[test]
fn tc_load_image() {
    let mut v = tc_image(2, &[(0x10, 4), (0x11, 3), (0x12, 2)], 0x02);
    v.resize(0x1300, 0);
    v[0x1000..0x1004].copy_from_slice(&[1, 2, 3, 4]);
    v[0x1100..0x1103].copy_from_slice(&[5, 6, 7]);
    let img = TCFormat::load_image(&v).unwrap();
    assert_eq!(img.comment, "Hello\nWorld");
    assert_eq!(img.encoding, TrackDataEncoding::Mfm);
    assert_eq!(img.data_rate, TrackDataRate::Rate500Kbps);
    assert_eq!(img.rpm, DiskRpm::Rpm300);
    // Three tracks are listed; only a whole number of cylinders is read.
    assert_eq!(img.tracks.len(), 2);
    assert_eq!((img.tracks[0].c, img.tracks[0].h), (0, 0));
    assert_eq!((img.tracks[1].c, img.tracks[1].h), (0, 1));
    assert_eq!(img.tracks[0].data, vec![1, 2, 3, 4]);
    assert_eq!(img.tracks[1].data, vec![5, 6, 7]);
}

#[test]
fn tc_load_image_errors() {
    let mut v = tc_image(2, &[(0x10, 4), (0x11, 3)], 0x02);
    v.resize(0x1200, 0);
    let mut bad_sig = v.clone();
    bad_sig[1] = 0;
    assert!(matches!(TCFormat::load_image(&bad_sig), Err(TcError::UnsupportedFormat)));
    assert!(matches!(TCFormat::load_image(&v[..1000]), Err(TcError::FormatParseError)));
    let mut bad_type = v.clone();
    bad_type[256] = 0x05;
    assert!(matches!(TCFormat::load_image(&bad_type), Err(TcError::IncompatibleImage)));
    let mut three_sides = v.clone();
    three_sides[259] = 3;
    assert!(matches!(TCFormat::load_image(&three_sides), Err(TcError::IncompatibleImage)));
    // A track running past the end of the image.
    assert!(matches!(TCFormat::load_image(&v[..0x1102]), Err(TcError::IncompatibleImage)));
}

fn scp_header(flags: u8, heads: u8) -> Vec<u8> {
    let mut h = b"SCP".to_vec();
    h.extend_from_slice(&[0x19, 0x33, 2, 0, 79, flags, 0, heads, 0]);
    h.extend_from_slice(&0u32.to_le_bytes());
    h
}

#[test]
fn scp_header_checks() {
    let h = ScpFileHeader::read(&scp_header(0x04, 0)).unwrap();
    let p = ScpFormat::check_header(&h).unwrap();
    assert_eq!(p.manufacturer, ScpDiskManufacturer::Pc);
    assert_eq!(p.disk_format, Some(StandardFormat::PcFloppy1440));
    assert_eq!(p.version, Some((1, 9)));
    assert_eq!(p.rpm, DiskRpm::Rpm300);
    assert!(p.read_only);
    assert_eq!(p.heads, 2);
    assert_eq!(p.capture_resolution, 25);

    let h = ScpFileHeader::read(&scp_header(0x20 | 0x10, 1)).unwrap();
    let p = ScpFormat::check_header(&h).unwrap();
    assert_eq!(p.version, None);
    assert_eq!(p.rpm, DiskRpm::Rpm360);
    assert!(!p.read_only);
    assert_eq!(p.heads, 1);

    for (flags, heads) in [(0x40, 0), (0, 2), (0, 3)] {
        let h = ScpFileHeader::read(&scp_header(flags, heads)).unwrap();
        assert!(matches!(ScpFormat::check_header(&h), Err(ScpError::UnsupportedFormat)));
    }
    let mut bad = scp_header(0, 0);
    bad[4] = 0x95;
    let h = ScpFileHeader::read(&bad).unwrap();
    assert!(matches!(ScpFormat::check_header(&h), Err(ScpError::UnsupportedFormat)));
}

#[test]
fn scp_track_offsets_and_data() {
    let mut v = scp_header(0, 0);
    // Room for four offsets before the first track at 0x20.
    for off in [0x20u32, 0x40, 0, 0] {
        v.extend_from_slice(&off.to_le_bytes());
    }
    v.resize(0x20, 0);
    v.extend_from_slice(b"TRK\x00");
    v.extend_from_slice(&3000000u32.to_le_bytes());
    v.extend_from_slice(&2u32.to_le_bytes());
    v.extend_from_slice(&16u32.to_le_bytes());
    v.extend_from_slice(&[0x01, 0x02, 0xAB, 0xCD]);
    v.resize(0x40, 0);
    v.extend_from_slice(b"TRK\x01");
    v.extend_from_slice(&[0u8; 12]);
    assert_eq!(ScpFormat::read_track_offsets(&v).unwrap(), vec![0x20, 0x40]);
    let (th, revs) = ScpFormat::read_track(&v, 0x20, 1).unwrap();
    assert_eq!(th.track_number, 0);
    assert_eq!(revs.len(), 1);
    assert_eq!(revs[0].index_time, 3000000);
    assert_eq!(ScpFormat::read_flux_data(&v, 0x20, &revs[0]).unwrap(), vec![0x0102, 0xABCD]);
    assert!(matches!(ScpFormat::read_track(&v, 0x40, 2), Err(ScpError::Io)));
    assert!(matches!(ScpFormat::read_track(&v, 0x24, 1), Err(ScpError::UnsupportedFormat)));
}

#[test]
fn scp_track_offset_errors() {
    let mut v = scp_header(0, 0);
    v.extend_from_slice(&8u32.to_le_bytes());
    assert!(matches!(ScpFormat::read_track_offsets(&v), Err(ScpError::FormatParseError)));
    let mut v = scp_header(0, 0);
    for off in [0x20u32, 0x10] {
        v.extend_from_slice(&off.to_le_bytes());
    }
    v.resize(0x30, 0);
    assert!(matches!(ScpFormat::read_track_offsets(&v), Err(ScpError::FormatParseError)));
    assert!(matches!(ScpFormat::read_track_offsets(&v[..18]), Err(ScpError::Io)));
}

#[test]
fn tc_load_image_without_whole_cylinders() {
    // A single listed track is no whole cylinder: the image is read with no tracks.
    let mut v = tc_image(2, &[(0x10, 4)], 0x02);
    v.resize(0x1100, 0);
    let img = TCFormat::load_image(&v).unwrap();
    assert_eq!(img.tracks.len(), 0);
    assert_eq!(img.num_sides, 2);
}
