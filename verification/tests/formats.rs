use fluxfox::file_parsers::hfe::{generate_reverse_table, reverse_bits};
use fluxfox::file_parsers::{
    bitstream_flags, format_from_ext, formats_from_caps, DiskImageFileFormat, FormatCaps, CAP_COMMENT,
    CAP_ENCODING_FM, CAP_WEAK_BITS,
};

fn simple_reverse_bits(byte: u8) -> u8 {
    let mut reversed = 0;
    for i in 0..8 {
        reversed |= ((byte >> i) & 1) << (7 - i);
    }
    reversed
}

#[test]
fn test_generate_reverse_table() {
    let table = generate_reverse_table();
    for (ti, table_item) in table.into_iter().enumerate() {
        assert_eq!(table_item, simple_reverse_bits(ti as u8), "Failed at index {}", ti);
    }
}

#[test]
fn test_format_from_ext_tc() {
    let ext = "tc";
    let expected_format = DiskImageFileFormat::TransCopyImage;
    let result = format_from_ext(ext);
    assert_eq!(result, Some(expected_format));
}

#[test]
fn format_from_ext_ignores_case() {
    assert_eq!(format_from_ext("IMD"), Some(DiskImageFileFormat::ImageDisk));
    assert_eq!(format_from_ext("Td0"), Some(DiskImageFileFormat::TeleDisk));
    assert_eq!(format_from_ext("adf"), Some(DiskImageFileFormat::RawSectorImage));
    assert_eq!(format_from_ext("raw"), Some(DiskImageFileFormat::KryofluxStream));
    assert_eq!(format_from_ext("xyz"), None);
    assert_eq!(format_from_ext(""), None);
}

#[test]
fn reverse_bits_values() {
    assert_eq!(reverse_bits(0x01), 0x80);
    assert_eq!(reverse_bits(0xF0), 0x0F);
    assert_eq!(reverse_bits(0xA5), 0xA5);
    assert_eq!(reverse_bits(0x12), 0x48);
    for b in 0..=255u8 {
        assert_eq!(reverse_bits(reverse_bits(b)), b);
    }
}

#[test]
fn bitstream_flags_value() {
    assert_eq!(bitstream_flags().bits(), 0x403F);
}

#[test]
fn formats_with_comment_and_weak_bits() {
    let caps = FormatCaps::from_bits(CAP_COMMENT | CAP_WEAK_BITS);
    let found = formats_from_caps(caps);
    let names: Vec<DiskImageFileFormat> = found.iter().map(|(f, _)| *f).collect();
    assert_eq!(
        names,
        vec![
            DiskImageFileFormat::PceBitstreamImage,
            DiskImageFileFormat::PceFluxImage,
            DiskImageFileFormat::MameFloppyImage,
            DiskImageFileFormat::IpfImage,
            DiskImageFileFormat::MoofImage,
        ]
    );
    assert_eq!(found[0].1, vec!["pri".to_string()]);
    let all = formats_from_caps(FormatCaps::empty());
    assert_eq!(all.len(), 15);
    assert_eq!(all[0].1.len(), 5);
    let fm = formats_from_caps(FormatCaps::from_bits(CAP_ENCODING_FM));
    assert_eq!(fm.len(), 1);
    assert_eq!(fm[0].0, DiskImageFileFormat::TransCopyImage);
}
