use fluxfox::file_parsers::kryoflux::{kfx_parse_str, KfxError, KfxFormat, KfxStream};

fn index_block(stream_pos: u32, index_counter: u32) -> Vec<u8> {
    let mut v = vec![0x0D, 0x02, 0x0C, 0x00];
    v.extend_from_slice(&stream_pos.to_le_bytes());
    v.extend_from_slice(&0u32.to_le_bytes());
    v.extend_from_slice(&index_counter.to_le_bytes());
    v
}

fn sample_stream() -> Vec<u8> {
    let text = b"sck=24027428.5714285, ick=3003428.5714285625";
    let mut v = vec![0x0D, 0x04, (text.len() + 1) as u8, 0x00];
    v.extend_from_slice(text);
    v.push(0);
    v.extend(index_block(0, 1000));
    // Flux1, Flux2, Ovl16 + Flux1.
    v.extend_from_slice(&[0x20, 0x01, 0x00, 0x0B, 0x10]);
    v.extend(index_block(5, 3000));
    v.push(0x30);
    v.extend(index_block(6, 5500));
    v.push(0x40);
    v.extend_from_slice(&[0x0D, 0x0D]);
    v
}

#[test]
fn kryoflux_scan_stream() {
    let image = sample_stream();
    assert!(!KfxFormat::scan_overflows(&image));
    let k = KfxFormat::scan_stream(&image).unwrap();
    assert_eq!(k.index_offsets, vec![0, 5, 6]);
    assert_eq!(k.index_deltas, vec![2000, 2500]);
    assert_eq!(k.streams, vec![vec![], vec![32, 256, 65552, 48], vec![64], vec![]]);
    assert_eq!(k.idx_ct, 3);
    assert_eq!(k.sck_text.as_deref(), Some(&b"24027428.5714285"[..]));
    assert_eq!(k.ick_text.as_deref(), Some(&b"3003428.5714285625"[..]));

    let revs = k.complete_revolutions().unwrap();
    assert_eq!(revs, vec![(vec![32, 256, 65552, 48], 2000), (vec![64], 2500)]);
}

#[test]
fn kryoflux_stream_without_end_block() {
    let mut image = sample_stream();
    image.truncate(image.len() - 2);
    assert_eq!(KfxFormat::scan_stream(&image).err(), Some(KfxError::UnexpectedEof));
    // A flux block cut short.
    assert_eq!(KfxFormat::scan_stream(&[0x05]).err(), Some(KfxError::UnexpectedEof));
}

#[test]
fn kryoflux_hardware_fault() {
    // A stream end block with the buffering fault status.
    let mut image = vec![0x0D, 0x03, 0x08, 0x00];
    image.extend_from_slice(&0u32.to_le_bytes());
    image.extend_from_slice(&1u32.to_le_bytes());
    image.extend_from_slice(&[0x0D, 0x0D]);
    assert_eq!(KfxFormat::scan_stream(&image).err(), Some(KfxError::ImageCorrupt));
    // Status 0 is fine; the stream then holds no revolution.
    image[8] = 0;
    let k = KfxFormat::scan_stream(&image).unwrap();
    assert_eq!(k.idx_ct, 0);
    assert_eq!(k.streams, vec![Vec::<u32>::new()]);
}

#[test]
fn kryoflux_too_few_revolutions() {
    let k = KfxStream {
        streams: vec![vec![], vec![1, 2]],
        index_offsets: vec![0],
        index_deltas: vec![],
        idx_ct: 1,
        sck_text: None,
        ick_text: None,
    };
    assert_eq!(k.complete_revolutions(), Err(KfxError::IncompatibleImage));
}

#[test]
fn kryoflux_clock_text() {
    let (sck, ick) = kfx_parse_str(b"name=KryoFlux, sck=24027428.5714285, ick=3003428.5714285625");
    assert_eq!(sck.as_deref(), Some(&b"24027428.5714285"[..]));
    assert_eq!(ick.as_deref(), Some(&b"3003428.5714285625"[..]));
    assert_eq!(kfx_parse_str(b"sck=24027428, ick=3003428.5"), (None, None));
    assert_eq!(kfx_parse_str(b"hwid=1"), (None, None));
}

#[test]
fn kryoflux_index_block_reading() {
    let image = index_block(7, 42);
    let mut ctx = KfxFormat::default();
    let mut pos = 0usize;
    let mut offsets = Vec::new();
    let mut deltas = Vec::new();
    let mut sp = 0u64;
    assert_eq!(ctx.read_index_block(&image, &mut pos, &mut offsets, &mut sp, &mut deltas), Ok(false));
    assert_eq!(pos, 16);
    assert_eq!(offsets, vec![7]);
    assert!(deltas.is_empty());
    assert_eq!(ctx.last_index_counter, Some(42));
}
