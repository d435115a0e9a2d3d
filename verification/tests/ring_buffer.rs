use fluxfox::file_parsers::compression::lzhuf::ring_buffer::RingBuffer;

#[test]
fn offset() {
    let mut ring = RingBuffer::create(4);
    ring.set_pos(5);
    assert_eq!(ring.get_pos(0), 1);
    assert_eq!(ring.get_pos(4), 1);
    assert_eq!(ring.get_pos(3), 0);
    assert_eq!(ring.get_pos(-4), 1);
}

#[test]
fn distance() {
    let mut ring = RingBuffer::create(4);
    ring.set_pos(5);
    assert_eq!(ring.get_pos(0), 1);
    assert_eq!(ring.distance_behind(0), 1);
    assert_eq!(ring.distance_behind(1), 0);
    assert_eq!(ring.distance_behind(3), 2);
}

#[test]
fn ring_read_after_write() {
    let mut ring = RingBuffer::create(8);
    ring.set_pos(6);
    ring.set(3, 0xAB);
    assert_eq!(ring.get(3), 0xAB);
    assert_eq!(ring.get_abs(1), 0xAB);
    assert_eq!(ring.get(-5), 0xAB);
    assert_eq!(ring.get(4), 0);
}

#[test]
fn ring_advance_retreat() {
    let mut ring = RingBuffer::create(3);
    ring.set_pos(2);
    ring.advance();
    assert_eq!(ring.get_pos(0), 0);
    ring.advance();
    ring.retreat();
    assert_eq!(ring.get_pos(0), 0);
    ring.set_abs(7, 9);
    assert_eq!(ring.get_abs(1), 9);
}

#[test]
fn ring_distance_undoes_offset() {
    let mut ring = RingBuffer::create(16);
    ring.set_pos(3);
    for d in 0..16i64 {
        let slot = ring.get_pos(-d);
        assert_eq!(ring.distance_behind(slot) as i64, d);
    }
}
