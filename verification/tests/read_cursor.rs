use piyopiyo::read_cursor::ReadCursor;

#[test]
fn next_bytes_reads_and_advances() {
    let data = [1u8, 2, 3, 4, 5];
    let mut cur = ReadCursor(&data);
    assert_eq!(cur.next_bytes::<3>(), Some([1, 2, 3]));
    assert_eq!(cur.remaining(), 2);
    assert_eq!(cur.0, &[4, 5]);
}

#[test]
fn next_bytes_underflow_reads_nothing() {
    let data = [1u8, 2];
    let mut cur = ReadCursor(&data);
    assert_eq!(cur.next_bytes::<3>(), None);
    assert_eq!(cur.0, &[1, 2]);
    assert_eq!(cur.next_bytes::<0>(), Some([]));
    assert_eq!(cur.next_bytes::<2>(), Some([1, 2]));
    assert_eq!(cur.remaining(), 0);
}

#[test]
fn next_u8_reads_one_byte() {
    let data = [9u8, 8];
    let mut cur = ReadCursor(&data);
    assert_eq!(cur.next_u8(), Some(9));
    assert_eq!(cur.next_u8(), Some(8));
    assert_eq!(cur.next_u8(), None);
    assert_eq!(cur.remaining(), 0);
}

#[test]
fn next_u32_le_is_little_endian() {
    let data = [0x01u8, 0x02, 0x03, 0x04, 0xFF, 0xFF, 0xFF, 0xFF, 0x07];
    let mut cur = ReadCursor(&data);
    assert_eq!(cur.next_u32_le(), Some(0x0403_0201));
    assert_eq!(cur.next_u32_le(), Some(u32::MAX));
    assert_eq!(cur.next_u32_le(), None);
    assert_eq!(cur.0, &[0x07]);
}

#[test]
fn skip_passes_over_bytes() {
    let data = [1u8, 2, 3, 4];
    let mut cur = ReadCursor(&data);
    cur.skip(0);
    assert_eq!(cur.remaining(), 4);
    cur.skip(3);
    assert_eq!(cur.0, &[4]);
    cur.skip(1);
    assert_eq!(cur.remaining(), 0);
}

#[test]
fn next_n_reads_little_endian_words() {
    let data = [0x01u8, 0, 0, 0, 0x00, 0x00, 0x80, 0x03, 0xAA];
    let mut cur = ReadCursor(&data);
    let events = cur.next_n(2).unwrap();
    assert_eq!(events.len(), 2);
    assert_eq!(events[0].0, 1);
    assert_eq!(events[1].0, 0x0380_0000);
    assert_eq!(cur.0, &[0xAA]);
}

#[test]
fn next_n_underflow_reads_nothing() {
    let data = [1u8, 2, 3, 4, 5, 6, 7];
    let mut cur = ReadCursor(&data);
    assert!(cur.next_n(2).is_none());
    assert_eq!(cur.remaining(), 7);
    assert!(cur.next_n(usize::MAX).is_none());
    assert_eq!(cur.next_n(0).unwrap().len(), 0);
    assert_eq!(cur.remaining(), 7);
}
