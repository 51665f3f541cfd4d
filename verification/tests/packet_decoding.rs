use v1060p_driver::packet::{RawDataReader, REPORT_LEN, RESERVED_TABLET_BITS};

fn report(bytes: &[(usize, u8)]) -> RawDataReader {
    let mut r = RawDataReader::new();
    for &(i, b) in bytes {
        r.data[i] = b;
    }
    r
}

#[test]
fn new_reader_holds_one_zeroed_report() {
    let r = RawDataReader::new();
    assert_eq!(r.data.len(), REPORT_LEN);
    assert!(r.data.iter().all(|&b| b == 0));
}

#[test]
fn default_reader_is_empty() {
    let r = RawDataReader::default();
    assert!(r.data.is_empty());
}

#[test]
fn bytes_combine_big_endian() {
    let r = RawDataReader::new();
    assert_eq!(r.u16_from_2_u8(0x12, 0x34), 0x1234);
    assert_eq!(r.u16_from_2_u8(0xff, 0xff), 0xffff);
    assert_eq!(r.u16_from_2_u8(0x00, 0x01), 1);
}

#[test]
fn signed_reading_of_bytes() {
    let r = RawDataReader::new();
    assert_eq!(r.i16_from_2_u8(0x7f, 0xff), 32767);
    assert_eq!(r.i16_from_2_u8(0x80, 0x00), -32768);
    assert_eq!(r.i16_from_2_u8(0xff, 0xfe), -2);
    assert_eq!(r.i16_from_2_u8(0x01, 0x00), 256);
}

#[test]
fn axes_pressure_and_pen_buttons_are_read_from_their_bytes() {
    let r = report(&[(1, 0x07), (2, 0xd0), (3, 0xff), (4, 0x9c), (5, 0x05), (6, 0xdc), (9, 0x04)]);
    assert_eq!(r.x_axis(), 2000);
    assert_eq!(r.y_axis(), -100);
    assert_eq!(r.pressure(), 1500);
    assert_eq!(r.pen_buttons(), 4);
}

#[test]
fn pressure_is_unsigned() {
    let r = report(&[(5, 0xff), (6, 0xff)]);
    assert_eq!(r.pressure(), 65535);
}

#[test]
fn express_key_word_forces_reserved_bits() {
    let r = report(&[(11, 0x00), (12, 0x00)]);
    assert_eq!(r.tablet_buttons_as_binary_flags(), RESERVED_TABLET_BITS);
    let r = report(&[(11, 0xff), (12, 0xff)]);
    assert_eq!(r.tablet_buttons_as_binary_flags(), 0xffff);
    let r = report(&[(11, 0xfe), (12, 0x3f)]);
    assert_eq!(r.tablet_buttons_as_binary_flags(), 0xfffe);
    let r = report(&[(11, 0x12), (12, 0x21)]);
    assert_eq!(r.tablet_buttons_as_binary_flags(), 0xed12);
}

#[test]
fn short_report_reads_as_reserved_bits_alone() {
    let r = RawDataReader { data: vec![0xff; 12] };
    assert_eq!(r.tablet_buttons_as_binary_flags(), 0xcc00);
    let r = RawDataReader { data: vec![] };
    assert_eq!(r.tablet_buttons_as_binary_flags(), 0xcc00);
    let r = RawDataReader { data: vec![0xff; 13] };
    assert_eq!(r.tablet_buttons_as_binary_flags(), 0xffff);
}
