use rustmine::data::{
    read_bool, read_byte, read_bytes, read_long, read_string, read_ushort, read_uuid, write_bool,
    write_byte, write_long, write_string, write_ushort, write_uuid, UniqueId,
};
use rustmine::error::WireError;

#[test]
fn ushort_roundtrip_and_byte_order() {
    let mut buf: Vec<u8> = Vec::new();
    write_ushort(&mut buf, 0xABCD);
    assert_eq!(buf, vec![0xAB, 0xCD]);
    let mut pos: usize = 0;
    assert_eq!(read_ushort(&buf, &mut pos).unwrap(), 0xABCD);
    assert_eq!(pos, 2);
}

#[test]
fn ushort_truncated() {
    let buf: Vec<u8> = vec![0xAB];
    let mut pos: usize = 0;
    assert_eq!(read_ushort(&buf, &mut pos), Err(WireError::FramingError));
}

#[test]
fn long_roundtrip_and_byte_order() {
    let mut buf: Vec<u8> = Vec::new();
    write_long(&mut buf, 0x0102_0304_0506_0708);
    assert_eq!(buf, vec![1, 2, 3, 4, 5, 6, 7, 8]);
    let mut pos: usize = 0;
    assert_eq!(read_long(&buf, &mut pos).unwrap(), 0x0102_0304_0506_0708);
    assert_eq!(pos, 8);
}

#[test]
fn long_truncated() {
    let buf: Vec<u8> = vec![0; 7];
    let mut pos: usize = 0;
    assert_eq!(read_long(&buf, &mut pos), Err(WireError::FramingError));
}

#[test]
fn bool_and_byte_roundtrip() {
    let mut buf: Vec<u8> = Vec::new();
    write_bool(&mut buf, true);
    write_bool(&mut buf, false);
    write_byte(&mut buf, 0x5A);
    assert_eq!(buf, vec![1, 0, 0x5A]);
    let mut pos: usize = 0;
    assert_eq!(read_bool(&buf, &mut pos).unwrap(), true);
    assert_eq!(read_bool(&buf, &mut pos).unwrap(), false);
    assert_eq!(read_byte(&buf, &mut pos).unwrap(), 0x5A);
}

#[test]
fn bytes_roundtrip_and_truncation() {
    let buf: Vec<u8> = vec![9, 8, 7, 6];
    let mut pos: usize = 1;
    assert_eq!(read_bytes(&buf, &mut pos, 2).unwrap(), vec![8, 7]);
    assert_eq!(pos, 3);
    assert_eq!(read_bytes(&buf, &mut pos, 2), Err(WireError::FramingError));
}

#[test]
fn string_roundtrip() {
    let mut buf: Vec<u8> = Vec::new();
    write_string(&mut buf, "localhost");
    assert_eq!(buf[0], 9);
    assert_eq!(&buf[1..], b"localhost");
    let mut pos: usize = 0;
    assert_eq!(read_string(&buf, &mut pos).unwrap(), "localhost");
    assert_eq!(pos, buf.len());
}

#[test]
fn string_roundtrip_multibyte() {
    let mut buf: Vec<u8> = Vec::new();
    write_string(&mut buf, "héllo✓");
    let mut pos: usize = 0;
    assert_eq!(read_string(&buf, &mut pos).unwrap(), "héllo✓");
}

#[test]
fn string_invalid_utf8() {
    // length 2, then a lone continuation byte and a stray start byte
    let buf: Vec<u8> = vec![2, 0xBF, 0xC0];
    let mut pos: usize = 0;
    assert_eq!(read_string(&buf, &mut pos), Err(WireError::InvalidEncoding));
}

#[test]
fn string_truncated() {
    let buf: Vec<u8> = vec![5, b'a', b'b'];
    let mut pos: usize = 0;
    assert_eq!(read_string(&buf, &mut pos), Err(WireError::FramingError));
}

#[test]
fn uuid_roundtrip() {
    let id = UniqueId { hi: 0x0011_2233_4455_6677, lo: 0x8899_AABB_CCDD_EEFF };
    let mut buf: Vec<u8> = Vec::new();
    write_uuid(&mut buf, &id);
    assert_eq!(buf.len(), 16);
    assert_eq!(buf[0], 0x00);
    assert_eq!(buf[15], 0xFF);
    let mut pos: usize = 0;
    assert_eq!(read_uuid(&buf, &mut pos).unwrap(), id);
    assert_eq!(pos, 16);
}

#[test]
fn uuid_truncated() {
    let buf: Vec<u8> = vec![0; 15];
    let mut pos: usize = 0;
    assert_eq!(read_uuid(&buf, &mut pos), Err(WireError::FramingError));
}
