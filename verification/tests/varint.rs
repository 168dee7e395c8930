use rustmine::data::{read_varint, varint_size, write_varint};
use rustmine::error::WireError;

fn roundtrip(v: u32) {
    let mut buf: Vec<u8> = Vec::new();
    write_varint(&mut buf, v);
    assert_eq!(buf.len(), varint_size(v));
    let mut pos: usize = 0;
    let decoded = read_varint(&buf, &mut pos).unwrap();
    assert_eq!(decoded, v);
    assert_eq!(pos, buf.len());
}

#[test]
fn varint_roundtrip_small_values() {
    roundtrip(0);
    roundtrip(1);
    roundtrip(127);
    roundtrip(128);
    roundtrip(300);
}

#[test]
fn varint_roundtrip_large_values() {
    roundtrip(0xFFFF);
    roundtrip(0x1F_FFFF);
    roundtrip(0x0FFF_FFFF);
    roundtrip(u32::MAX);
}

#[test]
fn varint_known_encodings() {
    let mut buf: Vec<u8> = Vec::new();
    write_varint(&mut buf, 0);
    assert_eq!(buf, vec![0x00]);

    let mut buf: Vec<u8> = Vec::new();
    write_varint(&mut buf, 300);
    assert_eq!(buf, vec![0xAC, 0x02]);

    let mut buf: Vec<u8> = Vec::new();
    write_varint(&mut buf, u32::MAX);
    assert_eq!(buf, vec![0xFF, 0xFF, 0xFF, 0xFF, 0x0F]);
}

#[test]
fn varint_sizes() {
    assert_eq!(varint_size(0), 1);
    assert_eq!(varint_size(127), 1);
    assert_eq!(varint_size(128), 2);
    assert_eq!(varint_size(16383), 2);
    assert_eq!(varint_size(16384), 3);
    assert_eq!(varint_size(u32::MAX), 5);
}

#[test]
fn varint_too_many_groups_is_malformed() {
    // Six groups with the continuation bit set: no u32 needs that many.
    let buf: Vec<u8> = vec![0x80, 0x80, 0x80, 0x80, 0x80, 0x80];
    let mut pos: usize = 0;
    assert_eq!(read_varint(&buf, &mut pos), Err(WireError::MalformedVarint));
}

#[test]
fn varint_truncated_is_framing_error() {
    let buf: Vec<u8> = vec![0x80, 0x80];
    let mut pos: usize = 0;
    assert_eq!(read_varint(&buf, &mut pos), Err(WireError::FramingError));

    let empty: Vec<u8> = Vec::new();
    let mut pos: usize = 0;
    assert_eq!(read_varint(&empty, &mut pos), Err(WireError::FramingError));
}

#[test]
fn varint_reads_resume_at_cursor() {
    let mut buf: Vec<u8> = Vec::new();
    write_varint(&mut buf, 7);
    write_varint(&mut buf, 300);
    let mut pos: usize = 0;
    assert_eq!(read_varint(&buf, &mut pos).unwrap(), 7);
    assert_eq!(read_varint(&buf, &mut pos).unwrap(), 300);
    assert_eq!(pos, buf.len());
}
