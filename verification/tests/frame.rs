use rustmine::packet::clientbound::StatusPongPacket;
use rustmine::packet::{read_packet_from_bytes, write_packet, write_packet_to_bytes, AnyPacket};
use rustmine::error::WireError;

fn frame_roundtrip(id: u32, payload: Vec<u8>, threshold: u32) -> Vec<u8> {
    let wire = write_packet_to_bytes(id, &payload, threshold).unwrap();
    let (_, got_id, got_payload) = read_packet_from_bytes(&wire, threshold).unwrap();
    assert_eq!(got_id, id);
    assert_eq!(got_payload, payload);
    wire
}

#[test]
fn frame_roundtrip_no_compression() {
    let wire = frame_roundtrip(0x2A, vec![1, 2, 3, 4, 5], 0);
    // outer length, id varint, payload verbatim
    assert_eq!(wire, vec![6, 0x2A, 1, 2, 3, 4, 5]);
}

#[test]
fn frame_roundtrip_empty_payload() {
    let wire = frame_roundtrip(0x00, Vec::new(), 0);
    assert_eq!(wire, vec![1, 0]);
}

#[test]
fn frame_below_threshold_is_sent_verbatim() {
    // id (1 byte) + 8 payload bytes = 9 < threshold 10: the zero indicator
    // marks the body as uncompressed.
    let wire = frame_roundtrip(0x01, vec![7; 8], 10);
    assert_eq!(wire[0], 10); // 9 body bytes + 1 indicator byte
    assert_eq!(wire[1], 0); // uncompressed indicator
    assert_eq!(wire[2], 0x01);
    assert_eq!(&wire[3..], &[7; 8]);
}

#[test]
fn frame_at_threshold_is_compressed() {
    // id (1 byte) + 9 payload bytes = 10 == threshold 10: compressed.
    let wire = frame_roundtrip(0x01, vec![7; 9], 10);
    assert_eq!(wire[1], 10); // the claimed uncompressed size
    // the rest is a zlib block, not the bytes themselves
    assert_ne!(&wire[2..], &[0x01, 7, 7, 7, 7, 7, 7, 7, 7, 7]);
}

#[test]
fn frame_compression_shrinks_repetitive_payloads() {
    let payload = vec![0x42; 4096];
    let wire = frame_roundtrip(0x05, payload, 64);
    assert!(wire.len() < 1024, "4096 repeated bytes should deflate far below 1024, got {}", wire.len());
}

#[test]
fn frame_zero_length_is_protocol_error() {
    let wire: Vec<u8> = vec![0];
    assert_eq!(read_packet_from_bytes(&wire, 0), Err(WireError::ProtocolError));
}

#[test]
fn frame_truncated_body_is_framing_error() {
    let wire: Vec<u8> = vec![5, 1];
    assert_eq!(read_packet_from_bytes(&wire, 0), Err(WireError::FramingError));
}

#[test]
fn frame_nonzero_indicator_below_threshold_is_protocol_error() {
    // body: [indicator 3][id 1]; 3 < threshold 10 but not the required 0
    let wire: Vec<u8> = vec![2, 3, 1];
    assert_eq!(read_packet_from_bytes(&wire, 10), Err(WireError::ProtocolError));
}

#[test]
fn frame_bad_zlib_block_is_framing_error() {
    // claims 100 (>= threshold 10) but the blob is not a zlib stream
    let wire: Vec<u8> = vec![4, 100, 1, 2, 3];
    assert_eq!(read_packet_from_bytes(&wire, 10), Err(WireError::FramingError));
}

#[test]
fn write_packet_frames_a_typed_packet() {
    let packet = AnyPacket::StatusPong(StatusPongPacket { payload: 0x1122_3344_5566_7788 });
    let wire = write_packet(&packet, 0).unwrap();
    let (_, id, payload) = read_packet_from_bytes(&wire, 0).unwrap();
    assert_eq!(id, 1);
    assert_eq!(payload, vec![0x11, 0x22, 0x33, 0x44, 0x55, 0x66, 0x77, 0x88]);
}

#[test]
fn write_packet_refuses_serverbound_only_types() {
    let packet = AnyPacket::LoginStart(rustmine::packet::serverbound::LoginStartPacket {
        username: String::from("alice"),
        uuid: rustmine::data::UniqueId { hi: 1, lo: 2 },
    });
    assert!(matches!(write_packet(&packet, 0), Err(WireError::ProtocolError)));
}

#[test]
fn write_packet_compresses_above_the_session_threshold() {
    let json = format!("{{\"filler\":\"{}\"}}", "x".repeat(2000));
    let packet = AnyPacket::StatusResponse(
        rustmine::packet::clientbound::StatusResponsePacket { response: json.clone() },
    );
    let wire = write_packet(&packet, 64).unwrap();
    assert!(wire.len() < json.len(), "a repetitive document should deflate");
    let (_, id, payload) = read_packet_from_bytes(&wire, 64).unwrap();
    assert_eq!(id, 0);
    let mut pos: usize = 0;
    assert_eq!(rustmine::data::read_string(&payload, &mut pos).unwrap(), json);
}
