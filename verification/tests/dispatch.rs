use rustmine::data::{write_long, write_string, write_varint};
use rustmine::error::WireError;
use rustmine::event::packet_event_tag;
use rustmine::packet::{read_packet_for_state, AnyPacket};
use rustmine::player::State;

#[test]
fn status_ids_decode_in_status_state() {
    let p = read_packet_for_state(&State::Status, 0, Vec::new()).unwrap();
    assert!(matches!(p, AnyPacket::StatusRequest(_)));

    let mut buf: Vec<u8> = Vec::new();
    write_long(&mut buf, 42);
    let p = read_packet_for_state(&State::Status, 1, buf).unwrap();
    match p {
        AnyPacket::StatusPing(ping) => assert_eq!(ping.payload, 42),
        other => panic!("decoded the wrong packet: {:?}", other),
    }
}

#[test]
fn status_id_in_login_state_is_unknown() {
    // ID 1 is the Status ping; Login registers no decoder for it, so it is
    // never silently decoded as the Status-state type.
    let mut buf: Vec<u8> = Vec::new();
    write_long(&mut buf, 42);
    assert_eq!(
        read_packet_for_state(&State::Login, 1, buf).unwrap_err(),
        WireError::UnknownPacketId
    );
}

#[test]
fn login_ids_decode_in_login_state() {
    let mut buf: Vec<u8> = Vec::new();
    write_string(&mut buf, "alice");
    rustmine::data::write_uuid(&mut buf, &rustmine::data::UniqueId { hi: 1, lo: 2 });
    let p = read_packet_for_state(&State::Login, 0, buf).unwrap();
    assert!(matches!(p, AnyPacket::LoginStart(_)));

    let p = read_packet_for_state(&State::Login, 3, Vec::new()).unwrap();
    assert!(matches!(p, AnyPacket::LoginAcknowledged(_)));
}

#[test]
fn configuration_table() {
    let mut info: Vec<u8> = Vec::new();
    write_string(&mut info, "en_US");
    write_varint(&mut info, 8);
    write_varint(&mut info, 0);
    rustmine::data::write_bool(&mut info, true);
    rustmine::data::write_byte(&mut info, 0);
    write_varint(&mut info, 0);
    rustmine::data::write_bool(&mut info, false);
    rustmine::data::write_bool(&mut info, true);
    assert!(matches!(
        read_packet_for_state(&State::Configuration, 0, info).unwrap(),
        AnyPacket::ClientInformation(_)
    ));
    assert!(matches!(
        read_packet_for_state(&State::Configuration, 3, Vec::new()).unwrap(),
        AnyPacket::FinishConfiguration(_)
    ));
    assert_eq!(
        read_packet_for_state(&State::Configuration, 1, Vec::new()).unwrap_err(),
        WireError::UnknownPacketId
    );
}

#[test]
fn handshake_state_accepts_only_id_zero() {
    assert_eq!(
        read_packet_for_state(&State::Handshake, 1, Vec::new()).unwrap_err(),
        WireError::UnknownPacketId
    );
}

#[test]
fn play_and_transfer_register_no_decoders() {
    assert_eq!(
        read_packet_for_state(&State::Play, 0, Vec::new()).unwrap_err(),
        WireError::UnknownPacketId
    );
    assert_eq!(
        read_packet_for_state(&State::Transfer, 0, Vec::new()).unwrap_err(),
        WireError::UnknownPacketId
    );
}

#[test]
fn packet_event_tags_are_state_scoped() {
    let handshake = packet_event_tag(&State::Handshake, 0).unwrap();
    let status_request = packet_event_tag(&State::Status, 0).unwrap();
    let login_start = packet_event_tag(&State::Login, 0).unwrap();
    let login_ack = packet_event_tag(&State::Login, 3).unwrap();
    // the same numeric packet ID gets a different event per state
    assert_ne!(handshake, status_request);
    assert_ne!(status_request, login_start);
    assert_ne!(login_start, login_ack);
    // packets outside the table publish no event
    assert!(packet_event_tag(&State::Status, 1).is_none());
    assert!(packet_event_tag(&State::Configuration, 0).is_none());
}

#[test]
fn state_ids() {
    assert_eq!(State::Handshake.id(), 0);
    assert_eq!(State::Status.id(), 1);
    assert_eq!(State::Login.id(), 2);
    assert_eq!(State::Transfer.id(), 3);
    assert_eq!(State::Play.id(), 4);
    assert_eq!(State::Configuration.id(), 5);
}
