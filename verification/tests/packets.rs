use rustmine::common::ConfigKnownPackEntry;
use rustmine::data::{write_string, write_uuid, write_varint, UniqueId};
use rustmine::error::WireError;
use rustmine::packet::clientbound::{
    ConfigSelectKnownPacksPacket, ConfigurationPluginMessagePacket as ClientboundPluginMessage,
    FinishConfigurationPacket, LoginSuccessPacket,
};
use rustmine::packet::serverbound::{
    ClientInformationConfigPacket, ClientKnownPacksPacket,
    ConfigurationPluginMessagePacket as ServerboundPluginMessage, HandshakePacket,
    LoginStartPacket, StatusPingPacket, StatusRequestPacket,
};
use rustmine::packet::{downcast_packet, upcast_packet, AnyPacket, Packet};
use rustmine::player::State;

fn handshake_payload(protocol: u32, address: &str, port: u16, next: u32) -> Vec<u8> {
    let mut buf: Vec<u8> = Vec::new();
    write_varint(&mut buf, protocol);
    write_string(&mut buf, address);
    rustmine::data::write_ushort(&mut buf, port);
    write_varint(&mut buf, next);
    buf
}

#[test]
fn handshake_decode() {
    let buf = handshake_payload(771, "localhost", 25565, 1);
    let p = HandshakePacket::read_from(0, buf).unwrap();
    assert_eq!(p.protocol, 771);
    assert_eq!(p.server_address, "localhost");
    assert_eq!(p.port, 25565);
    assert_eq!(p.next_state, State::Status);
}

#[test]
fn handshake_encode_decode_roundtrip() {
    let p = HandshakePacket {
        protocol: 771,
        server_address: String::from("example.net"),
        port: 4242,
        next_state: State::Login,
    };
    let mut buf: Vec<u8> = Vec::new();
    p.write_to(&mut buf);
    let q = HandshakePacket::read_from(0, buf).unwrap();
    assert_eq!(q.protocol, 771);
    assert_eq!(q.server_address, "example.net");
    assert_eq!(q.port, 4242);
    assert_eq!(q.next_state, State::Login);
}

#[test]
fn handshake_invalid_next_state() {
    for bad in [0u32, 4, 5, 99] {
        let buf = handshake_payload(771, "h", 1, bad);
        assert!(matches!(
            HandshakePacket::read_from(0, buf),
            Err(WireError::InvalidNextState)
        ));
    }
}

#[test]
fn handshake_id_mismatch() {
    let buf = handshake_payload(771, "h", 1, 1);
    assert!(matches!(HandshakePacket::read_from(9, buf), Err(WireError::IdMismatch)));
}

#[test]
fn handshake_truncated() {
    assert!(matches!(
        HandshakePacket::read_from(0, vec![0x83]),
        Err(WireError::FramingError)
    ));
}

#[test]
fn status_ping_decode() {
    let mut buf: Vec<u8> = Vec::new();
    rustmine::data::write_long(&mut buf, 42);
    let p = StatusPingPacket::read_from(1, buf).unwrap();
    assert_eq!(p.payload, 42);
    assert!(matches!(
        StatusPingPacket::read_from(0, vec![0; 8]),
        Err(WireError::IdMismatch)
    ));
}

#[test]
fn login_start_decode() {
    let mut buf: Vec<u8> = Vec::new();
    write_string(&mut buf, "steve");
    write_uuid(&mut buf, &UniqueId { hi: 17, lo: 34 });
    let p = LoginStartPacket::read_from(0, buf).unwrap();
    assert_eq!(p.username, "steve");
    assert_eq!(p.uuid, UniqueId { hi: 17, lo: 34 });
}

#[test]
fn login_success_encode() {
    let p = LoginSuccessPacket { username: String::from("steve"), uuid: UniqueId { hi: 0, lo: 7 } };
    let mut buf: Vec<u8> = Vec::new();
    p.write_to(&mut buf);
    // 16 identifier bytes, then the name string, then the empty property list
    assert_eq!(buf.len(), 16 + 1 + 5 + 1);
    assert_eq!(buf[15], 7);
    assert_eq!(&buf[17..22], b"steve");
    assert_eq!(buf[22], 0);
}

#[test]
fn client_information_decode() {
    let mut buf: Vec<u8> = Vec::new();
    write_string(&mut buf, "en_US");
    write_varint(&mut buf, 12); // view distance
    write_varint(&mut buf, 1); // chat mode
    rustmine::data::write_bool(&mut buf, true); // chat colors
    rustmine::data::write_byte(&mut buf, 0x7F); // skin parts
    write_varint(&mut buf, 1); // main hand
    rustmine::data::write_bool(&mut buf, false); // text filtering
    rustmine::data::write_bool(&mut buf, true); // server listing
    let p = ClientInformationConfigPacket::read_from(0, buf).unwrap();
    assert_eq!(p.locale, "en_US");
    assert_eq!(p.view_distance, 12);
    assert_eq!(p.chat_mode, 1);
    assert!(p.chat_colors);
    assert_eq!(p.skin_parts, 0x7F);
    assert_eq!(p.main_hand, 1);
    assert!(!p.text_filtering);
    assert!(p.server_listing);
}

#[test]
fn plugin_message_decode() {
    let mut buf: Vec<u8> = Vec::new();
    write_string(&mut buf, "minecraft:brand");
    write_varint(&mut buf, 4);
    buf.extend_from_slice(b"mine");
    let p = ServerboundPluginMessage::read_from(2, buf).unwrap();
    assert_eq!(p.channel, "minecraft:brand");
    assert_eq!(p.data, b"mine");
}

#[test]
fn known_packs_decode_joins_namespace() {
    let mut buf: Vec<u8> = Vec::new();
    write_varint(&mut buf, 2);
    for (ns, name, ver) in [("minecraft", "core", "1.21.6"), ("acme", "extras", "0.1")] {
        write_string(&mut buf, ns);
        write_string(&mut buf, name);
        write_string(&mut buf, ver);
    }
    let p = ClientKnownPacksPacket::read_from(7, buf).unwrap();
    assert_eq!(p.known_packs.len(), 2);
    assert_eq!(p.known_packs[0].name, "minecraft:core");
    assert_eq!(p.known_packs[0].version, "1.21.6");
    assert_eq!(p.known_packs[1].name, "acme:extras");
    assert_eq!(p.known_packs[1].version, "0.1");
}

#[test]
fn select_known_packs_encode_splits_at_colon() {
    let p = ConfigSelectKnownPacksPacket { entries: vec![ConfigKnownPackEntry::minecraft_core()] };
    let mut buf: Vec<u8> = Vec::new();
    p.write_to(&mut buf).unwrap();
    let mut expected: Vec<u8> = Vec::new();
    write_varint(&mut expected, 1);
    write_string(&mut expected, "minecraft");
    write_string(&mut expected, "core");
    write_string(&mut expected, "1.21.6");
    assert_eq!(buf, expected);
}

#[test]
fn select_known_packs_refuses_names_without_colon() {
    let p = ConfigSelectKnownPacksPacket {
        entries: vec![ConfigKnownPackEntry { name: String::from("nocolon"), version: String::from("1") }],
    };
    let mut buf: Vec<u8> = Vec::new();
    assert!(matches!(p.write_to(&mut buf), Err(WireError::ProtocolError)));
    assert!(buf.is_empty());
}

#[test]
fn brand_packet_carries_the_brand_bytes() {
    let p = ClientboundPluginMessage::brand_packet(String::from("Rustmine"));
    assert_eq!(p.channel, "minecraft:brand");
    assert_eq!(p.data, b"Rustmine");
}

#[test]
fn finish_configuration_roundtrip() {
    let p = FinishConfigurationPacket::read_from(3, Vec::new()).unwrap();
    let mut buf: Vec<u8> = Vec::new();
    p.write_to(&mut buf);
    assert!(buf.is_empty());
    assert!(matches!(
        FinishConfigurationPacket::read_from(1, Vec::new()),
        Err(WireError::IdMismatch)
    ));
}

#[test]
fn static_and_instance_ids_agree() {
    assert_eq!(<HandshakePacket as Packet>::id(), 0);
    assert_eq!(<StatusPingPacket as Packet>::id(), 1);
    assert_eq!(StatusRequestPacket {}.packet_id(), 0);
    assert_eq!(StatusPingPacket { payload: 9 }.packet_id(), 1);
    let any = AnyPacket::StatusPing(StatusPingPacket { payload: 9 });
    assert_eq!(any.packet_id(), 1);
}

#[test]
fn downcast_recovers_the_concrete_type() {
    let any = upcast_packet(StatusPingPacket { payload: 5 });
    let back: StatusPingPacket = downcast_packet(any).unwrap();
    assert_eq!(back.payload, 5);
}

#[test]
fn downcast_to_the_wrong_type_fails() {
    let any = upcast_packet(StatusPingPacket { payload: 5 });
    let wrong: Result<StatusRequestPacket, WireError> = downcast_packet(any);
    assert!(matches!(wrong, Err(WireError::TypeMismatch)));
}
