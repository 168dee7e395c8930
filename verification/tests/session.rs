use rustmine::config::ServerConfig;
use rustmine::data::UniqueId;
use rustmine::error::WireError;
use rustmine::packet::serverbound::{
    ClientKnownPacksPacket, HandshakePacket, LoginAcknowledgedPacket, LoginStartPacket,
    StatusPingPacket, StatusRequestPacket,
};
use rustmine::packet::{read_packet_for_state, read_packet_from_bytes, write_packet, AnyPacket};
use rustmine::player::{Session, SessionPhase, State};
use rustmine::RustmineServer;

fn test_server() -> RustmineServer {
    let mut server = RustmineServer::new(ServerConfig::default());
    server.status_json = String::from(
        "{\"version\":{\"name\":\"Rustmine\",\"protocol\":771},\
         \"players\":{\"max\":0,\"online\":0,\"sample\":[]},\
         \"description\":{\"text\":\"hello\"},\"enforcesSecureChat\":false}",
    );
    server
}

fn handshake(next_state: State) -> AnyPacket {
    AnyPacket::Handshake(HandshakePacket {
        protocol: 771,
        server_address: String::from("localhost"),
        port: 25565,
        next_state,
    })
}

#[test]
fn handshake_rejection_leaves_state_unchanged() {
    // Values other than Status/Login/Transfer fail with InvalidNextState and
    // the connection state remains Handshake.
    for bad in [State::Handshake, State::Play, State::Configuration] {
        let mut session = Session::new();
        let p = HandshakePacket {
            protocol: 771,
            server_address: String::from("localhost"),
            port: 25565,
            next_state: bad,
        };
        assert_eq!(session.handle_handshake(&p), Err(WireError::InvalidNextState));
        assert_eq!(session.state, State::Handshake);
        assert_eq!(session.phase, SessionPhase::AwaitHandshake);
    }
}

#[test]
fn handshake_reaches_each_declared_state() {
    for (next, state, phase) in [
        (State::Status, State::Status, SessionPhase::AwaitStatusRequest),
        (State::Login, State::Login, SessionPhase::AwaitLoginStart),
        (State::Transfer, State::Transfer, SessionPhase::InTransfer),
    ] {
        let mut session = Session::new();
        let server = test_server();
        let replies = session.handle_packet(handshake(next), &server).unwrap();
        assert!(replies.is_empty());
        assert_eq!(session.state, state);
        assert_eq!(session.phase, phase);
    }
}

/// The full status exchange over real frames: handshake, request, response
/// with the configured version, ping, pong.
#[test]
fn end_to_end_status_exchange() {
    let server = test_server();
    let mut session = Session::new();

    // client: Handshake(protocol=771, address="localhost", port=25565, next=Status)
    let wire = write_packet(&handshake(State::Status), 0).unwrap();
    let (_, id, payload) = read_packet_from_bytes(&wire, 0).unwrap();
    let packet = read_packet_for_state(&session.state, id, payload).unwrap();
    let replies = session.handle_packet(packet, &server).unwrap();
    assert!(replies.is_empty());
    assert_eq!(session.state, State::Status);

    // client: StatusRequest -> server: StatusResponse with the configured version
    let wire = write_packet(&AnyPacket::StatusRequest(StatusRequestPacket {}), 0).unwrap();
    let (_, id, payload) = read_packet_from_bytes(&wire, 0).unwrap();
    let packet = read_packet_for_state(&session.state, id, payload).unwrap();
    let replies = session.handle_packet(packet, &server).unwrap();
    assert_eq!(replies.len(), 1);
    let wire = write_packet(&replies[0], 0).unwrap();
    let (_, id, payload) = read_packet_from_bytes(&wire, 0).unwrap();
    assert_eq!(id, 0);
    let mut pos: usize = 0;
    let json = rustmine::data::read_string(&payload, &mut pos).unwrap();
    let value: serde_json::Value = serde_json::from_str(&json).unwrap();
    assert_eq!(value["version"]["name"], "Rustmine");
    assert_eq!(value["version"]["protocol"], 771);

    // client: StatusPing(42) -> server: StatusPong(42)
    let wire = write_packet(&AnyPacket::StatusPing(StatusPingPacket { payload: 42 }), 0).unwrap();
    let (_, id, payload) = read_packet_from_bytes(&wire, 0).unwrap();
    let packet = read_packet_for_state(&session.state, id, payload).unwrap();
    let replies = session.handle_packet(packet, &server).unwrap();
    assert_eq!(replies.len(), 1);
    match &replies[0] {
        AnyPacket::StatusPong(pong) => assert_eq!(pong.payload, 42),
        other => panic!("expected a pong, got {:?}", other),
    }
}

#[test]
fn login_and_configuration_reach_play() {
    let server = test_server();
    let mut session = Session::new();

    session.handle_packet(handshake(State::Login), &server).unwrap();
    assert_eq!(session.state, State::Login);

    // LoginStart -> LoginSuccess echoing name and id, profile established
    let login = AnyPacket::LoginStart(LoginStartPacket {
        username: String::from("alice"),
        uuid: UniqueId { hi: 5, lo: 6 },
    });
    let replies = session.handle_packet(login, &server).unwrap();
    assert_eq!(replies.len(), 1);
    match &replies[0] {
        AnyPacket::LoginSuccess(s) => {
            assert_eq!(s.username, "alice");
            assert_eq!(s.uuid, UniqueId { hi: 5, lo: 6 });
        },
        other => panic!("expected login success, got {:?}", other),
    }
    let profile = session.game_profile.as_ref().unwrap();
    assert_eq!(profile.username, "alice");
    assert_eq!(profile.uuid, UniqueId { hi: 5, lo: 6 });

    // acknowledgement moves the connection into Configuration
    let replies = session
        .handle_packet(AnyPacket::LoginAcknowledged(LoginAcknowledgedPacket {}), &server)
        .unwrap();
    assert!(replies.is_empty());
    assert_eq!(session.state, State::Configuration);

    // brand message, then client information: the server answers with its
    // own brand and its known packs
    let brand = rustmine::packet::serverbound::ConfigurationPluginMessagePacket {
        channel: String::from("minecraft:brand"),
        data: b"vanilla".to_vec(),
    };
    let replies = session
        .handle_packet(AnyPacket::ServerboundPluginMessage(brand), &server)
        .unwrap();
    assert!(replies.is_empty());

    let info = rustmine::packet::serverbound::ClientInformationConfigPacket {
        locale: String::from("en_US"),
        view_distance: 10,
        chat_mode: 0,
        chat_colors: true,
        skin_parts: 0x7F,
        main_hand: 1,
        text_filtering: false,
        server_listing: true,
    };
    let replies = session.handle_packet(AnyPacket::ClientInformation(info), &server).unwrap();
    assert_eq!(replies.len(), 2);
    match &replies[0] {
        AnyPacket::ClientboundPluginMessage(m) => {
            assert_eq!(m.channel, "minecraft:brand");
            assert_eq!(m.data, b"Rustmine");
        },
        other => panic!("expected the brand reply, got {:?}", other),
    }
    match &replies[1] {
        AnyPacket::SelectKnownPacks(kp) => {
            assert_eq!(kp.entries.len(), 1);
            assert_eq!(kp.entries[0].name, "minecraft:core");
        },
        other => panic!("expected the known packs, got {:?}", other),
    }
    assert_eq!(session.info.brand, "vanilla");
    assert_eq!(session.info.locale, "en_US");
    assert_eq!(session.info.view_distance, 10);

    // the client's known packs, then the finish acknowledgement
    let packs = AnyPacket::ClientKnownPacks(ClientKnownPacksPacket {
        known_packs: vec![rustmine::common::ConfigKnownPackEntry::minecraft_core()],
    });
    let replies = session.handle_packet(packs, &server).unwrap();
    assert_eq!(replies.len(), 1);
    assert!(matches!(
        replies[0],
        AnyPacket::FinishConfiguration(_)
    ));

    let ack = AnyPacket::FinishConfiguration(
        rustmine::packet::clientbound::FinishConfigurationPacket,
    );
    let replies = session.handle_packet(ack, &server).unwrap();
    assert!(replies.is_empty());
    assert_eq!(session.state, State::Play);
    assert_eq!(session.phase, SessionPhase::InPlay);
}

#[test]
fn out_of_sequence_packet_is_a_protocol_error() {
    let server = test_server();
    let mut session = Session::new();
    session.handle_packet(handshake(State::Status), &server).unwrap();
    // a ping before the status request is out of sequence
    let r = session.handle_packet(AnyPacket::StatusPing(StatusPingPacket { payload: 1 }), &server);
    assert_eq!(r.unwrap_err(), WireError::ProtocolError);
    assert_eq!(session.phase, SessionPhase::AwaitStatusRequest);
}

#[test]
fn wrong_brand_channel_is_a_protocol_error() {
    let server = test_server();
    let mut session = Session::new();
    session.handle_packet(handshake(State::Login), &server).unwrap();
    session
        .handle_packet(
            AnyPacket::LoginStart(LoginStartPacket {
                username: String::from("bob"),
                uuid: UniqueId { hi: 0, lo: 1 },
            }),
            &server,
        )
        .unwrap();
    session
        .handle_packet(AnyPacket::LoginAcknowledged(LoginAcknowledgedPacket {}), &server)
        .unwrap();
    let wrong = rustmine::packet::serverbound::ConfigurationPluginMessagePacket {
        channel: String::from("minecraft:other"),
        data: Vec::new(),
    };
    session
        .handle_packet(AnyPacket::ServerboundPluginMessage(wrong), &server)
        .unwrap();
    let info = rustmine::packet::serverbound::ClientInformationConfigPacket {
        locale: String::from("en_US"),
        view_distance: 2,
        chat_mode: 0,
        chat_colors: false,
        skin_parts: 0,
        main_hand: 0,
        text_filtering: false,
        server_listing: false,
    };
    let r = session.handle_packet(AnyPacket::ClientInformation(info), &server);
    assert_eq!(r.unwrap_err(), WireError::ProtocolError);
    assert_eq!(session.phase, SessionPhase::AwaitClientInformation);
}
