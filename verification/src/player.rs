//! The per-connection protocol state and the connection state machine.

use vstd::prelude::*;
use vstd::string::StringExecFns;
use vstd::utf8::{decode_utf8, encode_utf8, valid_utf8};

use crate::error::WireError;
use crate::packet::clientbound::{
    ConfigSelectKnownPacksPacket, FinishConfigurationPacket, LoginSuccessPacket,
    StatusPongPacket, StatusResponsePacket,
};
use crate::packet::serverbound::{
    ClientInformationConfigPacket, ConfigurationPluginMessagePacket, HandshakePacket,
};
use crate::packet::AnyPacket;
use crate::RustmineServer;

verus! {

/// The connection-local protocol phase. Exactly one is active per connection
/// at any instant; packet IDs are meaningful only within the active state.
#[derive(Clone, PartialEq, Eq, Structural, Debug)]
pub enum State {
    Handshake,
    Play,
    Login,
    Transfer,
    Status,
    Configuration,
}

/// The numeric value a state is named by on the wire, where one exists: the
/// handshake's "next state" field uses 1, 2 and 3.
pub open spec fn state_id(s: State) -> u32 {
    match s {
        State::Handshake => 0,
        State::Status => 1,
        State::Login => 2,
        State::Transfer => 3,
        State::Play => 4,
        State::Configuration => 5,
    }
}

impl State {
    /// Returns the id of this [`State`].
    pub fn id(&self) -> (r: u32)
        ensures
            r == state_id(*self),
    {
        match self {
            State::Handshake => 0,
            State::Status => 1,
            State::Login => 2,
            State::Transfer => 3,
            State::Play => 4,
            State::Configuration => 5,
        }
    }
}

/// What the client reports of itself during configuration, plus the brand
/// carried by the first plugin message.
#[derive(Clone, Debug)]
pub struct PlayerClientInfo {
    pub brand: String,
    pub locale: String,
    pub view_distance: i8,
    pub chat_mode: i32,
    pub chat_colors: bool,
    pub skin_parts: u8,
    pub main_hand: u8,
    pub text_filtering: bool,
    pub server_listing: bool,
}

impl PlayerClientInfo {
    /// Whether every field still holds its initial value.
    pub open spec fn is_initial(self) -> bool {
        &&& self.brand@ == Seq::<char>::empty()
        &&& self.locale@ == Seq::<char>::empty()
        &&& self.view_distance == 0i8
        &&& self.chat_mode == 0i32
        &&& self.chat_colors == false
        &&& self.skin_parts == 0u8
        &&& self.main_hand == 0u8
        &&& self.text_filtering == false
        &&& self.server_listing == false
    }
}

impl Default for PlayerClientInfo {
    /// Empty strings and zeroes, until the client reports otherwise.
    fn default() -> (r: Self)
        ensures
            r.is_initial(),
    {
        Self {
            brand: String::new(),
            locale: String::new(),
            view_distance: 0,
            chat_mode: 0,
            chat_colors: false,
            skin_parts: 0,
            main_hand: 0,
            text_filtering: false,
            server_listing: false,
        }
    }
}

/// The identity established for a connection once login has succeeded.
#[derive(Clone, Debug)]
pub struct GameProfile {
    pub username: String,
    pub uuid: crate::data::UniqueId,
}

// ---------------------------------------------------------------------------
// The connection session
// ---------------------------------------------------------------------------

/// Where within the protocol exchange a connection stands: which packet the
/// server will accept next. Everything else arriving is out of sequence.
#[derive(Clone, Copy, PartialEq, Eq, Structural, Debug)]
pub enum SessionPhase {
    AwaitHandshake,
    AwaitStatusRequest,
    AwaitStatusPing,
    StatusComplete,
    AwaitLoginStart,
    AwaitLoginAcknowledged,
    AwaitBrandMessage,
    AwaitClientInformation,
    AwaitKnownPacks,
    AwaitFinishAck,
    InPlay,
    InTransfer,
}

/// The protocol-relevant state of one connection: the active protocol
/// state, the exchange phase within it, what the client has reported of
/// itself, the identity established at login, the compression threshold
/// (zero: disabled), and the brand message held until the client
/// information arrives.
pub struct Session {
    pub state: State,
    pub phase: SessionPhase,
    pub info: PlayerClientInfo,
    pub game_profile: Option<GameProfile>,
    pub compression_threshold: u32,
    pub pending_brand: Option<ConfigurationPluginMessagePacket>,
}

/// What the client information packet leaves in the client-info record: the
/// brand decoded from the held plugin message, and each reported setting,
/// the hand narrowed to a byte.
pub open spec fn client_info_applied(
    info: PlayerClientInfo,
    ci: ClientInformationConfigPacket,
    brand_data: Seq<u8>,
) -> bool {
    &&& info.brand@ == decode_utf8(brand_data)
    &&& info.locale@ == ci.locale@
    &&& info.view_distance == ci.view_distance
    &&& info.chat_mode == ci.chat_mode
    &&& info.chat_colors == ci.chat_colors
    &&& info.skin_parts == ci.skin_parts
    &&& info.main_hand == ci.main_hand as u8
    &&& info.text_filtering == ci.text_filtering
    &&& info.server_listing == ci.server_listing
}

/// The error, if any, with which the session refuses `p` in state `s`: an
/// unexpected packet for the phase is out of sequence; a handshake naming
/// an unreachable state is invalid; a brand message on the wrong channel or
/// with bytes that are not UTF-8 fails when the client information arrives.
pub open spec fn session_step_err(s: Session, p: AnyPacket) -> Option<WireError> {
    match (s.phase, p) {
        (SessionPhase::AwaitHandshake, AnyPacket::Handshake(h)) => if h.next_state == State::Status
            || h.next_state == State::Login || h.next_state == State::Transfer {
            None
        } else {
            Some(WireError::InvalidNextState)
        },
        (SessionPhase::AwaitStatusRequest, AnyPacket::StatusRequest(_)) => None,
        (SessionPhase::AwaitStatusPing, AnyPacket::StatusPing(_)) => None,
        (SessionPhase::AwaitLoginStart, AnyPacket::LoginStart(_)) => None,
        (SessionPhase::AwaitLoginAcknowledged, AnyPacket::LoginAcknowledged(_)) => None,
        (SessionPhase::AwaitBrandMessage, AnyPacket::ServerboundPluginMessage(_)) => None,
        (SessionPhase::AwaitClientInformation, AnyPacket::ClientInformation(_)) => match s.pending_brand {
            None => Some(WireError::ProtocolError),
            Some(pm) => if pm.channel@ != "minecraft:brand"@ {
                Some(WireError::ProtocolError)
            } else if !valid_utf8(pm.data@) {
                Some(WireError::InvalidEncoding)
            } else {
                None
            },
        },
        (SessionPhase::AwaitKnownPacks, AnyPacket::ClientKnownPacks(_)) => None,
        (SessionPhase::AwaitFinishAck, AnyPacket::FinishConfiguration(_)) => None,
        _ => Some(WireError::ProtocolError),
    }
}

/// What an accepted step does: how the session moves from `s` to `s2` and
/// which replies it hands back to be written, phase by phase.
pub open spec fn session_step_ok(
    s: Session,
    p: AnyPacket,
    server: RustmineServer,
    s2: Session,
    replies: Seq<AnyPacket>,
) -> bool {
    match (s.phase, p) {
        (SessionPhase::AwaitHandshake, AnyPacket::Handshake(h)) => {
            &&& replies.len() == 0
            &&& (h.next_state == State::Status ==> s2 == (Session {
                state: State::Status,
                phase: SessionPhase::AwaitStatusRequest,
                ..s
            }))
            &&& (h.next_state == State::Login ==> s2 == (Session {
                state: State::Login,
                phase: SessionPhase::AwaitLoginStart,
                ..s
            }))
            &&& (h.next_state == State::Transfer ==> s2 == (Session {
                state: State::Transfer,
                phase: SessionPhase::InTransfer,
                ..s
            }))
        },
        (SessionPhase::AwaitStatusRequest, AnyPacket::StatusRequest(_)) => {
            &&& s2 == (Session { phase: SessionPhase::AwaitStatusPing, ..s })
            &&& replies.len() == 1
            &&& (replies[0] matches AnyPacket::StatusResponse(resp) && resp.response@
                == server.status_json@)
        },
        (SessionPhase::AwaitStatusPing, AnyPacket::StatusPing(q)) => {
            &&& s2 == (Session { phase: SessionPhase::StatusComplete, ..s })
            &&& replies.len() == 1
            &&& (replies[0] matches AnyPacket::StatusPong(pong) && pong.payload == q.payload)
        },
        (SessionPhase::AwaitLoginStart, AnyPacket::LoginStart(ls)) => {
            &&& s2.state == s.state
            &&& s2.phase == SessionPhase::AwaitLoginAcknowledged
            &&& s2.info == s.info
            &&& s2.compression_threshold == s.compression_threshold
            &&& s2.pending_brand == s.pending_brand
            &&& (s2.game_profile matches Some(gp) && gp.username@ == ls.username@ && gp.uuid
                == ls.uuid)
            &&& replies.len() == 1
            &&& (replies[0] matches AnyPacket::LoginSuccess(suc) && suc.username@ == ls.username@
                && suc.uuid == ls.uuid)
        },
        (SessionPhase::AwaitLoginAcknowledged, AnyPacket::LoginAcknowledged(_)) => {
            &&& s2 == (Session {
                state: State::Configuration,
                phase: SessionPhase::AwaitBrandMessage,
                ..s
            })
            &&& replies.len() == 0
        },
        (SessionPhase::AwaitBrandMessage, AnyPacket::ServerboundPluginMessage(m)) => {
            &&& s2 == (Session {
                pending_brand: Some(m),
                phase: SessionPhase::AwaitClientInformation,
                ..s
            })
            &&& replies.len() == 0
        },
        (SessionPhase::AwaitClientInformation, AnyPacket::ClientInformation(ci)) => {
            &&& (s.pending_brand matches Some(pm) && client_info_applied(s2.info, ci, pm.data@))
            &&& s2.state == s.state
            &&& s2.phase == SessionPhase::AwaitKnownPacks
            &&& s2.pending_brand is None
            &&& s2.game_profile == s.game_profile
            &&& s2.compression_threshold == s.compression_threshold
            &&& replies.len() == 2
            &&& (replies[0] matches AnyPacket::ClientboundPluginMessage(bp) && bp.channel@
                == "minecraft:brand"@ && bp.data@ == encode_utf8(server.brand_name@))
            &&& (replies[1] matches AnyPacket::SelectKnownPacks(kp) && kp@.len() == 1 && kp@[0].name
                == "minecraft:core"@ && kp@[0].version == "1.21.6"@)
        },
        (SessionPhase::AwaitKnownPacks, AnyPacket::ClientKnownPacks(_)) => {
            &&& s2 == (Session { phase: SessionPhase::AwaitFinishAck, ..s })
            &&& replies.len() == 1
            &&& (replies[0] matches AnyPacket::FinishConfiguration(_))
        },
        (SessionPhase::AwaitFinishAck, AnyPacket::FinishConfiguration(_)) => {
            &&& s2 == (Session { state: State::Play, phase: SessionPhase::InPlay, ..s })
            &&& replies.len() == 0
        },
        _ => false,
    }
}

impl Session {
    /// A fresh connection: the Handshake state, awaiting its one packet,
    /// nothing reported, nobody identified, compression off.
    pub fn new() -> (r: Session)
        ensures
            r.state == State::Handshake,
            r.phase == SessionPhase::AwaitHandshake,
            r.info.is_initial(),
            r.game_profile is None,
            r.compression_threshold == 0u32,
            r.pending_brand is None,
    {
        Session {
            state: State::Handshake,
            phase: SessionPhase::AwaitHandshake,
            info: Default::default(),
            game_profile: None,
            compression_threshold: 0,
            pending_brand: None,
        }
    }

    /// Handles the handshake: moves to the state its "next state" field
    /// names — Status, Login or Transfer — and fails with
    /// `InvalidNextState`, changing nothing, on any other value.
    pub fn handle_handshake(&mut self, handshake: &HandshakePacket) -> (r: Result<(), WireError>)
        ensures
            match r {
                Ok(_) => {
                    &&& (handshake.next_state == State::Status ==> *final(self) == (Session {
                        state: State::Status,
                        phase: SessionPhase::AwaitStatusRequest,
                        ..*old(self)
                    }))
                    &&& (handshake.next_state == State::Login ==> *final(self) == (Session {
                        state: State::Login,
                        phase: SessionPhase::AwaitLoginStart,
                        ..*old(self)
                    }))
                    &&& (handshake.next_state == State::Transfer ==> *final(self) == (Session {
                        state: State::Transfer,
                        phase: SessionPhase::InTransfer,
                        ..*old(self)
                    }))
                    &&& (handshake.next_state == State::Status || handshake.next_state
                        == State::Login || handshake.next_state == State::Transfer)
                },
                Err(e) => (e == WireError::InvalidNextState && *final(self) == *old(self)
                    && handshake.next_state != State::Status && handshake.next_state
                    != State::Login && handshake.next_state != State::Transfer),
            },
    {
        match handshake.next_state {
            State::Status => {
                self.state = State::Status;
                self.phase = SessionPhase::AwaitStatusRequest;
                Ok(())
            },
            State::Login => {
                self.state = State::Login;
                self.phase = SessionPhase::AwaitLoginStart;
                Ok(())
            },
            State::Transfer => {
                self.state = State::Transfer;
                self.phase = SessionPhase::InTransfer;
                Ok(())
            },
            _ => Err(WireError::InvalidNextState),
        }
    }

    /// Records what the client reported: the plugin message must ride the
    /// `minecraft:brand` channel (else a protocol error) and carry UTF-8
    /// (else an invalid encoding); then every setting is copied into the
    /// client-info record. On failure nothing changes.
    pub fn update_client_info(
        &mut self,
        client_info_packet: &ClientInformationConfigPacket,
        config_plugin_message: &ConfigurationPluginMessagePacket,
    ) -> (r: Result<(), WireError>)
        ensures
            match r {
                Ok(_) => {
                    &&& config_plugin_message.channel@ == "minecraft:brand"@
                    &&& valid_utf8(config_plugin_message.data@)
                    &&& client_info_applied(
                        final(self).info,
                        *client_info_packet,
                        config_plugin_message.data@,
                    )
                    &&& final(self).state == old(self).state
                    &&& final(self).phase == old(self).phase
                    &&& final(self).game_profile == old(self).game_profile
                    &&& final(self).compression_threshold == old(self).compression_threshold
                    &&& final(self).pending_brand == old(self).pending_brand
                },
                Err(e) => (*final(self) == *old(self) && ((e == WireError::ProtocolError
                    && config_plugin_message.channel@ != "minecraft:brand"@) || (e
                    == WireError::InvalidEncoding && config_plugin_message.channel@
                    == "minecraft:brand"@ && !valid_utf8(config_plugin_message.data@)))),
            },
    {
        let expected = <String as StringExecFns>::from_str("minecraft:brand");
        if !(config_plugin_message.channel == expected) {
            return Err(WireError::ProtocolError);
        }
        let data_copy = config_plugin_message.data.clone();
        proof {
            assert(data_copy@ =~= config_plugin_message.data@);
        }
        let brand = match crate::data::string_from_utf8(data_copy) {
            Some(s) => s,
            None => {
                return Err(WireError::InvalidEncoding);
            },
        };
        self.info.brand = brand;
        self.info.locale = client_info_packet.locale.clone();
        self.info.view_distance = client_info_packet.view_distance;
        self.info.chat_mode = client_info_packet.chat_mode;
        self.info.chat_colors = client_info_packet.chat_colors;
        self.info.skin_parts = client_info_packet.skin_parts;
        self.info.main_hand = #[verifier::truncate] (client_info_packet.main_hand as u8);
        self.info.text_filtering = client_info_packet.text_filtering;
        self.info.server_listing = client_info_packet.server_listing;
        Ok(())
    }

    /// Establishes the connection's identity, once login has succeeded.
    pub fn set_game_profile(&mut self, profile: GameProfile)
        ensures
            *final(self) == (Session { game_profile: Some(profile), ..*old(self) }),
    {
        self.game_profile = Some(profile);
    }

    /// Feeds one decoded packet into the state machine: the session moves
    /// and hands back the packets to write, exactly as `session_step_ok`
    /// lays out, or refuses the packet with `session_step_err`'s error and
    /// stays put.
    pub fn handle_packet(&mut self, packet: AnyPacket, server: &RustmineServer) -> (r: Result<
        Vec<AnyPacket>,
        WireError,
    >)
        ensures
            match r {
                Ok(replies) => (session_step_err(*old(self), packet) is None && session_step_ok(
                    *old(self),
                    packet,
                    *server,
                    *final(self),
                    replies@,
                )),
                Err(e) => (session_step_err(*old(self), packet) == Some(e) && *final(self)
                    == *old(self)),
            },
    {
        match (self.phase, packet) {
            (SessionPhase::AwaitHandshake, AnyPacket::Handshake(h)) => {
                match self.handle_handshake(&h) {
                    Ok(_) => Ok(Vec::new()),
                    Err(e) => Err(e),
                }
            },
            (SessionPhase::AwaitStatusRequest, AnyPacket::StatusRequest(_)) => {
                self.phase = SessionPhase::AwaitStatusPing;
                let mut replies: Vec<AnyPacket> = Vec::new();
                replies.push(
                    AnyPacket::StatusResponse(
                        StatusResponsePacket { response: server.status_json.clone() },
                    ),
                );
                Ok(replies)
            },
            (SessionPhase::AwaitStatusPing, AnyPacket::StatusPing(q)) => {
                self.phase = SessionPhase::StatusComplete;
                let mut replies: Vec<AnyPacket> = Vec::new();
                replies.push(AnyPacket::StatusPong(StatusPongPacket { payload: q.payload }));
                Ok(replies)
            },
            (SessionPhase::AwaitLoginStart, AnyPacket::LoginStart(ls)) => {
                self.game_profile = Some(
                    GameProfile { username: ls.username.clone(), uuid: ls.uuid },
                );
                self.phase = SessionPhase::AwaitLoginAcknowledged;
                let mut replies: Vec<AnyPacket> = Vec::new();
                replies.push(
                    AnyPacket::LoginSuccess(
                        LoginSuccessPacket { username: ls.username, uuid: ls.uuid },
                    ),
                );
                Ok(replies)
            },
            (SessionPhase::AwaitLoginAcknowledged, AnyPacket::LoginAcknowledged(_)) => {
                self.state = State::Configuration;
                self.phase = SessionPhase::AwaitBrandMessage;
                Ok(Vec::new())
            },
            (SessionPhase::AwaitBrandMessage, AnyPacket::ServerboundPluginMessage(m)) => {
                self.pending_brand = Some(m);
                self.phase = SessionPhase::AwaitClientInformation;
                Ok(Vec::new())
            },
            (SessionPhase::AwaitClientInformation, AnyPacket::ClientInformation(ci)) => {
                let pm = match self.pending_brand.take() {
                    Some(pm) => pm,
                    None => {
                        return Err(WireError::ProtocolError);
                    },
                };
                match self.update_client_info(&ci, &pm) {
                    Ok(_) => {},
                    Err(e) => {
                        self.pending_brand = Some(pm);
                        return Err(e);
                    },
                }
                self.phase = SessionPhase::AwaitKnownPacks;
                let mut replies: Vec<AnyPacket> = Vec::new();
                replies.push(
                    AnyPacket::ClientboundPluginMessage(
                        crate::packet::clientbound::ConfigurationPluginMessagePacket::brand_packet(
                            server.brand_name.clone(),
                        ),
                    ),
                );
                let core_entry = crate::common::ConfigKnownPackEntry::minecraft_core();
                let mut entries: Vec<crate::common::ConfigKnownPackEntry> = Vec::new();
                entries.push(core_entry);
                let select = ConfigSelectKnownPacksPacket { entries };
                proof {
                    assert(select@ =~= seq![select.entries@[0]@]);
                }
                replies.push(AnyPacket::SelectKnownPacks(select));
                Ok(replies)
            },
            (SessionPhase::AwaitKnownPacks, AnyPacket::ClientKnownPacks(_)) => {
                self.phase = SessionPhase::AwaitFinishAck;
                let mut replies: Vec<AnyPacket> = Vec::new();
                replies.push(AnyPacket::FinishConfiguration(FinishConfigurationPacket));
                Ok(replies)
            },
            (SessionPhase::AwaitFinishAck, AnyPacket::FinishConfiguration(_)) => {
                self.state = State::Play;
                self.phase = SessionPhase::InPlay;
                Ok(Vec::new())
            },
            _ => Err(WireError::ProtocolError),
        }
    }
}

} // verus!
