//! Packets the server receives, by protocol state, with their exact decode
//! specifications.

use vstd::prelude::*;
use vstd::string::StringExecFns;

use crate::common::{ConfigKnownPackEntry, KnownPackView};
use crate::data;
use crate::error::WireError;
use crate::player::State;

verus! {

// ---------------------------------------------------------------------------
// Handshake state
// ---------------------------------------------------------------------------

/// The one packet of the Handshake state: the client names the protocol it
/// speaks, the address it dialed, and the state it wants to enter next.
#[derive(Clone, Debug)]
pub struct HandshakePacket {
    pub protocol: u32,
    pub server_address: String,
    pub port: u16,
    pub next_state: State,
}

/// The spec-level shape of a handshake.
pub struct HandshakeView {
    pub protocol: u32,
    pub server_address: Seq<char>,
    pub port: u16,
    pub next_state: State,
}

impl View for HandshakePacket {
    type V = HandshakeView;

    open spec fn view(&self) -> HandshakeView {
        HandshakeView {
            protocol: self.protocol,
            server_address: self.server_address@,
            port: self.port,
            next_state: self.next_state,
        }
    }
}

impl HandshakePacket {
    /// The payload encoding of a handshake: protocol varint, address string,
    /// big-endian port, then the next state's numeric id as a varint.
    pub open spec fn spec_encoding(self) -> Seq<u8> {
        data::varint_encoding(self.protocol) + data::string_encoding(self.server_address@)
            + data::u16_be(self.port) + data::varint_encoding(crate::player::state_id(
            self.next_state,
        ))
    }

    /// Decoding a handshake payload: protocol, address, port, then a "next
    /// state" field that must name Status (1), Login (2) or Transfer (3) —
    /// anything else fails with `InvalidNextState`.
    pub open spec fn spec_decode(id: u32, s: Seq<u8>) -> Result<HandshakeView, WireError> {
        if id != 0 {
            Err(WireError::IdMismatch)
        } else {
            match data::varint_decode(s) {
                Err(e) => Err(e),
                Ok((protocol, a)) => match data::string_decode(s.skip(a)) {
                    Err(e) => Err(e),
                    Ok((server_address, b)) => match data::u16_decode(s.skip(a + b)) {
                        Err(e) => Err(e),
                        Ok((port, c)) => match data::varint_decode(s.skip(a + b + c)) {
                            Err(e) => Err(e),
                            Ok((next, _)) => if next == 1 {
                                Ok(
                                    HandshakeView {
                                        protocol,
                                        server_address,
                                        port,
                                        next_state: State::Status,
                                    },
                                )
                            } else if next == 2 {
                                Ok(
                                    HandshakeView {
                                        protocol,
                                        server_address,
                                        port,
                                        next_state: State::Login,
                                    },
                                )
                            } else if next == 3 {
                                Ok(
                                    HandshakeView {
                                        protocol,
                                        server_address,
                                        port,
                                        next_state: State::Transfer,
                                    },
                                )
                            } else {
                                Err(WireError::InvalidNextState)
                            },
                        },
                    },
                },
            }
        }
    }

    /// Decodes a handshake from `buffer`, defensively checking `id` first.
    pub fn read_from(id: u32, buffer: Vec<u8>) -> (r: Result<Self, WireError>)
        ensures
            match Self::spec_decode(id, buffer@) {
                Ok(v) => (r matches Ok(p) && p@ == v),
                Err(e) => r == Err::<Self, WireError>(e),
            },
    {
        if id != 0 {
            return Err(WireError::IdMismatch);
        }
        proof {
            assert(buffer@.skip(0) =~= buffer@);
        }
        let mut position: usize = 0;
        let protocol = match data::read_varint(buffer.as_slice(), &mut position) {
            Ok(v) => v,
            Err(e) => {
                return Err(e);
            },
        };
        let server_address = match data::read_string(buffer.as_slice(), &mut position) {
            Ok(v) => v,
            Err(e) => {
                return Err(e);
            },
        };
        let port = match data::read_ushort(&buffer, &mut position) {
            Ok(v) => v,
            Err(e) => {
                return Err(e);
            },
        };
        let next = match data::read_varint(buffer.as_slice(), &mut position) {
            Ok(v) => v,
            Err(e) => {
                return Err(e);
            },
        };
        let next_state = match next {
            1 => State::Status,
            2 => State::Login,
            3 => State::Transfer,
            _ => {
                return Err(WireError::InvalidNextState);
            },
        };
        Ok(HandshakePacket { protocol, server_address, port, next_state })
    }

    /// Appends the payload encoding of this handshake to `buffer`.
    pub fn write_to(&self, buffer: &mut Vec<u8>)
        requires
            vstd::utf8::encode_utf8(self.server_address@).len() <= u32::MAX,
        ensures
            final(buffer)@ == old(buffer)@ + self.spec_encoding(),
    {
        data::write_varint(buffer, self.protocol);
        data::write_string(buffer, self.server_address.as_str());
        data::write_ushort(buffer, self.port);
        data::write_varint(buffer, self.next_state.id());
        proof {
            assert(buffer@ =~= old(buffer)@ + self.spec_encoding());
        }
    }
}

// ---------------------------------------------------------------------------
// Status state
// ---------------------------------------------------------------------------

/// The client's request for the server's status document. No payload.
#[derive(Clone, PartialEq, Eq, Structural, Debug)]
pub struct StatusRequestPacket {}

impl StatusRequestPacket {
    /// An empty payload.
    pub open spec fn spec_encoding(self) -> Seq<u8> {
        Seq::<u8>::empty()
    }

    /// Decoding ignores the payload entirely; only the id is checked.
    pub open spec fn spec_decode(id: u32, s: Seq<u8>) -> Result<StatusRequestPacket, WireError> {
        if id != 0 {
            Err(WireError::IdMismatch)
        } else {
            Ok(StatusRequestPacket {  })
        }
    }

    /// Decodes a status request, defensively checking `id`.
    pub fn read_from(id: u32, buffer: Vec<u8>) -> (r: Result<Self, WireError>)
        ensures
            r == Self::spec_decode(id, buffer@),
    {
        if id != 0 {
            return Err(WireError::IdMismatch);
        }
        Ok(StatusRequestPacket {  })
    }

    /// A status request has no payload bytes.
    pub fn write_to(&self, buffer: &mut Vec<u8>)
        ensures
            final(buffer)@ == old(buffer)@ + self.spec_encoding(),
    {
        proof {
            assert(buffer@ =~= old(buffer)@ + self.spec_encoding());
        }
    }
}

/// The client's ping: an arbitrary 64-bit payload the server must echo.
#[derive(Clone, PartialEq, Eq, Structural, Debug)]
pub struct StatusPingPacket {
    pub payload: u64,
}

impl StatusPingPacket {
    /// The eight payload bytes, big-endian.
    pub open spec fn spec_encoding(self) -> Seq<u8> {
        data::u64_be(self.payload)
    }

    /// Decoding reads the eight-byte payload.
    pub open spec fn spec_decode(id: u32, s: Seq<u8>) -> Result<StatusPingPacket, WireError> {
        if id != 1 {
            Err(WireError::IdMismatch)
        } else {
            match data::u64_decode(s) {
                Ok((payload, _)) => Ok(StatusPingPacket { payload }),
                Err(e) => Err(e),
            }
        }
    }

    /// Decodes a ping, defensively checking `id`.
    pub fn read_from(id: u32, buffer: Vec<u8>) -> (r: Result<Self, WireError>)
        ensures
            r == Self::spec_decode(id, buffer@),
    {
        if id != 1 {
            return Err(WireError::IdMismatch);
        }
        proof {
            assert(buffer@.skip(0) =~= buffer@);
        }
        let mut position: usize = 0;
        let payload = match data::read_long(buffer.as_slice(), &mut position) {
            Ok(v) => v,
            Err(e) => {
                return Err(e);
            },
        };
        Ok(StatusPingPacket { payload })
    }

    /// Appends the eight payload bytes to `buffer`.
    pub fn write_to(&self, buffer: &mut Vec<u8>)
        ensures
            final(buffer)@ == old(buffer)@ + self.spec_encoding(),
    {
        data::write_long(buffer, self.payload);
    }
}

// ---------------------------------------------------------------------------
// Login state
// ---------------------------------------------------------------------------

/// The client opens login by naming itself: username and identifier.
#[derive(Clone, Debug)]
pub struct LoginStartPacket {
    pub username: String,
    pub uuid: data::UniqueId,
}

/// The spec-level shape of a login start.
pub struct LoginStartView {
    pub username: Seq<char>,
    pub uuid: data::UniqueId,
}

impl View for LoginStartPacket {
    type V = LoginStartView;

    open spec fn view(&self) -> LoginStartView {
        LoginStartView { username: self.username@, uuid: self.uuid }
    }
}

impl LoginStartPacket {
    /// Decoding reads the username string, then the sixteen identifier
    /// bytes. This packet is only ever received, never sent.
    pub open spec fn spec_decode(id: u32, s: Seq<u8>) -> Result<LoginStartView, WireError> {
        if id != 0 {
            Err(WireError::IdMismatch)
        } else {
            match data::string_decode(s) {
                Err(e) => Err(e),
                Ok((username, a)) => match data::uuid_decode(s.skip(a)) {
                    Err(e) => Err(e),
                    Ok((uuid, _)) => Ok(LoginStartView { username, uuid }),
                },
            }
        }
    }

    /// Decodes a login start, defensively checking `id`.
    pub fn read_from(id: u32, buffer: Vec<u8>) -> (r: Result<Self, WireError>)
        ensures
            match Self::spec_decode(id, buffer@) {
                Ok(v) => (r matches Ok(p) && p@ == v),
                Err(e) => r == Err::<Self, WireError>(e),
            },
    {
        if id != 0 {
            return Err(WireError::IdMismatch);
        }
        proof {
            assert(buffer@.skip(0) =~= buffer@);
        }
        let mut position: usize = 0;
        let username = match data::read_string(buffer.as_slice(), &mut position) {
            Ok(v) => v,
            Err(e) => {
                return Err(e);
            },
        };
        let uuid = match data::read_uuid(buffer.as_slice(), &mut position) {
            Ok(v) => v,
            Err(e) => {
                return Err(e);
            },
        };
        Ok(LoginStartPacket { username, uuid })
    }
}

/// The client's acknowledgement that login is complete. No payload.
#[derive(Clone, PartialEq, Eq, Structural, Debug)]
pub struct LoginAcknowledgedPacket {}

impl LoginAcknowledgedPacket {
    /// An empty payload.
    pub open spec fn spec_encoding(self) -> Seq<u8> {
        Seq::<u8>::empty()
    }

    /// Decoding ignores the payload entirely; only the id is checked.
    pub open spec fn spec_decode(id: u32, s: Seq<u8>) -> Result<
        LoginAcknowledgedPacket,
        WireError,
    > {
        if id != 3 {
            Err(WireError::IdMismatch)
        } else {
            Ok(LoginAcknowledgedPacket {  })
        }
    }

    /// Decodes a login acknowledgement, defensively checking `id`.
    pub fn read_from(id: u32, buffer: Vec<u8>) -> (r: Result<Self, WireError>)
        ensures
            r == Self::spec_decode(id, buffer@),
    {
        if id != 3 {
            return Err(WireError::IdMismatch);
        }
        Ok(LoginAcknowledgedPacket {  })
    }

    /// A login acknowledgement has no payload bytes.
    pub fn write_to(&self, buffer: &mut Vec<u8>)
        ensures
            final(buffer)@ == old(buffer)@ + self.spec_encoding(),
    {
        proof {
            assert(buffer@ =~= old(buffer)@ + self.spec_encoding());
        }
    }
}

// ---------------------------------------------------------------------------
// Configuration state
// ---------------------------------------------------------------------------

/// The client's settings, sent once configuration begins.
#[derive(Clone, Debug)]
pub struct ClientInformationConfigPacket {
    pub locale: String,
    pub view_distance: i8,
    pub chat_mode: i32,
    pub chat_colors: bool,
    pub skin_parts: u8,
    pub main_hand: i32,
    pub text_filtering: bool,
    pub server_listing: bool,
}

/// The spec-level shape of the client information packet.
pub struct ClientInformationView {
    pub locale: Seq<char>,
    pub view_distance: i8,
    pub chat_mode: i32,
    pub chat_colors: bool,
    pub skin_parts: u8,
    pub main_hand: i32,
    pub text_filtering: bool,
    pub server_listing: bool,
}

impl View for ClientInformationConfigPacket {
    type V = ClientInformationView;

    open spec fn view(&self) -> ClientInformationView {
        ClientInformationView {
            locale: self.locale@,
            view_distance: self.view_distance,
            chat_mode: self.chat_mode,
            chat_colors: self.chat_colors,
            skin_parts: self.skin_parts,
            main_hand: self.main_hand,
            text_filtering: self.text_filtering,
            server_listing: self.server_listing,
        }
    }
}

impl ClientInformationConfigPacket {
    /// Decoding reads the locale, then the numeric settings; the view
    /// distance and the hand/chat fields come as varints and are narrowed to
    /// their field widths. This packet is only ever received, never sent.
    pub open spec fn spec_decode(id: u32, s: Seq<u8>) -> Result<ClientInformationView, WireError> {
        if id != 0 {
            Err(WireError::IdMismatch)
        } else {
            match data::string_decode(s) {
                Err(e) => Err(e),
                Ok((locale, a)) => match data::varint_decode(s.skip(a)) {
                    Err(e) => Err(e),
                    Ok((view_distance, b)) => match data::varint_decode(s.skip(a + b)) {
                        Err(e) => Err(e),
                        Ok((chat_mode, c)) => match data::bool_decode(s.skip(a + b + c)) {
                            Err(e) => Err(e),
                            Ok((chat_colors, d)) => match data::byte_decode(
                                s.skip(a + b + c + d),
                            ) {
                                Err(e) => Err(e),
                                Ok((skin_parts, f)) => match data::varint_decode(
                                    s.skip(a + b + c + d + f),
                                ) {
                                    Err(e) => Err(e),
                                    Ok((main_hand, g)) => match data::bool_decode(
                                        s.skip(a + b + c + d + f + g),
                                    ) {
                                        Err(e) => Err(e),
                                        Ok((text_filtering, h)) => match data::bool_decode(
                                            s.skip(a + b + c + d + f + g + h),
                                        ) {
                                            Err(e) => Err(e),
                                            Ok((server_listing, _)) => Ok(
                                                ClientInformationView {
                                                    locale,
                                                    view_distance: view_distance as i8,
                                                    chat_mode: chat_mode as i32,
                                                    chat_colors,
                                                    skin_parts,
                                                    main_hand: main_hand as i32,
                                                    text_filtering,
                                                    server_listing,
                                                },
                                            ),
                                        },
                                    },
                                },
                            },
                        },
                    },
                },
            }
        }
    }

    /// Decodes the client information, defensively checking `id`.
    pub fn read_from(id: u32, buffer: Vec<u8>) -> (r: Result<Self, WireError>)
        ensures
            match Self::spec_decode(id, buffer@) {
                Ok(v) => (r matches Ok(p) && p@ == v),
                Err(e) => r == Err::<Self, WireError>(e),
            },
    {
        if id != 0 {
            return Err(WireError::IdMismatch);
        }
        proof {
            assert(buffer@.skip(0) =~= buffer@);
        }
        let mut position: usize = 0;
        let locale = match data::read_string(buffer.as_slice(), &mut position) {
            Ok(v) => v,
            Err(e) => {
                return Err(e);
            },
        };
        let view_distance = match data::read_varint(buffer.as_slice(), &mut position) {
            Ok(v) => v,
            Err(e) => {
                return Err(e);
            },
        };
        let chat_mode = match data::read_varint(buffer.as_slice(), &mut position) {
            Ok(v) => v,
            Err(e) => {
                return Err(e);
            },
        };
        let chat_colors = match data::read_bool(&buffer, &mut position) {
            Ok(v) => v,
            Err(e) => {
                return Err(e);
            },
        };
        let skin_parts = match data::read_byte(buffer.as_slice(), &mut position) {
            Ok(v) => v,
            Err(e) => {
                return Err(e);
            },
        };
        let main_hand = match data::read_varint(buffer.as_slice(), &mut position) {
            Ok(v) => v,
            Err(e) => {
                return Err(e);
            },
        };
        let text_filtering = match data::read_bool(&buffer, &mut position) {
            Ok(v) => v,
            Err(e) => {
                return Err(e);
            },
        };
        let server_listing = match data::read_bool(&buffer, &mut position) {
            Ok(v) => v,
            Err(e) => {
                return Err(e);
            },
        };
        Ok(
            ClientInformationConfigPacket {
                locale,
                view_distance: #[verifier::truncate] (view_distance as i8),
                chat_mode: #[verifier::truncate] (chat_mode as i32),
                chat_colors,
                skin_parts,
                main_hand: #[verifier::truncate] (main_hand as i32),
                text_filtering,
                server_listing,
            },
        )
    }
}

/// A named-channel blob; during configuration the `minecraft:brand` channel
/// carries the peer's brand string.
#[derive(Clone, Debug)]
pub struct ConfigurationPluginMessagePacket {
    pub channel: String,
    pub data: Vec<u8>,
}

/// The spec-level shape of a plugin message.
pub struct PluginMessageView {
    pub channel: Seq<char>,
    pub data: Seq<u8>,
}

impl View for ConfigurationPluginMessagePacket {
    type V = PluginMessageView;

    open spec fn view(&self) -> PluginMessageView {
        PluginMessageView { channel: self.channel@, data: self.data@ }
    }
}

impl ConfigurationPluginMessagePacket {
    /// Decoding reads the channel name, a varint byte count, then that many
    /// raw bytes. This packet is only ever received, never sent.
    pub open spec fn spec_decode(id: u32, s: Seq<u8>) -> Result<PluginMessageView, WireError> {
        if id != 2 {
            Err(WireError::IdMismatch)
        } else {
            match data::string_decode(s) {
                Err(e) => Err(e),
                Ok((channel, a)) => match data::varint_decode(s.skip(a)) {
                    Err(e) => Err(e),
                    Ok((data_length, b)) => match data::bytes_decode(
                        s.skip(a + b),
                        data_length as int,
                    ) {
                        Err(e) => Err(e),
                        Ok((payload, _)) => Ok(PluginMessageView { channel, data: payload }),
                    },
                },
            }
        }
    }

    /// Decodes a plugin message, defensively checking `id`.
    pub fn read_from(id: u32, buffer: Vec<u8>) -> (r: Result<Self, WireError>)
        ensures
            match Self::spec_decode(id, buffer@) {
                Ok(v) => (r matches Ok(p) && p@ == v),
                Err(e) => r == Err::<Self, WireError>(e),
            },
    {
        if id != 2 {
            return Err(WireError::IdMismatch);
        }
        proof {
            assert(buffer@.skip(0) =~= buffer@);
        }
        let mut position: usize = 0;
        let channel = match data::read_string(buffer.as_slice(), &mut position) {
            Ok(v) => v,
            Err(e) => {
                return Err(e);
            },
        };
        let data_length = match data::read_varint(buffer.as_slice(), &mut position) {
            Ok(v) => v,
            Err(e) => {
                return Err(e);
            },
        };
        let payload = match data::read_bytes(buffer.as_slice(), &mut position, data_length
            as usize) {
            Ok(v) => v,
            Err(e) => {
                return Err(e);
            },
        };
        Ok(ConfigurationPluginMessagePacket { channel, data: payload })
    }
}

/// The data packs the client reports knowing.
#[derive(Clone, Debug)]
pub struct ClientKnownPacksPacket {
    pub known_packs: Vec<ConfigKnownPackEntry>,
}

impl View for ClientKnownPacksPacket {
    type V = Seq<KnownPackView>;

    open spec fn view(&self) -> Seq<KnownPackView> {
        self.known_packs@.map_values(|e: ConfigKnownPackEntry| e@)
    }
}

/// Decoding `count` known-pack entries: each is a namespace string, a name
/// string and a version string; namespace and name are joined with a colon.
pub open spec fn known_packs_decode(s: Seq<u8>, count: int) -> Result<
    (Seq<KnownPackView>, int),
    WireError,
>
    decreases count,
{
    if count <= 0 {
        Ok((Seq::<KnownPackView>::empty(), 0))
    } else {
        match data::string_decode(s) {
            Err(e) => Err(e),
            Ok((namespace, a)) => match data::string_decode(s.skip(a)) {
                Err(e) => Err(e),
                Ok((name, b)) => match data::string_decode(s.skip(a + b)) {
                    Err(e) => Err(e),
                    Ok((version, c)) => match known_packs_decode(s.skip(a + b + c), count - 1) {
                        Err(e) => Err(e),
                        Ok((rest, d)) => Ok(
                            (
                                seq![
                                    KnownPackView {
                                        name: namespace + seq![':'] + name,
                                        version,
                                    },
                                ] + rest,
                                a + b + c + d,
                            ),
                        ),
                    },
                },
            },
        }
    }
}

impl ClientKnownPacksPacket {
    /// Decoding reads a varint count, then that many entries. This packet is
    /// only ever received, never sent.
    pub open spec fn spec_decode(id: u32, s: Seq<u8>) -> Result<Seq<KnownPackView>, WireError> {
        if id != 7 {
            Err(WireError::IdMismatch)
        } else {
            match data::varint_decode(s) {
                Err(e) => Err(e),
                Ok((length, a)) => match known_packs_decode(s.skip(a), length as int) {
                    Err(e) => Err(e),
                    Ok((entries, _)) => Ok(entries),
                },
            }
        }
    }

    /// Decodes the known packs, defensively checking `id`.
    pub fn read_from(id: u32, buffer: Vec<u8>) -> (r: Result<Self, WireError>)
        ensures
            match Self::spec_decode(id, buffer@) {
                Ok(v) => (r matches Ok(p) && p@ == v),
                Err(e) => r == Err::<Self, WireError>(e),
            },
    {
        if id != 7 {
            return Err(WireError::IdMismatch);
        }
        proof {
            assert(buffer@.skip(0) =~= buffer@);
        }
        let mut position: usize = 0;
        let length = match data::read_varint(buffer.as_slice(), &mut position) {
            Ok(v) => v,
            Err(e) => {
                return Err(e);
            },
        };
        let mut known_packs: Vec<ConfigKnownPackEntry> = Vec::new();
        let mut i: u32 = 0;
        let ghost s_entries = buffer@.skip(position as int);
        loop
            invariant
                i <= length,
                position <= buffer@.len(),
                known_packs@.len() == i,
                ClientKnownPacksPacket::spec_decode(id, buffer@) == match known_packs_decode(
                    s_entries,
                    length as int,
                ) {
                    Ok((entries, _)) => Ok::<Seq<KnownPackView>, WireError>(entries),
                    Err(e) => Err::<Seq<KnownPackView>, WireError>(e),
                },
                known_packs_decode(s_entries, length as int) == match known_packs_decode(
                    buffer@.skip(position as int),
                    length - i,
                ) {
                    Ok((rest, d)) => Ok::<(Seq<KnownPackView>, int), WireError>(
                        (
                            known_packs@.map_values(|e: ConfigKnownPackEntry| e@) + rest,
                            (position - (buffer@.len() - s_entries.len())) + d,
                        ),
                    ),
                    Err(e) => Err::<(Seq<KnownPackView>, int), WireError>(e),
                },
            ensures
                ClientKnownPacksPacket::spec_decode(id, buffer@) == Ok::<
                    Seq<KnownPackView>,
                    WireError,
                >(known_packs@.map_values(|e: ConfigKnownPackEntry| e@)),
            decreases length - i,
        {
            if i >= length {
                proof {
                    assert(known_packs@.map_values(|e: ConfigKnownPackEntry| e@)
                        + Seq::<KnownPackView>::empty() =~= known_packs@.map_values(
                        |e: ConfigKnownPackEntry| e@,
                    ));
                }
                break ;
            }
            let ghost s_here = buffer@.skip(position as int);
            let ghost pos_old: int = position as int;
            let namespace = match data::read_string(buffer.as_slice(), &mut position) {
                Ok(v) => v,
                Err(e) => {
                    return Err(e);
                },
            };
            proof {
                assert(s_here.skip(position - pos_old) =~= buffer@.skip(position as int));
            }
            let name = match data::read_string(buffer.as_slice(), &mut position) {
                Ok(v) => v,
                Err(e) => {
                    return Err(e);
                },
            };
            proof {
                assert(s_here.skip(position - pos_old) =~= buffer@.skip(position as int));
            }
            let version = match data::read_string(buffer.as_slice(), &mut position) {
                Ok(v) => v,
                Err(e) => {
                    return Err(e);
                },
            };
            proof {
                assert(s_here.skip(position - pos_old) =~= buffer@.skip(position as int));
            }
            let full_name = namespace.concat(":").concat(name.as_str());
            proof {
                reveal_strlit(":");
                assert(":"@ =~= seq![':']);
                assert(full_name@ =~= namespace@ + seq![':'] + name@);
            }
            let entry = ConfigKnownPackEntry { name: full_name, version };
            let ghost prior = known_packs@;
            known_packs.push(entry);
            proof {
                let mapped_prior = prior.map_values(|e: ConfigKnownPackEntry| e@);
                assert(known_packs@.map_values(|e: ConfigKnownPackEntry| e@) =~= mapped_prior
                    + seq![entry@]);
                match known_packs_decode(buffer@.skip(position as int), length - i - 1) {
                    Ok((rest2, _)) => {
                        assert(mapped_prior + (seq![entry@] + rest2) =~= (mapped_prior
                            + seq![entry@]) + rest2);
                    },
                    Err(_) => {},
                }
            }
            i = i + 1;
        }
        Ok(ClientKnownPacksPacket { known_packs })
    }
}

// ---------------------------------------------------------------------------
// The capability impls: static IDs and the up- and downcasts.
// ---------------------------------------------------------------------------

impl crate::packet::Packet for HandshakePacket {
    open spec fn spec_id() -> u32 {
        0
    }

    open spec fn spec_wrap(self) -> crate::packet::AnyPacket {
        crate::packet::AnyPacket::Handshake(self)
    }

    fn id() -> (r: u32) {
        0
    }

    fn packet_id(&self) -> (r: u32) {
        0
    }

    fn wrap(self) -> (r: crate::packet::AnyPacket) {
        crate::packet::AnyPacket::Handshake(self)
    }

    fn from_any(packet: crate::packet::AnyPacket) -> (r: Result<Self, WireError>) {
        match packet {
            crate::packet::AnyPacket::Handshake(p) => Ok(p),
            other => {
                proof {
                    assert(forall|q: HandshakePacket| other != #[trigger] q.spec_wrap());
                }
                Err(WireError::TypeMismatch)
            },
        }
    }
}

impl crate::packet::Packet for StatusRequestPacket {
    open spec fn spec_id() -> u32 {
        0
    }

    open spec fn spec_wrap(self) -> crate::packet::AnyPacket {
        crate::packet::AnyPacket::StatusRequest(self)
    }

    fn id() -> (r: u32) {
        0
    }

    fn packet_id(&self) -> (r: u32) {
        0
    }

    fn wrap(self) -> (r: crate::packet::AnyPacket) {
        crate::packet::AnyPacket::StatusRequest(self)
    }

    fn from_any(packet: crate::packet::AnyPacket) -> (r: Result<Self, WireError>) {
        match packet {
            crate::packet::AnyPacket::StatusRequest(p) => Ok(p),
            other => {
                proof {
                    assert(forall|q: StatusRequestPacket| other != #[trigger] q.spec_wrap());
                }
                Err(WireError::TypeMismatch)
            },
        }
    }
}

impl crate::packet::Packet for StatusPingPacket {
    open spec fn spec_id() -> u32 {
        1
    }

    open spec fn spec_wrap(self) -> crate::packet::AnyPacket {
        crate::packet::AnyPacket::StatusPing(self)
    }

    fn id() -> (r: u32) {
        1
    }

    fn packet_id(&self) -> (r: u32) {
        1
    }

    fn wrap(self) -> (r: crate::packet::AnyPacket) {
        crate::packet::AnyPacket::StatusPing(self)
    }

    fn from_any(packet: crate::packet::AnyPacket) -> (r: Result<Self, WireError>) {
        match packet {
            crate::packet::AnyPacket::StatusPing(p) => Ok(p),
            other => {
                proof {
                    assert(forall|q: StatusPingPacket| other != #[trigger] q.spec_wrap());
                }
                Err(WireError::TypeMismatch)
            },
        }
    }
}

impl crate::packet::Packet for LoginStartPacket {
    open spec fn spec_id() -> u32 {
        0
    }

    open spec fn spec_wrap(self) -> crate::packet::AnyPacket {
        crate::packet::AnyPacket::LoginStart(self)
    }

    fn id() -> (r: u32) {
        0
    }

    fn packet_id(&self) -> (r: u32) {
        0
    }

    fn wrap(self) -> (r: crate::packet::AnyPacket) {
        crate::packet::AnyPacket::LoginStart(self)
    }

    fn from_any(packet: crate::packet::AnyPacket) -> (r: Result<Self, WireError>) {
        match packet {
            crate::packet::AnyPacket::LoginStart(p) => Ok(p),
            other => {
                proof {
                    assert(forall|q: LoginStartPacket| other != #[trigger] q.spec_wrap());
                }
                Err(WireError::TypeMismatch)
            },
        }
    }
}

impl crate::packet::Packet for LoginAcknowledgedPacket {
    open spec fn spec_id() -> u32 {
        3
    }

    open spec fn spec_wrap(self) -> crate::packet::AnyPacket {
        crate::packet::AnyPacket::LoginAcknowledged(self)
    }

    fn id() -> (r: u32) {
        3
    }

    fn packet_id(&self) -> (r: u32) {
        3
    }

    fn wrap(self) -> (r: crate::packet::AnyPacket) {
        crate::packet::AnyPacket::LoginAcknowledged(self)
    }

    fn from_any(packet: crate::packet::AnyPacket) -> (r: Result<Self, WireError>) {
        match packet {
            crate::packet::AnyPacket::LoginAcknowledged(p) => Ok(p),
            other => {
                proof {
                    assert(forall|q: LoginAcknowledgedPacket| other != #[trigger] q.spec_wrap());
                }
                Err(WireError::TypeMismatch)
            },
        }
    }
}

impl crate::packet::Packet for ClientInformationConfigPacket {
    open spec fn spec_id() -> u32 {
        0
    }

    open spec fn spec_wrap(self) -> crate::packet::AnyPacket {
        crate::packet::AnyPacket::ClientInformation(self)
    }

    fn id() -> (r: u32) {
        0
    }

    fn packet_id(&self) -> (r: u32) {
        0
    }

    fn wrap(self) -> (r: crate::packet::AnyPacket) {
        crate::packet::AnyPacket::ClientInformation(self)
    }

    fn from_any(packet: crate::packet::AnyPacket) -> (r: Result<Self, WireError>) {
        match packet {
            crate::packet::AnyPacket::ClientInformation(p) => Ok(p),
            other => {
                proof {
                    assert(forall|q: ClientInformationConfigPacket| other != #[trigger] q.spec_wrap());
                }
                Err(WireError::TypeMismatch)
            },
        }
    }
}

impl crate::packet::Packet for ConfigurationPluginMessagePacket {
    open spec fn spec_id() -> u32 {
        2
    }

    open spec fn spec_wrap(self) -> crate::packet::AnyPacket {
        crate::packet::AnyPacket::ServerboundPluginMessage(self)
    }

    fn id() -> (r: u32) {
        2
    }

    fn packet_id(&self) -> (r: u32) {
        2
    }

    fn wrap(self) -> (r: crate::packet::AnyPacket) {
        crate::packet::AnyPacket::ServerboundPluginMessage(self)
    }

    fn from_any(packet: crate::packet::AnyPacket) -> (r: Result<Self, WireError>) {
        match packet {
            crate::packet::AnyPacket::ServerboundPluginMessage(p) => Ok(p),
            other => {
                proof {
                    assert(forall|q: ConfigurationPluginMessagePacket| other != #[trigger] q.spec_wrap());
                }
                Err(WireError::TypeMismatch)
            },
        }
    }
}

impl crate::packet::Packet for ClientKnownPacksPacket {
    open spec fn spec_id() -> u32 {
        7
    }

    open spec fn spec_wrap(self) -> crate::packet::AnyPacket {
        crate::packet::AnyPacket::ClientKnownPacks(self)
    }

    fn id() -> (r: u32) {
        7
    }

    fn packet_id(&self) -> (r: u32) {
        7
    }

    fn wrap(self) -> (r: crate::packet::AnyPacket) {
        crate::packet::AnyPacket::ClientKnownPacks(self)
    }

    fn from_any(packet: crate::packet::AnyPacket) -> (r: Result<Self, WireError>) {
        match packet {
            crate::packet::AnyPacket::ClientKnownPacks(p) => Ok(p),
            other => {
                proof {
                    assert(forall|q: ClientKnownPacksPacket| other != #[trigger] q.spec_wrap());
                }
                Err(WireError::TypeMismatch)
            },
        }
    }
}

} // verus!
