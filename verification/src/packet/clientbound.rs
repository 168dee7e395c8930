//! Packets the server sends, with their exact payload encodings.

use vstd::prelude::*;
use vstd::string::{StrSliceExecFns, StringExecFns};
use vstd::utf8::encode_utf8;

use crate::common::{ConfigKnownPackEntry, KnownPackView};
use crate::data;
use crate::error::WireError;

verus! {

// ---------------------------------------------------------------------------
// Status state
// ---------------------------------------------------------------------------

/// The server's status document, serialized to JSON by the caller, carried
/// as one length-prefixed string.
#[derive(Clone, Debug)]
pub struct StatusResponsePacket {
    pub response: String,
}

impl StatusResponsePacket {
    /// The payload: the JSON document as a length-prefixed string.
    pub open spec fn spec_encoding(self) -> Seq<u8> {
        data::string_encoding(self.response@)
    }

    /// Appends the payload encoding to `buffer`. This packet is only ever
    /// sent, never received.
    pub fn write_to(&self, buffer: &mut Vec<u8>)
        requires
            encode_utf8(self.response@).len() <= u32::MAX,
        ensures
            final(buffer)@ == old(buffer)@ + self.spec_encoding(),
    {
        data::write_string(buffer, self.response.as_str());
    }
}

/// The server's echo of a ping: the same 64-bit payload back.
#[derive(Clone, PartialEq, Eq, Structural, Debug)]
pub struct StatusPongPacket {
    pub payload: u64,
}

impl StatusPongPacket {
    /// The eight payload bytes, big-endian.
    pub open spec fn spec_encoding(self) -> Seq<u8> {
        data::u64_be(self.payload)
    }

    /// Appends the payload encoding to `buffer`. This packet is only ever
    /// sent, never received.
    pub fn write_to(&self, buffer: &mut Vec<u8>)
        ensures
            final(buffer)@ == old(buffer)@ + self.spec_encoding(),
    {
        data::write_long(buffer, self.payload);
    }
}

// ---------------------------------------------------------------------------
// Login state
// ---------------------------------------------------------------------------

/// The server accepts a login: the identifier, the username, and an empty
/// property list.
#[derive(Clone, Debug)]
pub struct LoginSuccessPacket {
    pub username: String,
    pub uuid: data::UniqueId,
}

impl LoginSuccessPacket {
    /// The payload: sixteen identifier bytes, the username, then a zero
    /// varint for the empty property list.
    pub open spec fn spec_encoding(self) -> Seq<u8> {
        data::uuid_encoding(self.uuid) + data::string_encoding(self.username@)
            + data::varint_encoding(0u32)
    }

    /// Appends the payload encoding to `buffer`. This packet is only ever
    /// sent, never received.
    pub fn write_to(&self, buffer: &mut Vec<u8>)
        requires
            encode_utf8(self.username@).len() <= u32::MAX,
        ensures
            final(buffer)@ == old(buffer)@ + self.spec_encoding(),
    {
        data::write_uuid(buffer, &self.uuid);
        data::write_string(buffer, self.username.as_str());
        data::write_varint(buffer, 0);
        proof {
            assert(buffer@ =~= old(buffer)@ + self.spec_encoding());
        }
    }
}

// ---------------------------------------------------------------------------
// Configuration state
// ---------------------------------------------------------------------------

/// Both ends signal the end of configuration with this empty packet; the
/// client's copy echoes the server's ID exactly.
#[derive(Clone, PartialEq, Eq, Structural, Debug)]
pub struct FinishConfigurationPacket;

impl FinishConfigurationPacket {
    /// An empty payload.
    pub open spec fn spec_encoding(self) -> Seq<u8> {
        Seq::<u8>::empty()
    }

    /// Decoding ignores the payload entirely; only the id is checked.
    pub open spec fn spec_decode(id: u32, s: Seq<u8>) -> Result<
        FinishConfigurationPacket,
        WireError,
    > {
        if id != 3 {
            Err(WireError::IdMismatch)
        } else {
            Ok(FinishConfigurationPacket)
        }
    }

    /// Decodes the echoed acknowledgement, defensively checking `id`.
    pub fn read_from(id: u32, buffer: Vec<u8>) -> (r: Result<Self, WireError>)
        ensures
            r == Self::spec_decode(id, buffer@),
    {
        if id != 3 {
            return Err(WireError::IdMismatch);
        }
        Ok(FinishConfigurationPacket)
    }

    /// A finish-configuration packet has no payload bytes.
    pub fn write_to(&self, buffer: &mut Vec<u8>)
        ensures
            final(buffer)@ == old(buffer)@ + self.spec_encoding(),
    {
        proof {
            assert(buffer@ =~= old(buffer)@ + self.spec_encoding());
        }
    }
}

/// A named-channel blob sent to the client; the server announces its brand
/// on `minecraft:brand`.
#[derive(Clone, Debug)]
pub struct ConfigurationPluginMessagePacket {
    pub channel: String,
    pub data: Vec<u8>,
}

impl ConfigurationPluginMessagePacket {
    /// A brand announcement: channel `minecraft:brand`, the brand string's
    /// UTF-8 bytes as the blob.
    pub fn brand_packet(brand: String) -> (r: ConfigurationPluginMessagePacket)
        ensures
            r.channel@ == "minecraft:brand"@,
            r.data@ == encode_utf8(brand@),
    {
        let data = brand.as_str().as_bytes_vec();
        ConfigurationPluginMessagePacket { channel: String::from_str("minecraft:brand"), data }
    }

    /// The payload: the channel string, a varint byte count, the raw bytes.
    pub open spec fn spec_encoding(self) -> Seq<u8> {
        data::string_encoding(self.channel@) + data::varint_encoding(self.data@.len() as u32)
            + self.data@
    }

    /// Appends the payload encoding to `buffer`. This packet is only ever
    /// sent, never received.
    pub fn write_to(&self, buffer: &mut Vec<u8>)
        requires
            encode_utf8(self.channel@).len() <= u32::MAX,
            self.data@.len() <= u32::MAX,
        ensures
            final(buffer)@ == old(buffer)@ + self.spec_encoding(),
    {
        data::write_string(buffer, self.channel.as_str());
        data::write_varint(buffer, self.data.len() as u32);
        buffer.extend_from_slice(self.data.as_slice());
        proof {
            assert(buffer@ =~= old(buffer)@ + self.spec_encoding());
        }
    }
}

// ---------------------------------------------------------------------------
// Known packs
// ---------------------------------------------------------------------------

/// The index of the first colon byte in `bytes`, if any. A colon byte in
/// UTF-8 can only encode the colon character, so this is also the first
/// colon of the decoded string.
pub open spec fn first_colon(bytes: Seq<u8>) -> Option<int>
    decreases bytes.len(),
{
    if bytes.len() == 0 {
        None
    } else if bytes[0] == 0x3a {
        Some(0int)
    } else {
        match first_colon(bytes.drop_first()) {
            Some(i) => Some(i + 1),
            None => None,
        }
    }
}

proof fn lemma_first_colon_found(bytes: Seq<u8>, j: int)
    requires
        0 <= j < bytes.len(),
        bytes[j] == 0x3a,
        forall|k: int| 0 <= k < j ==> bytes[k] != 0x3a,
    ensures
        first_colon(bytes) == Some(j),
    decreases j,
{
    if j > 0 {
        lemma_first_colon_found(bytes.drop_first(), j - 1);
    }
}

proof fn lemma_first_colon_none(bytes: Seq<u8>)
    requires
        forall|k: int| 0 <= k < bytes.len() ==> bytes[k] != 0x3a,
    ensures
        first_colon(bytes) == None::<int>,
    decreases bytes.len(),
{
    if bytes.len() > 0 {
        lemma_first_colon_none(bytes.drop_first());
    }
}

/// Finds the first colon byte of `bytes`.
fn find_colon(bytes: &Vec<u8>) -> (r: Option<usize>)
    ensures
        match r {
            Some(i) => (first_colon(bytes@) == Some(i as int) && i < bytes@.len()
                && bytes@[i as int] == 0x3a),
            None => first_colon(bytes@) == None::<int>,
        },
{
    let mut j: usize = 0;
    loop
        invariant
            j <= bytes@.len(),
            forall|k: int| 0 <= k < j ==> bytes@[k] != 0x3a,
        decreases bytes@.len() - j,
    {
        if j >= bytes.len() {
            proof {
                lemma_first_colon_none(bytes@);
            }
            return None;
        }
        if bytes[j] == 0x3a {
            proof {
                lemma_first_colon_found(bytes@, j as int);
            }
            return Some(j);
        }
        j = j + 1;
    }
}

/// Whether an entry's name holds the colon that separates its namespace
/// from its name on the wire.
pub open spec fn entry_splittable(v: KnownPackView) -> bool {
    first_colon(encode_utf8(v.name)) is Some
}

/// The wire encoding of one entry: the bytes before the first colon as the
/// namespace string, the bytes after it as the name string, then the
/// version string. Meaningful only for splittable entries.
pub open spec fn entry_encoding(v: KnownPackView) -> Seq<u8> {
    let nb = encode_utf8(v.name);
    match first_colon(nb) {
        Some(i) => data::varint_encoding(i as u32) + nb.take(i) + data::varint_encoding((nb.len()
            - i - 1) as u32) + nb.skip(i + 1) + data::string_encoding(v.version),
        None => Seq::<u8>::empty(),
    }
}

/// The wire encoding of a run of entries, in order.
pub open spec fn known_packs_encoding(entries: Seq<KnownPackView>) -> Seq<u8>
    decreases entries.len(),
{
    if entries.len() == 0 {
        Seq::<u8>::empty()
    } else {
        entry_encoding(entries[0]) + known_packs_encoding(entries.drop_first())
    }
}

proof fn lemma_known_packs_encoding_snoc(entries: Seq<KnownPackView>, i: int)
    requires
        0 <= i < entries.len(),
    ensures
        known_packs_encoding(entries.take(i + 1)) == known_packs_encoding(entries.take(i))
            + entry_encoding(entries[i]),
    decreases i,
{
    assert(known_packs_encoding(Seq::<KnownPackView>::empty()) == Seq::<u8>::empty());
    if i == 0 {
        let single = entries.take(1);
        assert(single.drop_first() =~= Seq::<KnownPackView>::empty());
        assert(single[0] == entries[0]);
        assert(known_packs_encoding(single) == entry_encoding(entries[0]) + known_packs_encoding(
            Seq::<KnownPackView>::empty(),
        ));
        assert(entries.take(0) =~= Seq::<KnownPackView>::empty());
        assert(entry_encoding(entries[0]) + Seq::<u8>::empty() =~= entry_encoding(entries[0]));
        assert(Seq::<u8>::empty() + entry_encoding(entries[0]) =~= entry_encoding(entries[0]));
    } else {
        lemma_known_packs_encoding_snoc(entries.drop_first(), i - 1);
        assert(entries.take(i + 1).drop_first() =~= entries.drop_first().take(i));
        assert(entries.take(i).drop_first() =~= entries.drop_first().take(i - 1));
        assert(entries.take(i + 1)[0] == entries[0] && entries.take(i)[0] == entries[0]);
        assert(entries.drop_first()[i - 1] == entries[i]);
        assert(known_packs_encoding(entries.take(i + 1)) == entry_encoding(entries[0])
            + known_packs_encoding(entries.drop_first().take(i)));
        assert(known_packs_encoding(entries.take(i)) == entry_encoding(entries[0])
            + known_packs_encoding(entries.drop_first().take(i - 1)));
        assert((entry_encoding(entries[0]) + known_packs_encoding(entries.drop_first().take(i - 1)))
            + entry_encoding(entries[i]) =~= entry_encoding(entries[0]) + (known_packs_encoding(
            entries.drop_first().take(i - 1),
        ) + entry_encoding(entries[i])));
    }
}

/// The data packs the server offers; the client answers with the ones it
/// knows.
#[derive(Clone, Debug)]
pub struct ConfigSelectKnownPacksPacket {
    pub entries: Vec<ConfigKnownPackEntry>,
}

impl View for ConfigSelectKnownPacksPacket {
    type V = Seq<KnownPackView>;

    open spec fn view(&self) -> Seq<KnownPackView> {
        self.entries@.map_values(|e: ConfigKnownPackEntry| e@)
    }
}

impl ConfigSelectKnownPacksPacket {
    /// Whether every entry's name carries its namespace colon.
    pub open spec fn spec_splittable(self) -> bool {
        forall|i: int| 0 <= i < self@.len() ==> entry_splittable(#[trigger] self@[i])
    }

    /// The payload: a varint count, then each entry as namespace, name and
    /// version strings.
    pub open spec fn spec_encoding(self) -> Seq<u8> {
        data::varint_encoding(self@.len() as u32) + known_packs_encoding(self@)
    }

    /// Appends the payload encoding to `buffer`; fails, writing nothing,
    /// when an entry's name has no colon to split at. This packet is only
    /// ever sent, never received.
    pub fn write_to(&self, buffer: &mut Vec<u8>) -> (r: Result<(), WireError>)
        requires
            self.entries@.len() <= u32::MAX,
            forall|i: int|
                0 <= i < self.entries@.len() ==> (#[trigger] encode_utf8(
                    self.entries@[i]@.name,
                )).len() < u32::MAX && encode_utf8(self.entries@[i]@.version).len() <= u32::MAX,
        ensures
            match r {
                Ok(_) => (self.spec_splittable() && final(buffer)@ == old(buffer)@
                    + self.spec_encoding()),
                Err(e) => (e == WireError::ProtocolError && !self.spec_splittable()
                    && final(buffer)@ == old(buffer)@),
            },
    {
        // First pass: every name must have its colon, or nothing is written.
        let mut i: usize = 0;
        loop
            invariant
                i <= self.entries@.len(),
                forall|k: int| 0 <= k < i ==> entry_splittable(#[trigger] self@[k]),
            ensures
                self.spec_splittable(),
            decreases self.entries@.len() - i,
        {
            if i >= self.entries.len() {
                break ;
            }
            let nb = self.entries[i].name.as_str().as_bytes_vec();
            if find_colon(&nb).is_none() {
                proof {
                    assert(!entry_splittable(self@[i as int]));
                }
                return Err(WireError::ProtocolError);
            }
            i = i + 1;
        }
        let entries_length = self.entries.len();
        data::write_varint(buffer, entries_length as u32);
        proof {
            assert(self@.take(0) =~= Seq::<KnownPackView>::empty());
            assert(known_packs_encoding(Seq::<KnownPackView>::empty()) == Seq::<u8>::empty());
            assert(old(buffer)@ + data::varint_encoding(self@.len() as u32) + Seq::<u8>::empty()
                =~= old(buffer)@ + data::varint_encoding(self@.len() as u32));
        }
        let mut j: usize = 0;
        loop
            invariant
                j <= self.entries@.len(),
                self.spec_splittable(),
                self.entries@.len() <= u32::MAX,
                forall|k: int|
                    0 <= k < self.entries@.len() ==> (#[trigger] encode_utf8(
                        self.entries@[k]@.name,
                    )).len() < u32::MAX && encode_utf8(self.entries@[k]@.version).len()
                        <= u32::MAX,
                buffer@ == old(buffer)@ + data::varint_encoding(self@.len() as u32)
                    + known_packs_encoding(self@.take(j as int)),
            ensures
                buffer@ == old(buffer)@ + self.spec_encoding(),
            decreases self.entries@.len() - j,
        {
            if j >= self.entries.len() {
                proof {
                    assert(self@.take(j as int) =~= self@);
                    assert(old(buffer)@ + data::varint_encoding(self@.len() as u32)
                        + known_packs_encoding(self@) =~= old(buffer)@ + self.spec_encoding());
                }
                break ;
            }
            let entry = &self.entries[j];
            let nb = entry.name.as_str().as_bytes_vec();
            proof {
                assert(nb@ == encode_utf8(self.entries@[j as int]@.name));
                assert(nb@.len() < u32::MAX);
            }
            let colon = match find_colon(&nb) {
                Some(c) => c,
                None => {
                    proof {
                        assert(entry_splittable(self@[j as int]));
                    }
                    return Err(WireError::ProtocolError);
                },
            };
            let ghost pre = buffer@;
            data::write_varint(buffer, colon as u32);
            buffer.extend_from_slice(&nb.as_slice()[0..colon]);
            data::write_varint(buffer, (nb.len() - colon - 1) as u32);
            buffer.extend_from_slice(&nb.as_slice()[colon + 1..nb.len()]);
            data::write_string(buffer, entry.version.as_str());
            proof {
                assert(nb@.subrange(0, colon as int) =~= nb@.take(colon as int));
                assert(nb@.subrange(colon + 1, nb@.len() as int) =~= nb@.skip(colon + 1));
                assert(buffer@ =~= pre + entry_encoding(self@[j as int]));
                lemma_known_packs_encoding_snoc(self@, j as int);
                assert(buffer@ =~= old(buffer)@ + data::varint_encoding(self@.len() as u32)
                    + known_packs_encoding(self@.take(j + 1)));
            }
            j = j + 1;
        }
        Ok(())
    }
}

// ---------------------------------------------------------------------------
// The status document
// ---------------------------------------------------------------------------

/// The version block of the status document.
#[derive(Clone, Debug)]
pub struct StatusVersion {
    pub name: String,
    pub protocol: i32,
}

impl Default for StatusVersion {
    /// The server's own name and the protocol version it speaks.
    fn default() -> (r: Self)
        ensures
            r.name@ == "Rustmine"@,
            r.protocol == crate::PROTOCOL_VERSION,
    {
        StatusVersion { name: String::from_str("Rustmine"), protocol: crate::PROTOCOL_VERSION }
    }
}

/// The player-count block of the status document.
#[derive(Clone, Debug)]
pub struct StatusPlayers {
    pub max: i32,
    pub online: i32,
    pub sample: Vec<StatusPlayerEntry>,
}

impl Default for StatusPlayers {
    /// Nobody home: zero counts and an empty sample.
    fn default() -> (r: Self)
        ensures
            r.max == 0i32 && r.online == 0i32 && r.sample@.len() == 0,
    {
        StatusPlayers { max: 0, online: 0, sample: Vec::new() }
    }
}

/// One sampled player in the status document.
#[derive(Clone, Debug)]
pub struct StatusPlayerEntry {
    pub name: String,
    pub id: String,
}

// ---------------------------------------------------------------------------
// The capability impls: static IDs and the up- and downcasts.
// ---------------------------------------------------------------------------

impl crate::packet::Packet for StatusResponsePacket {
    open spec fn spec_id() -> u32 {
        0
    }

    open spec fn spec_wrap(self) -> crate::packet::AnyPacket {
        crate::packet::AnyPacket::StatusResponse(self)
    }

    fn id() -> (r: u32) {
        0
    }

    fn packet_id(&self) -> (r: u32) {
        0
    }

    fn wrap(self) -> (r: crate::packet::AnyPacket) {
        crate::packet::AnyPacket::StatusResponse(self)
    }

    fn from_any(packet: crate::packet::AnyPacket) -> (r: Result<Self, WireError>) {
        match packet {
            crate::packet::AnyPacket::StatusResponse(p) => Ok(p),
            other => {
                proof {
                    assert(forall|q: StatusResponsePacket| other != #[trigger] q.spec_wrap());
                }
                Err(WireError::TypeMismatch)
            },
        }
    }
}

impl crate::packet::Packet for StatusPongPacket {
    open spec fn spec_id() -> u32 {
        1
    }

    open spec fn spec_wrap(self) -> crate::packet::AnyPacket {
        crate::packet::AnyPacket::StatusPong(self)
    }

    fn id() -> (r: u32) {
        1
    }

    fn packet_id(&self) -> (r: u32) {
        1
    }

    fn wrap(self) -> (r: crate::packet::AnyPacket) {
        crate::packet::AnyPacket::StatusPong(self)
    }

    fn from_any(packet: crate::packet::AnyPacket) -> (r: Result<Self, WireError>) {
        match packet {
            crate::packet::AnyPacket::StatusPong(p) => Ok(p),
            other => {
                proof {
                    assert(forall|q: StatusPongPacket| other != #[trigger] q.spec_wrap());
                }
                Err(WireError::TypeMismatch)
            },
        }
    }
}

impl crate::packet::Packet for LoginSuccessPacket {
    open spec fn spec_id() -> u32 {
        2
    }

    open spec fn spec_wrap(self) -> crate::packet::AnyPacket {
        crate::packet::AnyPacket::LoginSuccess(self)
    }

    fn id() -> (r: u32) {
        2
    }

    fn packet_id(&self) -> (r: u32) {
        2
    }

    fn wrap(self) -> (r: crate::packet::AnyPacket) {
        crate::packet::AnyPacket::LoginSuccess(self)
    }

    fn from_any(packet: crate::packet::AnyPacket) -> (r: Result<Self, WireError>) {
        match packet {
            crate::packet::AnyPacket::LoginSuccess(p) => Ok(p),
            other => {
                proof {
                    assert(forall|q: LoginSuccessPacket| other != #[trigger] q.spec_wrap());
                }
                Err(WireError::TypeMismatch)
            },
        }
    }
}

impl crate::packet::Packet for FinishConfigurationPacket {
    open spec fn spec_id() -> u32 {
        3
    }

    open spec fn spec_wrap(self) -> crate::packet::AnyPacket {
        crate::packet::AnyPacket::FinishConfiguration(self)
    }

    fn id() -> (r: u32) {
        3
    }

    fn packet_id(&self) -> (r: u32) {
        3
    }

    fn wrap(self) -> (r: crate::packet::AnyPacket) {
        crate::packet::AnyPacket::FinishConfiguration(self)
    }

    fn from_any(packet: crate::packet::AnyPacket) -> (r: Result<Self, WireError>) {
        match packet {
            crate::packet::AnyPacket::FinishConfiguration(p) => Ok(p),
            other => {
                proof {
                    assert(forall|q: FinishConfigurationPacket| other != #[trigger] q.spec_wrap());
                }
                Err(WireError::TypeMismatch)
            },
        }
    }
}

impl crate::packet::Packet for ConfigurationPluginMessagePacket {
    open spec fn spec_id() -> u32 {
        1
    }

    open spec fn spec_wrap(self) -> crate::packet::AnyPacket {
        crate::packet::AnyPacket::ClientboundPluginMessage(self)
    }

    fn id() -> (r: u32) {
        1
    }

    fn packet_id(&self) -> (r: u32) {
        1
    }

    fn wrap(self) -> (r: crate::packet::AnyPacket) {
        crate::packet::AnyPacket::ClientboundPluginMessage(self)
    }

    fn from_any(packet: crate::packet::AnyPacket) -> (r: Result<Self, WireError>) {
        match packet {
            crate::packet::AnyPacket::ClientboundPluginMessage(p) => Ok(p),
            other => {
                proof {
                    assert(forall|q: ConfigurationPluginMessagePacket| other != #[trigger] q.spec_wrap());
                }
                Err(WireError::TypeMismatch)
            },
        }
    }
}

impl crate::packet::Packet for ConfigSelectKnownPacksPacket {
    open spec fn spec_id() -> u32 {
        0x0E
    }

    open spec fn spec_wrap(self) -> crate::packet::AnyPacket {
        crate::packet::AnyPacket::SelectKnownPacks(self)
    }

    fn id() -> (r: u32) {
        0x0E
    }

    fn packet_id(&self) -> (r: u32) {
        0x0E
    }

    fn wrap(self) -> (r: crate::packet::AnyPacket) {
        crate::packet::AnyPacket::SelectKnownPacks(self)
    }

    fn from_any(packet: crate::packet::AnyPacket) -> (r: Result<Self, WireError>) {
        match packet {
            crate::packet::AnyPacket::SelectKnownPacks(p) => Ok(p),
            other => {
                proof {
                    assert(forall|q: ConfigSelectKnownPacksPacket| other != #[trigger] q.spec_wrap());
                }
                Err(WireError::TypeMismatch)
            },
        }
    }
}

} // verus!
