//! The wire frame codec and the packet abstraction.
//!
//! A frame is one length-delimited unit of wire data: an outer varint length,
//! then either `[varint id][payload]` directly (compression disabled), or an
//! inner varint giving the uncompressed size followed by a zlib block (at or
//! above the threshold) or by the verbatim bytes after a zero indicator
//! (below it).

use std::io::{Read, Write};

use vstd::prelude::*;

pub mod clientbound;
pub mod serverbound;

use crate::data;
use crate::error::WireError;

verus! {

/// A raw frame as it comes off the wire: declared length, packet ID, and the
/// payload bytes (uncompressed).
pub type RawPacket = (u32, u32, Vec<u8>);

// ---------------------------------------------------------------------------
// zlib, behind trusted wrappers
// ---------------------------------------------------------------------------

/// The zlib stream that the deflate encoder at the default level produces
/// for `s`. Left uninterpreted: what is known of it is stated on the
/// wrappers below.
pub uninterp spec fn deflate_of(s: Seq<u8>) -> Seq<u8>;

/// Relies on `flate2::write::ZlibEncoder` at the default compression level:
/// the output depends on the input bytes alone, and writing into a `Vec<u8>`
/// sink cannot fail.
#[verifier::external_body]
fn zlib_deflate(input: &[u8]) -> (r: Vec<u8>)
    ensures
        r@ == deflate_of(input@),
{
    let mut encoder = flate2::write::ZlibEncoder::new(Vec::new(), flate2::Compression::default());
    encoder.write_all(input).expect("writing to a Vec cannot fail");
    encoder.finish().expect("writing to a Vec cannot fail")
}

/// Relies on `flate2::read::ZlibDecoder`: inflating the stream the encoder
/// produced for some byte sequence yields exactly that sequence; of any
/// other input, nothing is claimed.
#[verifier::external_body]
fn zlib_inflate(input: &[u8]) -> (r: Option<Vec<u8>>)
    ensures
        match r {
            Some(out) => forall|original: Seq<u8>|
                input@ == deflate_of(original) ==> out@ == original,
            None => forall|original: Seq<u8>| input@ != deflate_of(original),
        },
{
    let mut decoder = flate2::read::ZlibDecoder::new(input);
    let mut decompressed: Vec<u8> = Vec::new();
    match decoder.read_to_end(&mut decompressed) {
        Ok(_) => Some(decompressed),
        Err(_) => None,
    }
}

// ---------------------------------------------------------------------------
// The frame model
// ---------------------------------------------------------------------------

/// What a well-formed frame holds once the outer length has been checked:
/// either the packet bytes in the clear, or a zlib block still to be
/// inflated.
pub enum FrameBody {
    /// An uncompressed frame: packet ID and payload.
    Plain { length: u32, id: u32, payload: Seq<u8> },
    /// A compressed frame: the claimed uncompressed size and the zlib block.
    Compressed { length: u32, claimed: u32, blob: Seq<u8> },
}

/// Splits `[varint id][payload]`.
pub open spec fn body_split(b: Seq<u8>) -> Result<(u32, Seq<u8>), WireError> {
    match data::varint_decode(b) {
        Ok((id, k)) => Ok((id, b.skip(k))),
        Err(e) => Err(e),
    }
}

/// The frame layer of decoding, everything short of inflating: reads the
/// outer length (zero is a protocol error, running short of it a framing
/// error), then resolves the three-way compression branch.
pub open spec fn frame_split(s: Seq<u8>, threshold: u32) -> Result<FrameBody, WireError> {
    match data::varint_decode(s) {
        Err(e) => Err(e),
        Ok((packet_length, n)) => {
            if packet_length == 0 {
                Err(WireError::ProtocolError)
            } else if s.len() - n < packet_length {
                Err(WireError::FramingError)
            } else {
                let body = s.subrange(n, n + packet_length);
                if threshold == 0 {
                    match body_split(body) {
                        Ok((id, payload)) => Ok(
                            FrameBody::Plain { length: packet_length, id, payload },
                        ),
                        Err(e) => Err(e),
                    }
                } else {
                    match data::varint_decode(body) {
                        Err(e) => Err(e),
                        Ok((data_length, m)) => {
                            if data_length >= threshold {
                                Ok(
                                    FrameBody::Compressed {
                                        length: packet_length,
                                        claimed: data_length,
                                        blob: body.skip(m),
                                    },
                                )
                            } else if data_length != 0 {
                                Err(WireError::ProtocolError)
                            } else {
                                match body_split(body.skip(m)) {
                                    Ok((id, payload)) => Ok(
                                        FrameBody::Plain { length: packet_length, id, payload },
                                    ),
                                    Err(e) => Err(e),
                                }
                            }
                        },
                    }
                }
            }
        },
    }
}

/// The full encoding of a frame for `id` and `payload` under `threshold`:
/// the exact inverse of what `frame_split` and inflation accept.
pub open spec fn frame_encoding(id: u32, payload: Seq<u8>, threshold: u32) -> Seq<u8> {
    let body = data::varint_encoding(id) + payload;
    if threshold == 0 {
        data::varint_encoding(body.len() as u32) + body
    } else if body.len() >= threshold {
        let compressed = deflate_of(body);
        data::varint_encoding((compressed.len() + data::varint_len(body.len() as u32)) as u32)
            + data::varint_encoding(body.len() as u32) + compressed
    } else {
        data::varint_encoding((body.len() + 1) as u32) + seq![0u8] + body
    }
}

/// The side conditions under which `frame_encoding` fits its length
/// prefixes: the packet and, when it is compressed, the zlib block must be
/// describable by a `u32` varint.
pub open spec fn frame_encoding_valid(id: u32, payload: Seq<u8>, threshold: u32) -> bool {
    let body = data::varint_encoding(id) + payload;
    &&& body.len() + 1 <= u32::MAX
    &&& (threshold != 0 && body.len() >= threshold ==> deflate_of(body).len()
        + data::varint_len(body.len() as u32) <= u32::MAX)
}

/// Splitting the encoding of `[varint id][payload]` gives back `id` and
/// `payload`.
pub proof fn lemma_body_split_roundtrip(id: u32, payload: Seq<u8>)
    ensures
        body_split(data::varint_encoding(id) + payload) == Ok::<(u32, Seq<u8>), WireError>(
            (id, payload),
        ),
{
    data::lemma_varint_roundtrip(id, payload);
    data::lemma_varint_len_bounds(id);
    assert((data::varint_encoding(id) + payload).skip(data::varint_len(id)) =~= payload);
}

/// Round trip of the frame layer: the encoding of a frame splits back into
/// its packet bytes, or into its zlib block when it was compressed.
pub proof fn lemma_frame_roundtrip(id: u32, payload: Seq<u8>, threshold: u32)
    requires
        frame_encoding_valid(id, payload, threshold),
    ensures
        ({
            let body = data::varint_encoding(id) + payload;
            let enc = frame_encoding(id, payload, threshold);
            if threshold == 0 {
                frame_split(enc, threshold) == Ok::<FrameBody, WireError>(
                    FrameBody::Plain { length: body.len() as u32, id, payload },
                )
            } else if body.len() >= threshold {
                frame_split(enc, threshold) == Ok::<FrameBody, WireError>(
                    FrameBody::Compressed {
                        length: (deflate_of(body).len() + data::varint_len(
                            body.len() as u32,
                        )) as u32,
                        claimed: body.len() as u32,
                        blob: deflate_of(body),
                    },
                )
            } else {
                frame_split(enc, threshold) == Ok::<FrameBody, WireError>(
                    FrameBody::Plain { length: (body.len() + 1) as u32, id, payload },
                )
            }
        }),
{
    let body = data::varint_encoding(id) + payload;
    let enc = frame_encoding(id, payload, threshold);
    data::lemma_varint_len_bounds(id);
    if threshold == 0 {
        let length = body.len() as u32;
        data::lemma_varint_roundtrip(length, body);
        let n = data::varint_len(length);
        assert(enc.subrange(n, n + length) =~= body);
        lemma_body_split_roundtrip(id, payload);
    } else if body.len() >= threshold {
        let compressed = deflate_of(body);
        let length = (compressed.len() + data::varint_len(body.len() as u32)) as u32;
        let claimed = body.len() as u32;
        let rest = data::varint_encoding(claimed) + compressed;
        assert(enc =~= data::varint_encoding(length) + rest);
        data::lemma_varint_roundtrip(length, rest);
        let n = data::varint_len(length);
        data::lemma_varint_len_bounds(claimed);
        assert(length >= 1);
        assert(enc.subrange(n, n + length) =~= rest);
        data::lemma_varint_roundtrip(claimed, compressed);
        let m = data::varint_len(claimed);
        assert(rest.skip(m) =~= compressed);
    } else {
        let length = (body.len() + 1) as u32;
        let rest = seq![0u8] + body;
        assert(0u32 & 0x7f == 0) by (bit_vector);
        assert(data::varint_encoding(0u32) =~= seq![0u8]);
        assert(enc =~= data::varint_encoding(length) + rest);
        data::lemma_varint_roundtrip(length, rest);
        let n = data::varint_len(length);
        assert(enc.subrange(n, n + length) =~= rest);
        assert(rest =~= data::varint_encoding(0u32) + body);
        data::lemma_varint_roundtrip(0u32, body);
        assert(rest.skip(1) =~= body);
        lemma_body_split_roundtrip(id, payload);
    }
}

// ---------------------------------------------------------------------------
// Reading and writing frames
// ---------------------------------------------------------------------------

/// The decoding work of `read_packet_from_bytes`, specified branch by
/// branch against `frame_split`; the round-trip statement is layered on top
/// by the public function.
fn read_packet_body(buffer: &[u8], compression_threshold: u32) -> (r: Result<RawPacket, WireError>)
    ensures
        match frame_split(buffer@, compression_threshold) {
            Err(e) => r == Err::<RawPacket, WireError>(e),
            Ok(FrameBody::Plain { length, id, payload }) => (r matches Ok(p) && p.0 == length
                && p.1 == id && p.2@ == payload),
            Ok(FrameBody::Compressed { length, claimed: _, blob }) => {
                &&& (r matches Ok(p) ==> p.0 == length && exists|inflated: Seq<u8>|
                    #[trigger] body_split(inflated) == Ok::<(u32, Seq<u8>), WireError>(
                        (p.1, p.2@),
                    ))
                &&& forall|original: Seq<u8>|
                    blob == deflate_of(original) ==> match body_split(original) {
                        Ok((id, payload)) => (r matches Ok(p) && p.0 == length && p.1 == id
                            && p.2@ == payload),
                        Err(e) => r == Err::<RawPacket, WireError>(e),
                    }
            },
        },
{
    proof {
        assert(buffer@.skip(0) =~= buffer@);
    }
    let mut pos: usize = 0;
    let packet_length = match data::read_varint(buffer, &mut pos) {
        Ok(v) => v,
        Err(e) => {
            return Err(e);
        },
    };
    if packet_length == 0 {
        return Err(WireError::ProtocolError);
    }
    if (packet_length as usize) > buffer.len() - pos {
        return Err(WireError::FramingError);
    }
    let body_end = pos + packet_length as usize;
    let body = vstd::slice::slice_to_vec(&buffer[pos..body_end]);
    proof {
        assert(body@ =~= buffer@.subrange(pos as int, pos + packet_length));
    }
    let mut bpos: usize = 0;
    if compression_threshold == 0 {
        proof {
            assert(body@.skip(0) =~= body@);
        }
        let packet_id = match data::read_varint(body.as_slice(), &mut bpos) {
            Ok(v) => v,
            Err(e) => {
                return Err(e);
            },
        };
        let payload = vstd::slice::slice_to_vec(&body.as_slice()[bpos..body.len()]);
        proof {
            assert(payload@ =~= body@.skip(bpos as int));
        }
        return Ok((packet_length, packet_id, payload));
    }
    proof {
        assert(body@.skip(0) =~= body@);
    }
    let data_length = match data::read_varint(body.as_slice(), &mut bpos) {
        Ok(v) => v,
        Err(e) => {
            return Err(e);
        },
    };
    if data_length >= compression_threshold {
        let blob = &body.as_slice()[bpos..body.len()];
        proof {
            assert(blob@ =~= body@.skip(bpos as int));
        }
        let decompressed = match zlib_inflate(blob) {
            Some(d) => d,
            None => {
                return Err(WireError::FramingError);
            },
        };
        let mut dpos: usize = 0;
        proof {
            assert(decompressed@.skip(0) =~= decompressed@);
        }
        let packet_id = match data::read_varint(decompressed.as_slice(), &mut dpos) {
            Ok(v) => v,
            Err(e) => {
                return Err(e);
            },
        };
        let payload = vstd::slice::slice_to_vec(&decompressed.as_slice()[dpos..decompressed.len()]);
        proof {
            assert(payload@ =~= decompressed@.skip(dpos as int));
            assert(body_split(decompressed@) == Ok::<(u32, Seq<u8>), WireError>(
                (packet_id, payload@),
            ));
        }
        Ok((packet_length, packet_id, payload))
    } else if data_length != 0 {
        Err(WireError::ProtocolError)
    } else {
        let packet_id = match data::read_varint(body.as_slice(), &mut bpos) {
            Ok(v) => v,
            Err(e) => {
                return Err(e);
            },
        };
        let payload = vstd::slice::slice_to_vec(&body.as_slice()[bpos..body.len()]);
        proof {
            assert(payload@ =~= body@.skip(bpos as int));
        }
        Ok((packet_length, packet_id, payload))
    }
}

/// Decodes one frame from `buffer`: the declared length, the packet ID and
/// the (inflated, when compressed) payload. The final clause is the round
/// trip: the encoding of any frame decodes back to its ID and payload.
pub fn read_packet_from_bytes(buffer: &[u8], compression_threshold: u32) -> (r: Result<
    RawPacket,
    WireError,
>)
    ensures
        match frame_split(buffer@, compression_threshold) {
            Err(e) => r == Err::<RawPacket, WireError>(e),
            Ok(FrameBody::Plain { length, id, payload }) => (r matches Ok(p) && p.0 == length
                && p.1 == id && p.2@ == payload),
            Ok(FrameBody::Compressed { length, claimed: _, blob }) => {
                &&& (r matches Ok(p) ==> p.0 == length && exists|inflated: Seq<u8>|
                    #[trigger] body_split(inflated) == Ok::<(u32, Seq<u8>), WireError>(
                        (p.1, p.2@),
                    ))
                &&& forall|original: Seq<u8>|
                    blob == deflate_of(original) ==> match body_split(original) {
                        Ok((id, payload)) => (r matches Ok(p) && p.0 == length && p.1 == id
                            && p.2@ == payload),
                        Err(e) => r == Err::<RawPacket, WireError>(e),
                    }
            },
        },
        forall|id: u32, payload: Seq<u8>|
            #![trigger frame_encoding(id, payload, compression_threshold)]
            frame_encoding_valid(id, payload, compression_threshold) && buffer@
                == frame_encoding(id, payload, compression_threshold) ==> (r matches Ok(p)
                && p.1 == id && p.2@ == payload),
{
    let r = read_packet_body(buffer, compression_threshold);
    proof {
        assert forall|id: u32, payload: Seq<u8>|
            #![trigger frame_encoding(id, payload, compression_threshold)]
            frame_encoding_valid(id, payload, compression_threshold) && buffer@
                == frame_encoding(id, payload, compression_threshold) implies (r matches Ok(p)
            && p.1 == id && p.2@ == payload) by {
            lemma_frame_roundtrip(id, payload, compression_threshold);
            lemma_body_split_roundtrip(id, payload);
        }
    }
    r
}

/// Encodes one frame for `packet_id` and `data` under the given threshold:
/// the outer length prefix, then the three-way compression branch, exactly
/// as `frame_encoding` lays it out. Fails only when the compressed block is
/// too large for its length prefix.
pub fn write_packet_to_bytes(packet_id: u32, data: &Vec<u8>, compression_threshold: u32) -> (r:
    Result<Vec<u8>, WireError>)
    requires
        data@.len() + 6 <= u32::MAX,
    ensures
        match r {
            Ok(out) => frame_encoding_valid(packet_id, data@, compression_threshold) && out@
                == frame_encoding(packet_id, data@, compression_threshold),
            Err(e) => e == WireError::FramingError && !frame_encoding_valid(
                packet_id,
                data@,
                compression_threshold,
            ),
        },
{
    proof {
        data::lemma_varint_len_bounds(packet_id);
    }
    let mut buffer: Vec<u8> = Vec::new();
    data::write_varint(&mut buffer, packet_id);
    buffer.extend_from_slice(data.as_slice());
    proof {
        assert(buffer@ =~= data::varint_encoding(packet_id) + data@);
    }
    let uncompressed_length = buffer.len() as u32;
    let mut final_buffer: Vec<u8> = Vec::new();
    if compression_threshold == 0 {
        data::write_varint(&mut final_buffer, uncompressed_length);
        final_buffer.extend_from_slice(buffer.as_slice());
        proof {
            assert(final_buffer@ =~= frame_encoding(packet_id, data@, compression_threshold));
        }
        Ok(final_buffer)
    } else if uncompressed_length >= compression_threshold {
        let compressed_data = zlib_deflate(buffer.as_slice());
        let inner_size = data::varint_size(uncompressed_length);
        proof {
            data::lemma_varint_len_bounds(uncompressed_length);
        }
        if compressed_data.len() > (u32::MAX as usize) - inner_size {
            return Err(WireError::FramingError);
        }
        let total_compressed_length = compressed_data.len() as u32 + inner_size as u32;
        data::write_varint(&mut final_buffer, total_compressed_length);
        data::write_varint(&mut final_buffer, uncompressed_length);
        final_buffer.extend_from_slice(compressed_data.as_slice());
        proof {
            assert(final_buffer@ =~= frame_encoding(packet_id, data@, compression_threshold));
        }
        Ok(final_buffer)
    } else {
        let uncompressed_length_with_indicator = uncompressed_length + 1;
        data::write_varint(&mut final_buffer, uncompressed_length_with_indicator);
        data::write_varint(&mut final_buffer, 0);
        proof {
            assert(0u32 & 0x7f == 0) by (bit_vector);
            assert(data::varint_encoding(0u32) =~= seq![0u8]);
        }
        final_buffer.extend_from_slice(buffer.as_slice());
        proof {
            assert(final_buffer@ =~= frame_encoding(packet_id, data@, compression_threshold));
        }
        Ok(final_buffer)
    }
}

// ---------------------------------------------------------------------------
// The packet capability contract and the type-erased handle
// ---------------------------------------------------------------------------

/// The capability contract every packet type implements: a static numeric ID
/// scoped to its direction and state, a runtime accessor for that ID usable
/// through a type-erased handle, and the up- and downcasts between the
/// concrete type and [`AnyPacket`].
pub trait Packet: Sized {
    /// This type's static ID.
    spec fn spec_id() -> u32;

    /// The `AnyPacket` variant that wraps an instance of this type.
    spec fn spec_wrap(self) -> AnyPacket;

    /// The static ID of this packet type.
    fn id() -> (r: u32)
        ensures
            r == Self::spec_id(),
    ;

    /// The ID of this instance; always the type's static ID.
    fn packet_id(&self) -> (r: u32)
        ensures
            r == Self::spec_id(),
    ;

    /// Upcast: erase this packet's type.
    fn wrap(self) -> (r: AnyPacket)
        ensures
            r == self.spec_wrap(),
    ;

    /// Downcast: recover an instance of this type from a type-erased packet,
    /// failing with `TypeMismatch` when the handle wraps some other type.
    fn from_any(packet: AnyPacket) -> (r: Result<Self, WireError>)
        ensures
            match r {
                Ok(q) => packet == q.spec_wrap(),
                Err(e) => (e == WireError::TypeMismatch && forall|q: Self|
                    packet != #[trigger] q.spec_wrap()),
            },
    ;
}

/// Stores a concrete packet behind one type-erased handle, preserving it
/// exactly: the tagged union the codec boundary works with.
#[derive(Clone, Debug)]
pub enum AnyPacket {
    Handshake(crate::packet::serverbound::HandshakePacket),
    StatusRequest(crate::packet::serverbound::StatusRequestPacket),
    StatusPing(crate::packet::serverbound::StatusPingPacket),
    StatusResponse(crate::packet::clientbound::StatusResponsePacket),
    StatusPong(crate::packet::clientbound::StatusPongPacket),
    LoginStart(crate::packet::serverbound::LoginStartPacket),
    LoginSuccess(crate::packet::clientbound::LoginSuccessPacket),
    LoginAcknowledged(crate::packet::serverbound::LoginAcknowledgedPacket),
    ClientInformation(crate::packet::serverbound::ClientInformationConfigPacket),
    ServerboundPluginMessage(crate::packet::serverbound::ConfigurationPluginMessagePacket),
    ClientboundPluginMessage(crate::packet::clientbound::ConfigurationPluginMessagePacket),
    SelectKnownPacks(crate::packet::clientbound::ConfigSelectKnownPacksPacket),
    ClientKnownPacks(crate::packet::serverbound::ClientKnownPacksPacket),
    FinishConfiguration(crate::packet::clientbound::FinishConfigurationPacket),
}

/// The spec-level shape of a type-erased packet.
pub enum AnyPacketView {
    Handshake(crate::packet::serverbound::HandshakeView),
    StatusRequest(crate::packet::serverbound::StatusRequestPacket),
    StatusPing(crate::packet::serverbound::StatusPingPacket),
    StatusResponse(Seq<char>),
    StatusPong(crate::packet::clientbound::StatusPongPacket),
    LoginStart(crate::packet::serverbound::LoginStartView),
    LoginSuccess(LoginSuccessView),
    LoginAcknowledged(crate::packet::serverbound::LoginAcknowledgedPacket),
    ClientInformation(crate::packet::serverbound::ClientInformationView),
    ServerboundPluginMessage(crate::packet::serverbound::PluginMessageView),
    ClientboundPluginMessage(crate::packet::serverbound::PluginMessageView),
    SelectKnownPacks(Seq<crate::common::KnownPackView>),
    ClientKnownPacks(Seq<crate::common::KnownPackView>),
    FinishConfiguration(crate::packet::clientbound::FinishConfigurationPacket),
}

/// The spec-level shape of a login success.
pub struct LoginSuccessView {
    pub username: Seq<char>,
    pub uuid: crate::data::UniqueId,
}

impl View for AnyPacket {
    type V = AnyPacketView;

    open spec fn view(&self) -> AnyPacketView {
        match self {
            AnyPacket::Handshake(p) => AnyPacketView::Handshake(p@),
            AnyPacket::StatusRequest(p) => AnyPacketView::StatusRequest(*p),
            AnyPacket::StatusPing(p) => AnyPacketView::StatusPing(*p),
            AnyPacket::StatusResponse(p) => AnyPacketView::StatusResponse(p.response@),
            AnyPacket::StatusPong(p) => AnyPacketView::StatusPong(*p),
            AnyPacket::LoginStart(p) => AnyPacketView::LoginStart(p@),
            AnyPacket::LoginSuccess(p) => AnyPacketView::LoginSuccess(
                LoginSuccessView { username: p.username@, uuid: p.uuid },
            ),
            AnyPacket::LoginAcknowledged(p) => AnyPacketView::LoginAcknowledged(*p),
            AnyPacket::ClientInformation(p) => AnyPacketView::ClientInformation(p@),
            AnyPacket::ServerboundPluginMessage(p) => AnyPacketView::ServerboundPluginMessage(p@),
            AnyPacket::ClientboundPluginMessage(p) => AnyPacketView::ClientboundPluginMessage(
                crate::packet::serverbound::PluginMessageView {
                    channel: p.channel@,
                    data: p.data@,
                },
            ),
            AnyPacket::SelectKnownPacks(p) => AnyPacketView::SelectKnownPacks(p@),
            AnyPacket::ClientKnownPacks(p) => AnyPacketView::ClientKnownPacks(p@),
            AnyPacket::FinishConfiguration(p) => AnyPacketView::FinishConfiguration(*p),
        }
    }
}

impl AnyPacket {
    /// The ID of the wrapped packet, scoped to its direction and state.
    pub open spec fn spec_packet_id(self) -> u32 {
        match self {
            AnyPacket::Handshake(_) => 0,
            AnyPacket::StatusRequest(_) => 0,
            AnyPacket::StatusPing(_) => 1,
            AnyPacket::StatusResponse(_) => 0,
            AnyPacket::StatusPong(_) => 1,
            AnyPacket::LoginStart(_) => 0,
            AnyPacket::LoginSuccess(_) => 2,
            AnyPacket::LoginAcknowledged(_) => 3,
            AnyPacket::ClientInformation(_) => 0,
            AnyPacket::ServerboundPluginMessage(_) => 2,
            AnyPacket::ClientboundPluginMessage(_) => 1,
            AnyPacket::SelectKnownPacks(_) => 0x0E,
            AnyPacket::ClientKnownPacks(_) => 7,
            AnyPacket::FinishConfiguration(_) => 3,
        }
    }

    /// Returns the wrapped packet's ID without knowing its concrete type.
    pub fn packet_id(&self) -> (r: u32)
        ensures
            r == self.spec_packet_id(),
    {
        match self {
            AnyPacket::Handshake(_) => 0,
            AnyPacket::StatusRequest(_) => 0,
            AnyPacket::StatusPing(_) => 1,
            AnyPacket::StatusResponse(_) => 0,
            AnyPacket::StatusPong(_) => 1,
            AnyPacket::LoginStart(_) => 0,
            AnyPacket::LoginSuccess(_) => 2,
            AnyPacket::LoginAcknowledged(_) => 3,
            AnyPacket::ClientInformation(_) => 0,
            AnyPacket::ServerboundPluginMessage(_) => 2,
            AnyPacket::ClientboundPluginMessage(_) => 1,
            AnyPacket::SelectKnownPacks(_) => 0x0E,
            AnyPacket::ClientKnownPacks(_) => 7,
            AnyPacket::FinishConfiguration(_) => 3,
        }
    }

    /// The payload bytes the wrapped packet encodes to, or `None` for a
    /// packet that is never legally sent (a serverbound-only type, or a
    /// known-packs offer whose entry names cannot be split).
    pub open spec fn spec_payload(self) -> Option<Seq<u8>> {
        match self {
            AnyPacket::Handshake(p) => Some(p.spec_encoding()),
            AnyPacket::StatusRequest(p) => Some(p.spec_encoding()),
            AnyPacket::StatusPing(p) => Some(p.spec_encoding()),
            AnyPacket::StatusResponse(p) => Some(p.spec_encoding()),
            AnyPacket::StatusPong(p) => Some(p.spec_encoding()),
            AnyPacket::LoginStart(_) => None,
            AnyPacket::LoginSuccess(p) => Some(p.spec_encoding()),
            AnyPacket::LoginAcknowledged(p) => Some(p.spec_encoding()),
            AnyPacket::ClientInformation(_) => None,
            AnyPacket::ServerboundPluginMessage(_) => None,
            AnyPacket::ClientboundPluginMessage(p) => Some(p.spec_encoding()),
            AnyPacket::SelectKnownPacks(p) => if p.spec_splittable() {
                Some(p.spec_encoding())
            } else {
                None
            },
            AnyPacket::ClientKnownPacks(_) => None,
            AnyPacket::FinishConfiguration(p) => Some(p.spec_encoding()),
        }
    }

    /// The machine limits under which the wrapped packet's payload can be
    /// encoded: every length must fit the `u32` varints that prefix it.
    pub open spec fn payload_fits(self) -> bool {
        match self {
            AnyPacket::Handshake(p) => vstd::utf8::encode_utf8(p.server_address@).len()
                <= u32::MAX,
            AnyPacket::StatusResponse(p) => vstd::utf8::encode_utf8(p.response@).len() <= u32::MAX,
            AnyPacket::LoginSuccess(p) => vstd::utf8::encode_utf8(p.username@).len() <= u32::MAX,
            AnyPacket::ClientboundPluginMessage(p) => vstd::utf8::encode_utf8(p.channel@).len()
                <= u32::MAX && p.data@.len() <= u32::MAX,
            AnyPacket::SelectKnownPacks(p) => p.entries@.len() <= u32::MAX && (forall|i: int|
                0 <= i < p.entries@.len() ==> (#[trigger] vstd::utf8::encode_utf8(
                    p.entries@[i]@.name,
                )).len() < u32::MAX && vstd::utf8::encode_utf8(p.entries@[i]@.version).len()
                    <= u32::MAX),
            _ => true,
        }
    }

    /// Encodes the wrapped packet's payload (the ID is not included; the
    /// frame writer prefixes it). Fails with `ProtocolError` for a packet
    /// that is never legally sent.
    pub fn encode_payload(&self) -> (r: Result<Vec<u8>, WireError>)
        requires
            self.payload_fits(),
        ensures
            match self.spec_payload() {
                Some(enc) => (r matches Ok(v) && v@ == enc),
                None => r == Err::<Vec<u8>, WireError>(WireError::ProtocolError),
            },
    {
        let mut buffer: Vec<u8> = Vec::new();
        match self {
            AnyPacket::Handshake(p) => p.write_to(&mut buffer),
            AnyPacket::StatusRequest(p) => p.write_to(&mut buffer),
            AnyPacket::StatusPing(p) => p.write_to(&mut buffer),
            AnyPacket::StatusResponse(p) => p.write_to(&mut buffer),
            AnyPacket::StatusPong(p) => p.write_to(&mut buffer),
            AnyPacket::LoginStart(_) => {
                return Err(WireError::ProtocolError);
            },
            AnyPacket::LoginSuccess(p) => p.write_to(&mut buffer),
            AnyPacket::LoginAcknowledged(p) => p.write_to(&mut buffer),
            AnyPacket::ClientInformation(_) => {
                return Err(WireError::ProtocolError);
            },
            AnyPacket::ServerboundPluginMessage(_) => {
                return Err(WireError::ProtocolError);
            },
            AnyPacket::ClientboundPluginMessage(p) => p.write_to(&mut buffer),
            AnyPacket::SelectKnownPacks(p) => {
                match p.write_to(&mut buffer) {
                    Ok(_) => {},
                    Err(e) => {
                        return Err(e);
                    },
                }
            },
            AnyPacket::ClientKnownPacks(_) => {
                return Err(WireError::ProtocolError);
            },
            AnyPacket::FinishConfiguration(p) => p.write_to(&mut buffer),
        }
        proof {
            assert(buffer@ =~= self.spec_payload().unwrap());
        }
        Ok(buffer)
    }
}

/// Erases a packet's concrete type so that heterogeneous packets can flow
/// through generic code.
pub fn upcast_packet<P: Packet>(packet: P) -> (r: AnyPacket)
    ensures
        r == packet.spec_wrap(),
{
    packet.wrap()
}

/// Recovers the concrete type of a type-erased packet; fails with
/// `TypeMismatch` when the handle wraps some other type.
pub fn downcast_packet<P: Packet>(packet: AnyPacket) -> (r: Result<P, WireError>)
    ensures
        match r {
            Ok(q) => packet == q.spec_wrap(),
            Err(e) => (e == WireError::TypeMismatch && forall|q: P|
                packet != #[trigger] q.spec_wrap()),
        },
{
    P::from_any(packet)
}

/// Writes one frame for `packet` under the given threshold: its ID varint
/// and payload, framed and compressed exactly as `frame_encoding` lays out.
/// Fails with `ProtocolError` for a packet that is never legally sent, and
/// with `FramingError` when the compressed block outgrows its length prefix.
pub fn write_packet(packet: &AnyPacket, compression_threshold: u32) -> (r: Result<
    Vec<u8>,
    WireError,
>)
    requires
        packet.payload_fits(),
        match packet.spec_payload() {
            Some(enc) => enc.len() + 6 <= u32::MAX,
            None => true,
        },
    ensures
        match packet.spec_payload() {
            None => r == Err::<Vec<u8>, WireError>(WireError::ProtocolError),
            Some(enc) => match r {
                Ok(out) => (frame_encoding_valid(
                    packet.spec_packet_id(),
                    enc,
                    compression_threshold,
                ) && out@ == frame_encoding(packet.spec_packet_id(), enc, compression_threshold)),
                Err(e) => (e == WireError::FramingError && !frame_encoding_valid(
                    packet.spec_packet_id(),
                    enc,
                    compression_threshold,
                )),
            },
        },
{
    let payload = match packet.encode_payload() {
        Ok(v) => v,
        Err(e) => {
            return Err(e);
        },
    };
    write_packet_to_bytes(packet.packet_id(), &payload, compression_threshold)
}

// ---------------------------------------------------------------------------
// State-scoped dispatch
// ---------------------------------------------------------------------------

/// The state-scoped dispatch table: which decoder the active state assigns
/// to a packet ID, and what it yields. An ID with no decoder registered in
/// the active state fails with `UnknownPacketId`, whatever the same number
/// means in another state; Play and Transfer register no decoders here.
pub open spec fn spec_read_packet_for_state(
    state: crate::player::State,
    id: u32,
    s: Seq<u8>,
) -> Result<AnyPacketView, WireError> {
    match state {
        crate::player::State::Handshake => if id == 0 {
            match serverbound::HandshakePacket::spec_decode(id, s) {
                Ok(v) => Ok(AnyPacketView::Handshake(v)),
                Err(e) => Err(e),
            }
        } else {
            Err(WireError::UnknownPacketId)
        },
        crate::player::State::Status => if id == 0 {
            match serverbound::StatusRequestPacket::spec_decode(id, s) {
                Ok(p) => Ok(AnyPacketView::StatusRequest(p)),
                Err(e) => Err(e),
            }
        } else if id == 1 {
            match serverbound::StatusPingPacket::spec_decode(id, s) {
                Ok(p) => Ok(AnyPacketView::StatusPing(p)),
                Err(e) => Err(e),
            }
        } else {
            Err(WireError::UnknownPacketId)
        },
        crate::player::State::Login => if id == 0 {
            match serverbound::LoginStartPacket::spec_decode(id, s) {
                Ok(v) => Ok(AnyPacketView::LoginStart(v)),
                Err(e) => Err(e),
            }
        } else if id == 3 {
            match serverbound::LoginAcknowledgedPacket::spec_decode(id, s) {
                Ok(p) => Ok(AnyPacketView::LoginAcknowledged(p)),
                Err(e) => Err(e),
            }
        } else {
            Err(WireError::UnknownPacketId)
        },
        crate::player::State::Configuration => if id == 0 {
            match serverbound::ClientInformationConfigPacket::spec_decode(id, s) {
                Ok(v) => Ok(AnyPacketView::ClientInformation(v)),
                Err(e) => Err(e),
            }
        } else if id == 2 {
            match serverbound::ConfigurationPluginMessagePacket::spec_decode(id, s) {
                Ok(v) => Ok(AnyPacketView::ServerboundPluginMessage(v)),
                Err(e) => Err(e),
            }
        } else if id == 3 {
            match clientbound::FinishConfigurationPacket::spec_decode(id, s) {
                Ok(p) => Ok(AnyPacketView::FinishConfiguration(p)),
                Err(e) => Err(e),
            }
        } else if id == 7 {
            match serverbound::ClientKnownPacksPacket::spec_decode(id, s) {
                Ok(v) => Ok(AnyPacketView::ClientKnownPacks(v)),
                Err(e) => Err(e),
            }
        } else {
            Err(WireError::UnknownPacketId)
        },
        crate::player::State::Play => Err(WireError::UnknownPacketId),
        crate::player::State::Transfer => Err(WireError::UnknownPacketId),
    }
}

/// Decodes one packet using the decoder table of `state`, exactly as the
/// dispatch-table spec lays out.
pub fn read_packet_for_state(
    state: &crate::player::State,
    id: u32,
    buffer: Vec<u8>,
) -> (r: Result<AnyPacket, WireError>)
    ensures
        match spec_read_packet_for_state(*state, id, buffer@) {
            Ok(v) => (r matches Ok(p) && p@ == v),
            Err(e) => r == Err::<AnyPacket, WireError>(e),
        },
{
    match state {
        crate::player::State::Handshake => {
            if id == 0 {
                match serverbound::HandshakePacket::read_from(id, buffer) {
                    Ok(p) => Ok(AnyPacket::Handshake(p)),
                    Err(e) => Err(e),
                }
            } else {
                Err(WireError::UnknownPacketId)
            }
        },
        crate::player::State::Status => {
            if id == 0 {
                match serverbound::StatusRequestPacket::read_from(id, buffer) {
                    Ok(p) => Ok(AnyPacket::StatusRequest(p)),
                    Err(e) => Err(e),
                }
            } else if id == 1 {
                match serverbound::StatusPingPacket::read_from(id, buffer) {
                    Ok(p) => Ok(AnyPacket::StatusPing(p)),
                    Err(e) => Err(e),
                }
            } else {
                Err(WireError::UnknownPacketId)
            }
        },
        crate::player::State::Login => {
            if id == 0 {
                match serverbound::LoginStartPacket::read_from(id, buffer) {
                    Ok(p) => Ok(AnyPacket::LoginStart(p)),
                    Err(e) => Err(e),
                }
            } else if id == 3 {
                match serverbound::LoginAcknowledgedPacket::read_from(id, buffer) {
                    Ok(p) => Ok(AnyPacket::LoginAcknowledged(p)),
                    Err(e) => Err(e),
                }
            } else {
                Err(WireError::UnknownPacketId)
            }
        },
        crate::player::State::Configuration => {
            if id == 0 {
                match serverbound::ClientInformationConfigPacket::read_from(id, buffer) {
                    Ok(p) => Ok(AnyPacket::ClientInformation(p)),
                    Err(e) => Err(e),
                }
            } else if id == 2 {
                match serverbound::ConfigurationPluginMessagePacket::read_from(id, buffer) {
                    Ok(p) => Ok(AnyPacket::ServerboundPluginMessage(p)),
                    Err(e) => Err(e),
                }
            } else if id == 3 {
                match clientbound::FinishConfigurationPacket::read_from(id, buffer) {
                    Ok(p) => Ok(AnyPacket::FinishConfiguration(p)),
                    Err(e) => Err(e),
                }
            } else if id == 7 {
                match serverbound::ClientKnownPacksPacket::read_from(id, buffer) {
                    Ok(p) => Ok(AnyPacket::ClientKnownPacks(p)),
                    Err(e) => Err(e),
                }
            } else {
                Err(WireError::UnknownPacketId)
            }
        },
        crate::player::State::Play => Err(WireError::UnknownPacketId),
        crate::player::State::Transfer => Err(WireError::UnknownPacketId),
    }
}

/// State-scoped dispatch is never crossed: an ID with no decoder in the
/// Login state is rejected as unknown on any payload, even where the same
/// number names a packet of another state (the Status ping, for one).
pub proof fn lemma_state_scoped_dispatch(id: u32, s: Seq<u8>)
    requires
        id != 0,
        id != 3,
    ensures
        spec_read_packet_for_state(crate::player::State::Login, id, s) == Err::<
            AnyPacketView,
            WireError,
        >(WireError::UnknownPacketId),
{
}

} // verus!
