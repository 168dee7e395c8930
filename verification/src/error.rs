//! The error taxonomy shared by the wire codec, the packet layer and the
//! connection state machine.

use vstd::prelude::*;

verus! {

/// Everything that can go wrong while framing, decoding or sequencing
/// packets. Codec- and packet-level errors are returned to the immediate
/// caller and are fatal to the connection that produced them.
#[derive(Clone, Copy, PartialEq, Eq, Structural, Debug)]
pub enum WireError {
    /// Zero or invalid frame length, or a truncated read.
    FramingError,
    /// A variable-length integer spanned more than five groups.
    MalformedVarint,
    /// Bytes that are not valid UTF-8 where a string was expected.
    InvalidEncoding,
    /// A decode function was invoked with an ID other than the type's own.
    IdMismatch,
    /// A type-erased downcast did not match the requested packet type.
    TypeMismatch,
    /// No decoder is registered for this packet ID in the active state.
    UnknownPacketId,
    /// A handshake named a next state other than Status, Login or Transfer.
    InvalidNextState,
    /// An out-of-sequence packet, or a wrong acknowledgement.
    ProtocolError,
}

impl WireError {
    /// A short human-readable name for the error, for logging by callers.
    pub fn describe(&self) -> (r: &'static str)
        ensures
            r@.len() > 0,
    {
        let s: &'static str = match self {
            WireError::FramingError => "invalid or truncated frame",
            WireError::MalformedVarint => "varint too long",
            WireError::InvalidEncoding => "invalid encoding",
            WireError::IdMismatch => "packet id mismatch",
            WireError::TypeMismatch => "packet type mismatch",
            WireError::UnknownPacketId => "unknown packet id for state",
            WireError::InvalidNextState => "invalid next state",
            WireError::ProtocolError => "protocol error",
        };
        proof {
            reveal_strlit("invalid or truncated frame");
            reveal_strlit("varint too long");
            reveal_strlit("invalid encoding");
            reveal_strlit("packet id mismatch");
            reveal_strlit("packet type mismatch");
            reveal_strlit("unknown packet id for state");
            reveal_strlit("invalid next state");
            reveal_strlit("protocol error");
        }
        s
    }
}

} // verus!
