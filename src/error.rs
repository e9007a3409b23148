use vstd::prelude::*;

verus! {

/// Why a frame or a message could not be decoded or encoded.
#[derive(Debug, Clone, Copy, PartialEq, Eq, Structural)]
pub enum SocketIoError {
    /// A frame or a message of zero length.
    EmptyInput,
    /// A frame whose leading character is no known frame type.
    UnknownFrameType,
    /// A message whose leading character is no known message type.
    UnknownMessageType,
    /// An acknowledgement message without a numeric ack id.
    MissingAck,
    /// A field that the caller requires is absent from the payload.
    MissingField,
    /// The header's ack id does not fit in 64 bits.
    MalformedHeader,
    /// Binary parameters have no text encoding.
    UnsupportedFeature,
}

} // verus!
