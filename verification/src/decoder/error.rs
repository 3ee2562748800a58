//! Errors raised while decoding an Intel PT packet stream.

use vstd::prelude::*;

verus! {

/// Error for packet decoding.
///
/// `E` is the packet handler's error type.
#[derive(Debug, PartialEq, Eq, Clone, Copy)]
pub enum DecoderError<E> {
    /// Packet handler error
    PacketHandler(E),
    /// Invalid packet
    InvalidPacket,
    /// No PSB packet found
    ///
    /// The PSB packet is required to be the start position for decoding
    NoPsb,
    /// Unexpected EOF
    UnexpectedEOF,
    /// Currently unimplemented
    Unimplemented,
    /// Unexpected decoder error
    Unexpected,
}

} // verus!
