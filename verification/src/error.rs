//! Everything that makes the engine give up on a frame, a message or an event.

use vstd::prelude::*;

verus! {

/// Why an operation of the protocol engine failed. Every failure is local to
/// the connection it happened on.
#[derive(Clone, Copy, Debug, PartialEq, Eq, Structural)]
pub enum ProtocolError {
    /// An IPv6 address was to be put on the wire.
    Ipv6Unsupported,
    /// A frame header whose reserved bits are not all zero.
    ReservedBits,
    /// A frame header whose opcode names no message.
    UnknownOpcode,
    /// A message that fits one frame by definition came without the final bit.
    SingleFrameNotFinal,
    /// An embedded address, node description or broadcast id is cut short.
    NotEnoughBytes,
    /// A connection-init message whose address is all zeros, which stands
    /// for no address.
    AddressRequired,
    /// A node-status message whose address is all zeros, which stands for no
    /// node description.
    NodeInfoRequired,
    /// A message that may not arrive in the state the connection is in, or
    /// none where one is due.
    UnexpectedMessage,
    /// An address that should be in the peer table is not.
    UnknownPeer,
    /// The clock reads earlier than the moment the outstanding ping was sent.
    ClockWentBackwards,
    /// Reading from or writing to the socket failed.
    Io,
}

} // verus!
