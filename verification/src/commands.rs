//! What the engine asks of whoever owns the sockets.

use vstd::prelude::*;
use crate::addr::NodeAddr;

verus! {

/// A request to open or to close a connection.
#[derive(Clone, Copy, Debug, PartialEq, Eq, Structural)]
pub enum ProtocolCommand {
    /// Connect to `targ_addr`, a node that the peer at `src_addr` has named
    /// together with its own latency to it.
    ClientConnect { targ_addr: NodeAddr, src_to_targ_ping: u16, src_addr: NodeAddr },
    /// Close the connection to this peer.
    ClientDisconnect(NodeAddr),
}

/// Who named the node that a connection goes to, and the latency that it
/// claimed between itself and that node.
#[derive(Clone, Copy, Debug, PartialEq, Eq, Structural)]
pub struct SourceInfo {
    pub src_addr: NodeAddr,
    pub src_to_targ_ping: u16,
}

/// What is to be done about a command once the engine has seen it.
#[derive(Clone, Copy, Debug, PartialEq, Eq, Structural)]
pub enum CommandAction {
    /// Open a connection to `addr`, measure how long that takes, and hand it
    /// to the engine with `src_info`.
    Connect { addr: NodeAddr, src_info: Option<SourceInfo> },
    /// Nothing is left to do.
    Nothing,
}

} // verus!
