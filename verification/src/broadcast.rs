//! What the application and the command processor ask of the engine:
//! broadcasts, disconnects, and commands.

use vstd::prelude::*;
use crate::addr::NodeAddr;
use crate::commands::{CommandAction, ProtocolCommand, SourceInfo};
use crate::error::ProtocolError;
use crate::message::{MessageView, ProtocolMessage};
use crate::state::{spec_enqueue, spec_enqueue_others, spec_find, ProtocolState, StateView};
use crate::stream::{RequestView, StreamRequest};

verus! {

/// A broadcast of `bytes`: the next number of the id generator is the id,
/// and every peer gets the data under that id into its mailbox.
pub open spec fn spec_broadcast_data(s: StateView, bytes: Seq<u8>) -> (StateView, u64) {
    let id = s.rng.spec_output();
    (
        StateView {
            rng: s.rng.spec_step(),
            peers: spec_enqueue_others(
                s.peers,
                None,
                RequestView::Send(MessageView::Data(id, bytes)),
            ),
            ..s
        },
        id,
    )
}

/// A request to close the connection to the peer at `addr` goes into that
/// peer's mailbox, if there is such a peer.
pub open spec fn spec_disconnect(s: StateView, addr: NodeAddr) -> (
    StateView,
    Result<(), ProtocolError>,
) {
    match spec_find(s.peers, addr) {
        Some(i) => (
            StateView { peers: spec_enqueue(s.peers, i, RequestView::Disconnect), ..s },
            Ok(()),
        ),
        None => (s, Err(ProtocolError::UnknownPeer)),
    }
}

/// What a command leaves to be done: a connection to open, or nothing once
/// the request to disconnect is in the peer's mailbox.
pub open spec fn spec_process_command(s: StateView, command: ProtocolCommand) -> (
    StateView,
    CommandAction,
) {
    match command {
        ProtocolCommand::ClientConnect { targ_addr, src_to_targ_ping, src_addr } => (
            s,
            CommandAction::Connect {
                addr: targ_addr,
                src_info: Some(SourceInfo { src_addr, src_to_targ_ping }),
            },
        ),
        ProtocolCommand::ClientDisconnect(addr) => (
            spec_disconnect(s, addr).0,
            CommandAction::Nothing,
        ),
    }
}

impl ProtocolState {
    /// Sends `data` to every peer under a fresh id, which is returned.
    pub fn broadcast_data(&mut self, data: Vec<u8>) -> (id: u64)
        ensures
            (final(self)@, id) == spec_broadcast_data(old(self)@, data@),
            old(self).wf() ==> final(self).wf(),
    {
        let id = self.state.next();
        let request = StreamRequest::Send(ProtocolMessage::Data(id, data));
        self.enqueue_others(None, &request);
        id
    }

    /// Asks for the connection to the peer at `addr` to be closed.
    pub fn disconnect(&mut self, addr: NodeAddr) -> (r: Result<(), ProtocolError>)
        ensures
            (final(self)@, r) == spec_disconnect(old(self)@, addr),
            old(self).wf() ==> final(self).wf(),
    {
        match self.find_peer(addr) {
            Some(i) => {
                self.enqueue(i, StreamRequest::Disconnect);
                Ok(())
            },
            None => Err(ProtocolError::UnknownPeer),
        }
    }
}

/// Takes a command in and says what is left to be done about it outside.
pub fn process_command(state: &mut ProtocolState, command: ProtocolCommand) -> (r: CommandAction)
    ensures
        (final(state)@, r) == spec_process_command(old(state)@, command),
        old(state).wf() ==> final(state).wf(),
{
    match command {
        ProtocolCommand::ClientConnect { targ_addr, src_to_targ_ping, src_addr } => {
            CommandAction::Connect {
                addr: targ_addr,
                src_info: Some(SourceInfo { src_addr, src_to_targ_ping }),
            }
        },
        ProtocolCommand::ClientDisconnect(addr) => {
            let _ = state.disconnect(addr);
            CommandAction::Nothing
        },
    }
}

} // verus!
