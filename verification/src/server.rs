//! The accepting side of a handshake.

use vstd::prelude::*;
use crate::addr::{spec_addr_encodable, NodeAddr};
use crate::error::ProtocolError;
use crate::frames::spec_frame_views;
use crate::message::{spec_into_frames, MessageView, ProtocolMessage};
use crate::node_info::NodeInfo;
use crate::package::{spec_alert, AlertPackageLevel, Notice};
use crate::read_stream::spec_read_message_view;
use crate::state::{
    lemma_find_other_from, lemma_insert_wf, spec_find_other, spec_insert, PeerConnection,
    PeerView, ProtocolState, StateView, StreamMetadata,
};

verus! {

/// A connection that was accepted: who the peer is, and what is to be
/// written to it at once.
#[derive(Debug, PartialEq, Eq)]
pub struct Accepted {
    pub addr: NodeAddr,
    pub frames: Vec<Vec<u8>>,
}

/// An accepted connection as a mathematical value.
pub struct AcceptedView {
    pub addr: NodeAddr,
    pub frames: Seq<Seq<u8>>,
}

impl View for Accepted {
    type V = AcceptedView;

    open spec fn view(&self) -> AcceptedView {
        AcceptedView { addr: self.addr, frames: spec_frame_views(self.frames@) }
    }
}

/// The table entry of a peer that has just connected to this node. Where
/// there is another peer to tell it about, the entry knows of that peer.
pub open spec fn spec_server_peer(addr: NodeAddr, other: Option<PeerView>) -> PeerView {
    PeerView {
        addr,
        mailbox: Seq::empty(),
        ping: 0,
        ping_started_at: None,
        topology: None,
        knows_about: match other {
            Some(p) => seq![p.addr],
            None => Seq::empty(),
        },
    }
}

/// The node status that tells a new peer about `other`.
pub open spec fn spec_gossip_seed(other: PeerView) -> MessageView {
    MessageView::NodeStatus(NodeInfo { addr: other.addr, ping: other.ping })
}

/// The state after an accepted connection has come to nothing: the
/// application is told why, and nothing else has changed.
pub open spec fn spec_accept_failed(s: StateView, error: ProtocolError) -> StateView {
    StateView {
        packages: s.packages.push(
            spec_alert(AlertPackageLevel::ERROR, Notice::AcceptFailed { error }),
        ),
        ..s
    }
}

/// The first message on an accepted connection has been read. It must be a
/// connection init; the address in it is the peer's. Where the table has a
/// peer at another address, the first such peer is named to the new one in a
/// node status, which takes that peer's address to be IPv4. The id generator
/// moves on by one draw for every frame read and every frame to write. Then
/// the new peer enters the table. A failure is told to the application and
/// changes nothing else.
pub open spec fn spec_handle_connection(s: StateView, first: Option<(MessageView, nat)>) -> (
    StateView,
    Result<AcceptedView, ProtocolError>,
) {
    match first {
        Some((MessageView::ConnInit { server_addr }, frames_read)) => {
            let addr = server_addr;
            let joined = s.packages.push(
                spec_alert(AlertPackageLevel::INFO, Notice::NewJoin { addr }),
            );
            match spec_find_other(s.peers, addr) {
                None => (
                    StateView {
                        rng: s.rng.spec_advance(frames_read),
                        packages: joined,
                        peers: spec_insert(s.peers, spec_server_peer(addr, None)),
                        ..s
                    },
                    Ok(AcceptedView { addr, frames: Seq::empty() }),
                ),
                Some(j) => if !spec_addr_encodable(s.peers[j].addr) {
                    (
                        spec_accept_failed(s, ProtocolError::Ipv6Unsupported),
                        Err(ProtocolError::Ipv6Unsupported),
                    )
                } else {
                    let frames = spec_into_frames(spec_gossip_seed(s.peers[j]));
                    (
                        StateView {
                            rng: s.rng.spec_advance(frames_read).spec_advance(frames.len()),
                            packages: joined.push(
                                spec_alert(
                                    AlertPackageLevel::DEBUG,
                                    Notice::SendingNodeInfo { about: s.peers[j].addr },
                                ),
                            ),
                            peers: spec_insert(
                                s.peers,
                                spec_server_peer(addr, Some(s.peers[j])),
                            ),
                            ..s
                        },
                        Ok(AcceptedView { addr, frames }),
                    )
                },
            }
        },
        _ => (
            spec_accept_failed(s, ProtocolError::UnexpectedMessage),
            Err(ProtocolError::UnexpectedMessage),
        ),
    }
}

/// Accepting a connection leaves a well-formed state well formed.
pub proof fn lemma_handle_connection_wf(s: StateView, first: Option<(MessageView, nat)>)
    requires
        s.wf(),
    ensures
        spec_handle_connection(s, first).0.wf(),
{
    match first {
        Some((MessageView::ConnInit { server_addr }, _)) => {
            lemma_find_other_from(s.peers, server_addr, 0);
            match spec_find_other(s.peers, server_addr) {
                None => {
                    lemma_insert_wf(
                        s.peers,
                        spec_server_peer(server_addr, None),
                        s.config.max_ping_ms,
                    );
                },
                Some(j) => {
                    lemma_insert_wf(
                        s.peers,
                        spec_server_peer(server_addr, Some(s.peers[j])),
                        s.config.max_ping_ms,
                    );
                },
            }
        },
        _ => {},
    }
}

/// Tells the application that an accepted connection has come to nothing.
pub fn accept_failed(state: &mut ProtocolState, error: ProtocolError) -> (r: ProtocolError)
    ensures
        r == error,
        final(state)@ == spec_accept_failed(old(state)@, error),
{
    state.alert(AlertPackageLevel::ERROR, Notice::AcceptFailed { error });
    error
}

/// Registers a connection that this node has accepted, given the first
/// message read from it with the number of frames it came in, or nothing
/// where the peer has gone before sending one.
pub fn handle_connection(state: &mut ProtocolState, first: Option<(ProtocolMessage, usize)>) -> (r:
    Result<Accepted, ProtocolError>)
    ensures
        match r {
            Ok(accepted) => (final(state)@, Ok::<AcceptedView, ProtocolError>(accepted@))
                == spec_handle_connection(old(state)@, spec_read_message_view(first)),
            Err(e) => (final(state)@, Err::<AcceptedView, ProtocolError>(e))
                == spec_handle_connection(old(state)@, spec_read_message_view(first)),
        },
        old(state).wf() ==> final(state).wf(),
{
    proof {
        if old(state).wf() {
            lemma_handle_connection_wf(old(state)@, spec_read_message_view(first));
        }
    }
    let (addr, frames_read) = match first {
        Some((ProtocolMessage::ConnInit { server_addr }, frames_read)) => (
            server_addr,
            frames_read,
        ),
        _ => {
            return Err(accept_failed(state, ProtocolError::UnexpectedMessage));
        },
    };
    let mut conn_metadata = StreamMetadata::new();
    let mut frames: Vec<Vec<u8>> = Vec::new();
    assert(spec_frame_views(frames@) =~= Seq::empty());
    let ghost other: Option<PeerView> = None;
    match state.find_other_peer(addr) {
        Some(j) => {
            assert(state@.peers[j as int] == state.streams@[j as int]@);
            let targ_addr = state.streams[j].addr;
            let targ_ping = state.streams[j].metadata.ping;
            if let NodeAddr::V6 { .. } = targ_addr {
                return Err(accept_failed(state, ProtocolError::Ipv6Unsupported));
            }
            proof {
                other = Some(state@.peers[j as int]);
            }
            state.advance(frames_read);
            state.alert(AlertPackageLevel::INFO, Notice::NewJoin { addr });
            state.alert(AlertPackageLevel::DEBUG, Notice::SendingNodeInfo { about: targ_addr });
            conn_metadata.knows_about.push(targ_addr);
            frames =
            match state.send_message(
                ProtocolMessage::NodeStatus(NodeInfo::new(targ_addr, targ_ping)),
            ) {
                Ok(frames) => frames,
                Err(e) => {
                    return Err(e);
                },
            };
        },
        None => {
            state.advance(frames_read);
            state.alert(AlertPackageLevel::INFO, Notice::NewJoin { addr });
        },
    }
    let peer = PeerConnection { addr, mailbox: Vec::new(), metadata: conn_metadata };
    assert(peer@.mailbox =~= Seq::empty());
    assert(peer@.knows_about =~= spec_server_peer(addr, other).knows_about);
    assert(peer@ == spec_server_peer(addr, other));
    state.insert_peer(peer);
    Ok(Accepted { addr, frames })
}

} // verus!
