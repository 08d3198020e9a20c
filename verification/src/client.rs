//! The connecting side of a handshake.

use vstd::prelude::*;
use crate::addr::{spec_addr_encodable, NodeAddr};
use crate::commands::SourceInfo;
use crate::error::ProtocolError;
use crate::message::{spec_into_frames, MessageView, ProtocolMessage};
use crate::package::{spec_alert, AlertPackageLevel, Notice};
use crate::state::{
    lemma_insert_wf, spec_find, spec_insert, PeerConnection, PeerView, ProtocolState, StateView,
    StreamMetadata,
};
use crate::stream::{StepView, StreamStep};
use crate::triangle::{spec_sss_triangle, sss_triangle};

verus! {

/// The table entry of a peer that this node has connected to in `ping`
/// milliseconds. Where another peer named it, `src_ping` is the ping stored
/// for that peer: the entry then has a triangle and knows of that peer.
pub open spec fn spec_client_peer(
    addr: NodeAddr,
    ping: u16,
    src_info: Option<SourceInfo>,
    src_ping: u16,
) -> PeerView {
    match src_info {
        None => PeerView {
            addr,
            mailbox: Seq::empty(),
            ping,
            ping_started_at: None,
            topology: None,
            knows_about: Seq::empty(),
        },
        Some(src) => PeerView {
            addr,
            mailbox: Seq::empty(),
            ping,
            ping_started_at: None,
            topology: Some(spec_sss_triangle(src_ping, ping, src.src_to_targ_ping)),
            knows_about: seq![src.src_addr],
        },
    }
}

/// The state after a connection to `peer` has entered the table.
pub open spec fn spec_joined(s: StateView, peer: PeerView, src_info: Option<SourceInfo>)
    -> StateView {
    let joined = s.packages.push(
        spec_alert(AlertPackageLevel::INFO, Notice::Joined { addr: peer.addr }),
    );
    let angled = match (src_info, peer.topology) {
        (Some(src), Some(triangle)) => joined.push(
            spec_alert(
                AlertPackageLevel::DEBUG,
                Notice::CalculatedAngle { addr: src.src_addr, triangle },
            ),
        ),
        _ => joined,
    };
    StateView {
        peers: spec_insert(s.peers, peer),
        packages: angled.push(
            spec_alert(AlertPackageLevel::DEBUG, Notice::Connected { delay: peer.ping }),
        ),
        ..s
    }
}

/// The state after a connection to `addr` has come to nothing: the
/// application is told why, and nothing else has changed.
pub open spec fn spec_connect_failed(s: StateView, addr: NodeAddr, error: ProtocolError)
    -> StateView {
    StateView {
        packages: s.packages.push(
            spec_alert(AlertPackageLevel::ERROR, Notice::ConnectionFailed { addr, error }),
        ),
        ..s
    }
}

/// A connection to `addr` stands after `connect_ms` milliseconds. This node
/// says who it is, which takes its own address to be IPv4. A connection that
/// took longer to open than a round trip may take (60 000 ms, as a rule) is
/// closed again. Else the peer enters the table; the peer that named it, if
/// one did, must be in the table. A failure is told to the application and
/// changes nothing else.
pub open spec fn spec_start_client(
    s: StateView,
    addr: NodeAddr,
    src_info: Option<SourceInfo>,
    connect_ms: u64,
) -> (StateView, Result<StepView, ProtocolError>) {
    let init = MessageView::ConnInit { server_addr: s.server_addr };
    let src_peer = match src_info {
        Some(src) => spec_find(s.peers, src.src_addr),
        None => None,
    };
    if !spec_addr_encodable(s.server_addr) {
        (
            spec_connect_failed(s, addr, ProtocolError::Ipv6Unsupported),
            Err(ProtocolError::Ipv6Unsupported),
        )
    } else if connect_ms <= s.config.max_ping_ms && src_info is Some && src_peer is None {
        (
            spec_connect_failed(s, addr, ProtocolError::UnknownPeer),
            Err(ProtocolError::UnknownPeer),
        )
    } else {
        let sent = StateView {
            rng: s.rng.spec_advance(spec_into_frames(init).len()),
            packages: s.packages.push(
                spec_alert(
                    AlertPackageLevel::DEBUG,
                    Notice::SentInit { addr, server_addr: s.server_addr },
                ),
            ),
            ..s
        };
        if connect_ms > s.config.max_ping_ms {
            (
                StateView {
                    packages: sent.packages.push(
                        spec_alert(
                            AlertPackageLevel::WARNING,
                            Notice::PingTooBig { addr, ping: connect_ms },
                        ),
                    ),
                    ..sent
                },
                Ok(StepView { frames: spec_into_frames(init), close: true }),
            )
        } else {
            let src_ping = match src_peer {
                Some(j) => s.peers[j].ping,
                None => 0,
            };
            (
                spec_joined(
                    sent,
                    spec_client_peer(addr, connect_ms as u16, src_info, src_ping),
                    src_info,
                ),
                Ok(StepView { frames: spec_into_frames(init), close: false }),
            )
        }
    }
}

/// Opening a connection leaves a well-formed state well formed.
pub proof fn lemma_start_client_wf(
    s: StateView,
    addr: NodeAddr,
    src_info: Option<SourceInfo>,
    connect_ms: u64,
)
    requires
        s.wf(),
    ensures
        spec_start_client(s, addr, src_info, connect_ms).0.wf(),
{
    if connect_ms <= s.config.max_ping_ms {
        let src_ping = match src_info {
            Some(src) => match spec_find(s.peers, src.src_addr) {
                Some(j) => s.peers[j].ping,
                None => 0,
            },
            None => 0,
        };
        lemma_insert_wf(
            s.peers,
            spec_client_peer(addr, connect_ms as u16, src_info, src_ping),
            s.config.max_ping_ms,
        );
    }
}

/// Tells the application that a connection to `addr` has come to nothing.
pub fn connect_failed(state: &mut ProtocolState, addr: NodeAddr, error: ProtocolError) -> (r:
    ProtocolError)
    ensures
        r == error,
        final(state)@ == spec_connect_failed(old(state)@, addr, error),
{
    state.alert(AlertPackageLevel::ERROR, Notice::ConnectionFailed { addr, error });
    error
}

/// Registers a connection that this node has opened to `addr` in
/// `connect_ms` milliseconds. The frames that come back are to be written at
/// once; where the step says so, the socket is then closed and there is no
/// connection.
pub fn start_client(
    state: &mut ProtocolState,
    addr: NodeAddr,
    src_info: Option<SourceInfo>,
    connect_ms: u64,
) -> (r: Result<StreamStep, ProtocolError>)
    ensures
        match r {
            Ok(step) => (final(state)@, Ok::<StepView, ProtocolError>(step@))
                == spec_start_client(old(state)@, addr, src_info, connect_ms),
            Err(e) => (final(state)@, Err::<StepView, ProtocolError>(e)) == spec_start_client(
                old(state)@,
                addr,
                src_info,
                connect_ms,
            ),
        },
        old(state).wf() ==> final(state).wf(),
{
    proof {
        if old(state).wf() {
            lemma_start_client_wf(old(state)@, addr, src_info, connect_ms);
        }
    }
    let server_addr = state.r.server_addr;
    if let NodeAddr::V6 { .. } = server_addr {
        return Err(connect_failed(state, addr, ProtocolError::Ipv6Unsupported));
    }
    let max_ping = state.r.config.max_ping_ms as u64;
    let mut src_ping: u16 = 0;
    if connect_ms <= max_ping {
        if let Some(src) = src_info {
            match state.find_peer(src.src_addr) {
                Some(j) => {
                    assert(state@.peers[j as int] == state.streams@[j as int]@);
                    src_ping = state.streams[j].metadata.ping;
                },
                None => {
                    return Err(connect_failed(state, addr, ProtocolError::UnknownPeer));
                },
            }
        }
    }
    let frames = match state.send_message(ProtocolMessage::ConnInit { server_addr }) {
        Ok(frames) => frames,
        Err(e) => {
            return Err(e);
        },
    };
    state.alert(AlertPackageLevel::DEBUG, Notice::SentInit { addr, server_addr });
    if connect_ms > max_ping {
        state.alert(AlertPackageLevel::WARNING, Notice::PingTooBig { addr, ping: connect_ms });
        return Ok(StreamStep { frames, close: true });
    }
    let ping = connect_ms as u16;
    state.alert(AlertPackageLevel::INFO, Notice::Joined { addr });

    let mut targ_metadata = StreamMetadata::new();
    targ_metadata.ping = ping;
    if let Some(src) = src_info {
        let triangle = sss_triangle(src_ping, ping, src.src_to_targ_ping);
        state.alert(
            AlertPackageLevel::DEBUG,
            Notice::CalculatedAngle { addr: src.src_addr, triangle },
        );
        targ_metadata.topology = Some(triangle);
        targ_metadata.knows_about.push(src.src_addr);
    }
    let peer = PeerConnection { addr, mailbox: Vec::new(), metadata: targ_metadata };
    assert(peer@.mailbox =~= Seq::empty());
    assert(peer@.knows_about =~= spec_client_peer(addr, ping, src_info, src_ping).knows_about);
    assert(peer@ == spec_client_peer(addr, ping, src_info, src_ping));
    state.insert_peer(peer);
    state.alert(AlertPackageLevel::DEBUG, Notice::Connected { delay: ping });
    Ok(StreamStep { frames, close: false })
}

} // verus!
