//! What a node does about a message that a peer has sent.

use vstd::prelude::*;
use crate::addr::NodeAddr;
use crate::commands::ProtocolCommand;
use crate::error::ProtocolError;
use crate::message::{copy_bytes, MessageView, ProtocolMessage};
use crate::node_info::NodeInfo;
use crate::package::{
    spec_alert, AlertPackageLevel, AppPackage, MessagePackage, Notice, PackageView,
};
use crate::state::{
    lemma_find, lemma_worst, spec_enqueue_others, spec_find, spec_max_ping, spec_worst,
    DedupExpiry, PeerView, ProtocolState, StateView,
};
use crate::stream::{ActionView, RequestView, StreamAction, StreamRequest};
use crate::triangle::{spec_sss_triangle, sss_triangle};

verus! {

/// The outcome of an event, with the action as a mathematical value.
pub open spec fn spec_action_view(r: Result<StreamAction, ProtocolError>) -> Result<
    ActionView,
    ProtocolError,
> {
    match r {
        Ok(a) => Ok(a@),
        Err(e) => Err(e),
    }
}

/// A message read off a socket, as a mathematical value.
pub open spec fn spec_read_message_view(message: Option<(ProtocolMessage, usize)>) -> Option<
    (MessageView, nat),
> {
    match message {
        Some((m, n)) => Some((m@, n as nat)),
        None => None,
    }
}

/// After how many milliseconds a broadcast id is forgotten: twice the
/// highest ping in the peer table, and one where that is zero.
pub open spec fn spec_expiry_delay(max_ping: u16) -> u64 {
    if max_ping == 0 {
        1
    } else {
        (2 * max_ping) as u64
    }
}

/// The command to connect to a node that the peer at `addr` has named.
pub open spec fn spec_connect_command(addr: NodeAddr, info: NodeInfo) -> ProtocolCommand {
    ProtocolCommand::ClientConnect {
        targ_addr: info.addr,
        src_to_targ_ping: info.ping,
        src_addr: addr,
    }
}

/// Application data from the peer at `addr`. Under an id that is in the
/// table of ids seen it changes nothing. Else the id enters that table, every
/// other peer gets the message into its mailbox, the application gets the
/// data, and the id is set to be forgotten.
pub open spec fn spec_on_data(s: StateView, addr: NodeAddr, id: u64, bytes: Seq<u8>) -> (
    StateView,
    Result<ActionView, ProtocolError>,
) {
    if s.seen.contains(id) {
        (s, Ok(ActionView::Nothing))
    } else {
        (
            StateView {
                peers: spec_enqueue_others(
                    s.peers,
                    Some(addr),
                    RequestView::Send(MessageView::Data(id, bytes)),
                ),
                seen: s.seen.insert(id),
                packages: s.packages.push(PackageView::Message { from: addr, msg: bytes }),
                expiries: s.expiries.push(
                    DedupExpiry { id, after_ms: spec_expiry_delay(spec_max_ping(s.peers)) },
                ),
                ..s
            },
            Ok(ActionView::Nothing),
        )
    }
}

/// The peer at `addr` names a node. A node that is a peer already is of no
/// interest. With fewer peers than the node aims to have at most (four, as a
/// rule) the node is connected to. Else the node is connected to and then the
/// peer with the highest ping is disconnected, if any peer has a ping above
/// zero.
pub open spec fn spec_on_node_status(s: StateView, addr: NodeAddr, info: NodeInfo) -> (
    StateView,
    Result<ActionView, ProtocolError>,
) {
    if spec_find(s.peers, info.addr) is Some {
        (s, Ok(ActionView::Nothing))
    } else if s.peers.len() < s.config.max_peers {
        (
            StateView {
                packages: s.packages.push(
                    spec_alert(
                        AlertPackageLevel::DEBUG,
                        Notice::ConnectingToNode { addr: info.addr, src_ping: info.ping },
                    ),
                ),
                commands: s.commands.push(spec_connect_command(addr, info)),
                ..s
            },
            Ok(ActionView::Nothing),
        )
    } else {
        match spec_worst(s.peers) {
            Some(w) => (
                StateView {
                    packages: s.packages.push(
                        spec_alert(
                            AlertPackageLevel::DEBUG,
                            Notice::ChangingNodes { from: s.peers[w].addr, to: info.addr },
                        ),
                    ),
                    commands: s.commands.push(spec_connect_command(addr, info)).push(
                        ProtocolCommand::ClientDisconnect(s.peers[w].addr),
                    ),
                    ..s
                },
                Ok(ActionView::Nothing),
            ),
            None => (s, Ok(ActionView::Nothing)),
        }
    }
}

/// The peer after a pong that came in time.
pub open spec fn spec_ponged(peer: PeerView, ping: u16, src: Option<PeerView>, info: Option<
    NodeInfo,
>) -> PeerView {
    match (src, info) {
        (Some(src), Some(info)) => PeerView {
            ping,
            ping_started_at: None,
            topology: Some(spec_sss_triangle(src.ping, ping, info.ping)),
            ..peer
        },
        _ => PeerView { ping, ping_started_at: None, ..peer },
    }
}

/// The packages that tell of a pong that came in time.
pub open spec fn spec_pong_packages(
    packages: Seq<PackageView>,
    addr: NodeAddr,
    ping: u16,
    src: Option<PeerView>,
    info: Option<NodeInfo>,
) -> Seq<PackageView> {
    match (src, info) {
        (Some(src), Some(info)) => packages.push(
            spec_alert(
                AlertPackageLevel::DEBUG,
                Notice::CalculatedAngle {
                    addr,
                    triangle: spec_sss_triangle(src.ping, ping, info.ping),
                },
            ),
        ).push(spec_alert(AlertPackageLevel::DEBUG, Notice::ReceivedPong { delay: ping })),
        _ => packages.push(
            spec_alert(AlertPackageLevel::DEBUG, Notice::ReceivedPong { delay: ping }),
        ),
    }
}

/// A pong from the peer at `addr`, at time `now`. Without a ping that waits
/// for it, it changes nothing. A pong that took longer than is tolerated
/// (60 000 ms, as a rule) ends the connection. Else the time it took becomes
/// the peer's ping and no ping is waited for any more; where the pong names a
/// node, the peer's triangle is that of the ping stored for the named node,
/// the new ping and the ping that the pong claims.
pub open spec fn spec_on_pong(s: StateView, addr: NodeAddr, info: Option<NodeInfo>, now: u64) -> (
    StateView,
    Result<ActionView, ProtocolError>,
) {
    match spec_find(s.peers, addr) {
        None => (s, Err(ProtocolError::UnknownPeer)),
        Some(i) => match s.peers[i].ping_started_at {
            None => (s, Ok(ActionView::Nothing)),
            Some(started) => if now < started {
                (s, Err(ProtocolError::ClockWentBackwards))
            } else if now - started > s.config.max_ping_ms {
                (
                    StateView {
                        packages: s.packages.push(
                            spec_alert(
                                AlertPackageLevel::WARNING,
                                Notice::PingTooBig { addr, ping: (now - started) as u64 },
                            ),
                        ),
                        ..s
                    },
                    Ok(ActionView::InitiateDisconnect),
                )
            } else {
                let ping = (now - started) as u16;
                let src = match info {
                    Some(info) => match spec_find(s.peers, info.addr) {
                        Some(j) => Some(s.peers[j]),
                        None => None,
                    },
                    None => None,
                };
                if info is Some && src is None {
                    (s, Err(ProtocolError::UnknownPeer))
                } else {
                    (
                        StateView {
                            peers: s.peers.update(i, spec_ponged(s.peers[i], ping, src, info)),
                            packages: spec_pong_packages(s.packages, addr, ping, src, info),
                            ..s
                        },
                        Ok(ActionView::Nothing),
                    )
                }
            },
        },
    }
}

/// The node that a pong to the peer at position `i` names: the first that
/// the peer is known to know, with the ping stored for it.
pub open spec fn spec_pong_info(peers: Seq<PeerView>, i: int) -> Result<
    Option<NodeInfo>,
    ProtocolError,
> {
    if peers[i].knows_about.len() == 0 {
        Ok(None)
    } else {
        match spec_find(peers, peers[i].knows_about[0]) {
            Some(j) => Ok(Some(NodeInfo { addr: peers[i].knows_about[0], ping: peers[j].ping })),
            None => Err(ProtocolError::UnknownPeer),
        }
    }
}

/// A ping from the peer at `addr`: it is answered with a pong.
pub open spec fn spec_on_ping(s: StateView, addr: NodeAddr) -> (
    StateView,
    Result<ActionView, ProtocolError>,
) {
    match spec_find(s.peers, addr) {
        None => (s, Err(ProtocolError::UnknownPeer)),
        Some(i) => match spec_pong_info(s.peers, i) {
            Err(e) => (s, Err(e)),
            Ok(info) => (
                StateView {
                    packages: s.packages.push(
                        spec_alert(
                            AlertPackageLevel::DEBUG,
                            Notice::ReceivedPing { from: addr, info },
                        ),
                    ),
                    ..s
                },
                Ok(ActionView::Send(MessageView::Pong(info))),
            ),
        },
    }
}

/// What a message from the peer at `addr` does to the state and what the
/// connection is to do next. No message means that the peer has gone. The id
/// generator moves on by one draw for every frame that the message came in.
pub open spec fn spec_read_message(
    s: StateView,
    addr: NodeAddr,
    message: Option<(MessageView, nat)>,
    now: u64,
) -> (StateView, Result<ActionView, ProtocolError>) {
    match message {
        None => (s, Ok(ActionView::InitiateDisconnect)),
        Some((m, frames)) => {
            let s1 = StateView { rng: s.rng.spec_advance(frames), ..s };
            match m {
                MessageView::ConnInit { .. } => (s1, Err(ProtocolError::UnexpectedMessage)),
                MessageView::ConnClosed => (s1, Ok(ActionView::AcceptDisconnect)),
                MessageView::Data(id, bytes) => spec_on_data(s1, addr, id, bytes),
                MessageView::NodeStatus(info) => spec_on_node_status(s1, addr, info),
                MessageView::Pong(info) => spec_on_pong(s1, addr, info, now),
                MessageView::Ping => spec_on_ping(s1, addr),
            }
        },
    }
}

/// A message leaves a well-formed state well formed.
pub proof fn lemma_read_message_wf(
    s: StateView,
    addr: NodeAddr,
    message: Option<(MessageView, nat)>,
    now: u64,
)
    requires
        s.wf(),
    ensures
        spec_read_message(s, addr, message, now).0.wf(),
        spec_read_message(s, addr, message, now).0.config == s.config,
{
    let after = spec_read_message(s, addr, message, now).0;
    lemma_find(s.peers, addr);
    assert(after.peers.len() == s.peers.len());
    assert forall|i: int| 0 <= i < after.peers.len() implies (#[trigger] after.peers[i]).addr
        == s.peers[i].addr && after.peers[i].ping <= s.config.max_ping_ms by {}
    assert forall|i: int, j: int| 0 <= i < j < after.peers.len() implies (
    #[trigger] after.peers[i]).addr != (#[trigger] after.peers[j]).addr by {
        assert(s.peers[i].addr != s.peers[j].addr);
    }
}

/// Data under an id that is in the table of ids seen is dropped: whoever
/// sent it and whatever it holds, no mailbox, no queue and no table changes,
/// and the connection goes on. Only the id generator moves.
pub proof fn lemma_seen_data_is_dropped(
    s: StateView,
    addr: NodeAddr,
    id: u64,
    bytes: Seq<u8>,
    frames: nat,
    now: u64,
)
    requires
        s.seen.contains(id),
    ensures
        spec_read_message(s, addr, Some((MessageView::Data(id, bytes), frames)), now) == (
            StateView { rng: s.rng.spec_advance(frames), ..s },
            Ok::<ActionView, ProtocolError>(ActionView::Nothing),
        ),
{
}

/// Data under an id that is not in the table of ids seen is delivered to
/// the application once and forwarded once to every peer but the sender; the
/// same id is dropped from then on, from whatever peer it comes, until it is
/// forgotten.
pub proof fn lemma_data_is_delivered_once(
    s: StateView,
    addr: NodeAddr,
    id: u64,
    bytes: Seq<u8>,
    frames: nat,
    now: u64,
    again_from: NodeAddr,
    again_bytes: Seq<u8>,
    again_frames: nat,
    again_now: u64,
)
    requires
        !s.seen.contains(id),
    ensures
        ({
            let first = spec_read_message(
                s,
                addr,
                Some((MessageView::Data(id, bytes), frames)),
                now,
            ).0;
            let second = spec_read_message(
                first,
                again_from,
                Some((MessageView::Data(id, again_bytes), again_frames)),
                again_now,
            ).0;
            &&& first.packages == s.packages.push(PackageView::Message { from: addr, msg: bytes })
            &&& first.peers.len() == s.peers.len()
            &&& forall|i: int|
                0 <= i < s.peers.len() ==> (#[trigger] first.peers[i]).mailbox == if s.peers[i].addr
                    == addr {
                    s.peers[i].mailbox
                } else {
                    s.peers[i].mailbox.push(RequestView::Send(MessageView::Data(id, bytes)))
                }
            &&& first.seen.contains(id)
            &&& second == (StateView { rng: first.rng.spec_advance(again_frames), ..first })
        }),
{
    let first = spec_read_message(s, addr, Some((MessageView::Data(id, bytes), frames)), now).0;
    lemma_seen_data_is_dropped(first, again_from, id, again_bytes, again_frames, again_now);
}

/// A node with as many peers as it aims to have at most (four, as a rule)
/// or more, of which one has a ping above zero, is told of a node that is no
/// peer of it. Whatever ping is claimed for that
/// node, exactly two commands are issued: first to connect to the node, then
/// to disconnect the peer with the highest ping, which is the first of them
/// where several have it. Nothing else changes but the application's queue.
pub proof fn lemma_eviction(s: StateView, addr: NodeAddr, info: NodeInfo, w: int)
    requires
        s.peers.len() >= s.config.max_peers,
        spec_find(s.peers, info.addr) is None,
        0 <= w < s.peers.len(),
        s.peers[w].ping > 0,
        forall|j: int| 0 <= j < s.peers.len() ==> (#[trigger] s.peers[j]).ping <= s.peers[w].ping,
        forall|j: int| 0 <= j < w ==> (#[trigger] s.peers[j]).ping < s.peers[w].ping,
    ensures
        ({
            let after = spec_on_node_status(s, addr, info).0;
            &&& after.commands == s.commands.push(
                ProtocolCommand::ClientConnect {
                    targ_addr: info.addr,
                    src_to_targ_ping: info.ping,
                    src_addr: addr,
                },
            ).push(ProtocolCommand::ClientDisconnect(s.peers[w].addr))
            &&& after.peers == s.peers
            &&& after.seen == s.seen
            &&& after.rng == s.rng
            &&& after.expiries == s.expiries
            &&& after.config == s.config
        }),
{
    lemma_worst(s.peers, s.peers.len() as int);
    let found = spec_worst(s.peers);
    assert(found is Some) by {
        if found is None {
            assert(s.peers[w].ping <= 0);
        }
    }
    let x = found->0;
    assert(x == w) by {
        if x < w {
            assert(s.peers[x].ping < s.peers[w].ping);
        }
        if w < x {
            assert(s.peers[w].ping < s.peers[x].ping);
        }
    }
}

/// A node with as many peers as it aims to have at most, or more, that all
/// have a ping of zero is told of a node that is no peer of it: nothing is
/// issued and nothing changes.
pub proof fn lemma_no_eviction_without_latency(s: StateView, addr: NodeAddr, info: NodeInfo)
    requires
        s.peers.len() >= s.config.max_peers,
        forall|j: int| 0 <= j < s.peers.len() ==> (#[trigger] s.peers[j]).ping == 0,
    ensures
        spec_on_node_status(s, addr, info).0 == s,
{
    lemma_worst(s.peers, s.peers.len() as int);
    match spec_worst(s.peers) {
        Some(x) => {
            assert(s.peers[x].ping == 0);
        },
        None => {},
    }
}

/// A node with fewer peers than it aims to have at most (four, as a rule)
/// is told of a node that is no peer of it: exactly one command is issued, to
/// connect to that node, carrying the address of the peer that told of it and
/// the ping that it claimed.
pub proof fn lemma_connect_below_bound(s: StateView, addr: NodeAddr, info: NodeInfo)
    requires
        s.peers.len() < s.config.max_peers,
        spec_find(s.peers, info.addr) is None,
    ensures
        spec_on_node_status(s, addr, info).0.commands == s.commands.push(
            spec_connect_command(addr, info),
        ),
        spec_on_node_status(s, addr, info).0.peers == s.peers,
{
}

/// A node is told of a node that is a peer of it already: nothing changes.
pub proof fn lemma_known_node_is_ignored(s: StateView, addr: NodeAddr, info: NodeInfo)
    requires
        spec_find(s.peers, info.addr) is Some,
    ensures
        spec_on_node_status(s, addr, info).0 == s,
{
}

fn on_data(state: &mut ProtocolState, addr: NodeAddr, id: u64, data: Vec<u8>) -> (r: Result<
    StreamAction,
    ProtocolError,
>)
    ensures
        (final(state)@, spec_action_view(r)) == spec_on_data(old(state)@, addr, id, data@),
{
    if state.has_seen(id) {
        return Ok(StreamAction::Nothing);
    }
    state.remember(id);
    let (biggest_ping, _) = state.worst_peer();
    let request = StreamRequest::Send(ProtocolMessage::Data(id, copy_bytes(&data)));
    state.enqueue_others(Some(addr), &request);
    let after_ms: u64 = if biggest_ping == 0 {
        1
    } else {
        biggest_ping as u64 * 2
    };
    state.schedule(DedupExpiry { id, after_ms });
    state.emit(AppPackage::Message(MessagePackage { from: addr, msg: data }));
    Ok(StreamAction::Nothing)
}

fn on_node_status(state: &mut ProtocolState, addr: NodeAddr, info: NodeInfo) -> (r: Result<
    StreamAction,
    ProtocolError,
>)
    ensures
        (final(state)@, spec_action_view(r)) == spec_on_node_status(old(state)@, addr, info),
{
    if state.find_peer(info.addr).is_some() {
        return Ok(StreamAction::Nothing);
    }
    let connect = ProtocolCommand::ClientConnect {
        targ_addr: info.addr,
        src_to_targ_ping: info.ping,
        src_addr: addr,
    };
    if state.streams.len() < state.r.config.max_peers {
        assert(state@.peers.len() == state.streams@.len());
        state.alert(
            AlertPackageLevel::DEBUG,
            Notice::ConnectingToNode { addr: info.addr, src_ping: info.ping },
        );
        state.command(connect);
    } else {
        assert(state@.peers.len() == state.streams@.len());
        let (_, worst_node) = state.worst_peer();
        if let Some(w) = worst_node {
            let r_addr = state.streams[w].addr;
            assert(r_addr == state@.peers[w as int].addr);
            state.alert(
                AlertPackageLevel::DEBUG,
                Notice::ChangingNodes { from: r_addr, to: info.addr },
            );
            // first connect, so that a failure there leaves the old peer in place
            state.command(connect);
            state.command(ProtocolCommand::ClientDisconnect(r_addr));
        }
    }
    Ok(StreamAction::Nothing)
}

fn on_pong(state: &mut ProtocolState, addr: NodeAddr, info: Option<NodeInfo>, now: u64) -> (r:
    Result<StreamAction, ProtocolError>)
    ensures
        (final(state)@, spec_action_view(r)) == spec_on_pong(old(state)@, addr, info, now),
{
    let i = match state.find_peer(addr) {
        Some(i) => i,
        None => {
            return Err(ProtocolError::UnknownPeer);
        },
    };
    assert(state@.peers[i as int] == state.streams@[i as int]@);
    let started = match state.streams[i].metadata.ping_started_at {
        Some(started) => started,
        None => {
            // no ping was asked for, so there is nothing to measure
            return Ok(StreamAction::Nothing);
        },
    };
    if now < started {
        return Err(ProtocolError::ClockWentBackwards);
    }
    let elapsed = now - started;
    if elapsed > state.r.config.max_ping_ms as u64 {
        state.alert(AlertPackageLevel::WARNING, Notice::PingTooBig { addr, ping: elapsed });
        return Ok(StreamAction::InitiateDisconnect);
    }
    let ping = elapsed as u16;
    let ghost src = match info {
        Some(info) => match spec_find(state@.peers, info.addr) {
            Some(j) => Some(state@.peers[j]),
            None => None,
        },
        None => None,
    };
    let triangle = match info {
        Some(info) => match state.find_peer(info.addr) {
            Some(j) => {
                assert(state@.peers[j as int] == state.streams@[j as int]@);
                Some(sss_triangle(state.streams[j].metadata.ping, ping, info.ping))
            },
            None => {
                return Err(ProtocolError::UnknownPeer);
            },
        },
        None => None,
    };
    state.streams[i].metadata.ping = ping;
    state.streams[i].metadata.ping_started_at = None;
    if let Some(t) = triangle {
        state.streams[i].metadata.topology = Some(t);
    }
    assert(state@.peers =~= old(state)@.peers.update(
        i as int,
        spec_ponged(old(state)@.peers[i as int], ping, src, info),
    ));
    if let Some(t) = triangle {
        state.alert(AlertPackageLevel::DEBUG, Notice::CalculatedAngle { addr, triangle: t });
    }
    state.alert(AlertPackageLevel::DEBUG, Notice::ReceivedPong { delay: ping });
    Ok(StreamAction::Nothing)
}

fn on_ping(state: &mut ProtocolState, addr: NodeAddr) -> (r: Result<StreamAction, ProtocolError>)
    ensures
        (final(state)@, spec_action_view(r)) == spec_on_ping(old(state)@, addr),
{
    let i = match state.find_peer(addr) {
        Some(i) => i,
        None => {
            return Err(ProtocolError::UnknownPeer);
        },
    };
    assert(state@.peers[i as int] == state.streams@[i as int]@);
    let info = if state.streams[i].metadata.knows_about.len() > 0 {
        let targ_addr = state.streams[i].metadata.knows_about[0];
        match state.find_peer(targ_addr) {
            Some(j) => {
                assert(state@.peers[j as int] == state.streams@[j as int]@);
                Some(NodeInfo::new(targ_addr, state.streams[j].metadata.ping))
            },
            None => {
                return Err(ProtocolError::UnknownPeer);
            },
        }
    } else {
        None
    };
    state.alert(AlertPackageLevel::DEBUG, Notice::ReceivedPing { from: addr, info });
    Ok(StreamAction::Send(ProtocolMessage::Pong(info)))
}

/// Takes in what was read off the socket of the peer at `addr`: a message
/// with the number of frames it came in, or nothing where the peer has gone.
/// `now` is the time in milliseconds on the clock that also stamped the pings.
pub fn read_message(
    state: &mut ProtocolState,
    addr: NodeAddr,
    message: Option<(ProtocolMessage, usize)>,
    now: u64,
) -> (r: Result<StreamAction, ProtocolError>)
    ensures
        (final(state)@, spec_action_view(r)) == spec_read_message(
            old(state)@,
            addr,
            spec_read_message_view(message),
            now,
        ),
        old(state).wf() ==> final(state).wf(),
{
    proof {
        if old(state).wf() {
            lemma_read_message_wf(old(state)@, addr, spec_read_message_view(message), now);
        }
    }
    let (message, frames) = match message {
        Some(read) => read,
        None => {
            // the stream has ended: the peer is gone
            return Ok(StreamAction::InitiateDisconnect);
        },
    };
    state.advance(frames);
    match message {
        ProtocolMessage::ConnInit { .. } => Err(ProtocolError::UnexpectedMessage),
        ProtocolMessage::ConnClosed => Ok(StreamAction::AcceptDisconnect),
        ProtocolMessage::Data(id, data) => on_data(state, addr, id, data),
        ProtocolMessage::NodeStatus(info) => on_node_status(state, addr, info),
        ProtocolMessage::Pong(info) => on_pong(state, addr, info, now),
        ProtocolMessage::Ping => on_ping(state, addr),
    }
}

} // verus!
