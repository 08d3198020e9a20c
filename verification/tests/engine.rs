use protocol::addr::NodeAddr;
use protocol::broadcast::process_command;
use protocol::client::start_client;
use protocol::commands::{CommandAction, ProtocolCommand, SourceInfo};
use protocol::error::ProtocolError;
use protocol::handle_stream::protocol_handle_stream;
use protocol::message::ProtocolMessage;
use protocol::node_info::NodeInfo;
use protocol::package::{AlertPackage, AlertPackageLevel, AppPackage, MessagePackage, Notice};
use protocol::ping_stream::{ping_action, PingClock};
use protocol::prng::Splitmix64;
use protocol::read_stream::read_message;
use protocol::server::{handle_connection, Accepted};
use protocol::state::{
    DedupExpiry, ProtocolConfig, ProtocolState, MAX_PEERS, MAX_PING_MS, PING_INTERVAL,
};
use protocol::stream::{StreamAction, StreamEvent, StreamPoll, StreamRequest, StreamStep};
use protocol::triangle::Triangle;

fn node(n: u8) -> NodeAddr {
    NodeAddr::V4 { a: 127, b: 0, c: 0, d: 1, port: 7000 + n as u16 }
}

fn ipv6() -> NodeAddr {
    NodeAddr::V6 { ip: 1, port: 9, flowinfo: 0, scope_id: 0 }
}

/// A frame that starts with `head` and is zero from there to its 256th byte.
fn padded(head: &[u8]) -> Vec<u8> {
    let mut frame = head.to_vec();
    frame.resize(256, 0);
    frame
}

fn debug(msg: Notice) -> AppPackage {
    AppPackage::Alert(AlertPackage { level: AlertPackageLevel::DEBUG, msg })
}

fn info(msg: Notice) -> AppPackage {
    AppPackage::Alert(AlertPackage { level: AlertPackageLevel::INFO, msg })
}

fn warning(msg: Notice) -> AppPackage {
    AppPackage::Alert(AlertPackage { level: AlertPackageLevel::WARNING, msg })
}

fn error(msg: Notice) -> AppPackage {
    AppPackage::Alert(AlertPackage { level: AlertPackageLevel::ERROR, msg })
}

/// A node at `node(0)` with peers `node(1)`, `node(2)`, ... at the given pings.
fn with_peers(pings: &[u16]) -> ProtocolState {
    let mut state = ProtocolState::new(node(0), 1);
    for (i, ping) in pings.iter().enumerate() {
        let step = start_client(&mut state, node(i as u8 + 1), None, *ping as u64).unwrap();
        assert!(!step.close);
    }
    state.packages.clear();
    state
}

fn rng_words(state: &ProtocolState) -> (u64, u64, u64, u64) {
    (state.state.s0, state.state.s1, state.state.s2, state.state.s3)
}

fn advanced(state: &ProtocolState, n: usize) -> (u64, u64, u64, u64) {
    let mut g = state.state;
    g.advance(n);
    (g.s0, g.s1, g.s2, g.s3)
}

#[test]
fn constants() {
    assert_eq!(MAX_PEERS, 4);
    assert_eq!(MAX_PING_MS, 60_000);
    assert_eq!(PING_INTERVAL, 120);
}

#[test]
fn usual_limits() {
    assert_eq!(ProtocolConfig::default(), ProtocolConfig { max_peers: 4, max_ping_ms: 60_000 });
    let state = ProtocolState::new(node(0), 1);
    assert_eq!(state.read().config, ProtocolConfig::default());
}

#[test]
fn limits_of_its_own() {
    let config = ProtocolConfig { max_peers: 2, max_ping_ms: 100 };
    let mut state = ProtocolState::with_config(node(0), 1, config);
    assert_eq!(state.read().config, config);
    // opening a connection may take 100 ms and no more
    assert!(start_client(&mut state, node(1), None, 101).unwrap().close);
    assert!(!start_client(&mut state, node(1), None, 100).unwrap().close);
    assert!(!start_client(&mut state, node(2), None, 7).unwrap().close);
    // so may a round trip
    ping_action(&mut state, node(2), 1_000).unwrap();
    assert_eq!(
        read_message(&mut state, node(2), Some((ProtocolMessage::Pong(None), 1)), 1_101),
        Ok(StreamAction::InitiateDisconnect)
    );
    assert_eq!(
        read_message(&mut state, node(2), Some((ProtocolMessage::Pong(None), 1)), 1_100),
        Ok(StreamAction::Nothing)
    );
    assert_eq!(state.streams[1].metadata.ping, 100);
    // two peers are as many as this node wants
    read_message(
        &mut state,
        node(1),
        Some((ProtocolMessage::NodeStatus(NodeInfo::new(node(7), 15)), 1)),
        0,
    )
    .unwrap();
    assert_eq!(
        state.commands,
        vec![
            ProtocolCommand::ClientConnect {
                targ_addr: node(7),
                src_to_targ_ping: 15,
                src_addr: node(1)
            },
            ProtocolCommand::ClientDisconnect(node(1)),
        ]
    );
}

#[test]
fn new_state_is_empty_and_seeded() {
    let state = ProtocolState::new(node(0), 1234567);
    assert_eq!(state.read().server_addr, node(0));
    assert!(state.streams.is_empty());
    assert!(state.data_id_states.is_empty());
    assert!(state.commands.is_empty());
    assert!(state.packages.is_empty());
    assert!(state.expiries.is_empty());
    let g = Splitmix64::new(1234567).xorshift256ss();
    assert_eq!(rng_words(&state), (g.s0, g.s1, g.s2, g.s3));
    assert_eq!(state.state.s0, 0x599ed017fb08fc85);
}

#[test]
fn start_client_registers_the_peer() {
    let mut state = ProtocolState::new(node(0), 1234567);
    let before = advanced(&state, 1);
    let step = start_client(&mut state, node(1), None, 37).unwrap();
    assert_eq!(
        step,
        StreamStep { frames: vec![padded(&[0x81, 127, 0, 0, 1, 0x1b, 0x58])], close: false }
    );
    assert_eq!(rng_words(&state), before);
    assert_eq!(state.streams.len(), 1);
    let peer = &state.streams[0];
    assert_eq!(peer.addr, node(1));
    assert!(peer.mailbox.is_empty());
    assert_eq!(peer.metadata.ping, 37);
    assert_eq!(peer.metadata.ping_started_at, None);
    assert_eq!(peer.metadata.topology, None);
    assert!(peer.metadata.knows_about.is_empty());
    assert_eq!(
        state.packages,
        vec![
            debug(Notice::SentInit { addr: node(1), server_addr: node(0) }),
            info(Notice::Joined { addr: node(1) }),
            debug(Notice::Connected { delay: 37 }),
        ]
    );
}

#[test]
fn start_client_refuses_a_slow_connect() {
    let mut state = ProtocolState::new(node(0), 1);
    let step = start_client(&mut state, node(1), None, 60_001).unwrap();
    assert!(step.close);
    assert_eq!(step.frames, vec![padded(&[0x81, 127, 0, 0, 1, 0x1b, 0x58])]);
    assert!(state.streams.is_empty());
    assert_eq!(
        state.packages,
        vec![
            debug(Notice::SentInit { addr: node(1), server_addr: node(0) }),
            warning(Notice::PingTooBig { addr: node(1), ping: 60_001 }),
        ]
    );
    let step = start_client(&mut state, node(1), None, 60_000).unwrap();
    assert!(!step.close);
    assert_eq!(state.streams[0].metadata.ping, 60_000);
}

#[test]
fn start_client_needs_an_ipv4_server_address() {
    let mut state = ProtocolState::new(ipv6(), 1);
    let words = rng_words(&state);
    assert_eq!(start_client(&mut state, node(1), None, 5), Err(ProtocolError::Ipv6Unsupported));
    assert!(state.streams.is_empty());
    assert_eq!(
        state.packages,
        vec![error(Notice::ConnectionFailed {
            addr: node(1),
            error: ProtocolError::Ipv6Unsupported
        })]
    );
    assert_eq!(rng_words(&state), words);
}

#[test]
fn start_client_with_a_source_triangulates() {
    let mut state = with_peers(&[30]);
    let src = SourceInfo { src_addr: node(1), src_to_targ_ping: 50 };
    let step = start_client(&mut state, node(2), Some(src), 40).unwrap();
    assert!(!step.close);
    let peer = &state.streams[1];
    assert_eq!(peer.addr, node(2));
    assert_eq!(peer.metadata.ping, 40);
    assert_eq!(peer.metadata.topology, Some(Triangle { a: 30, b: 40, c: 50 }));
    assert_eq!(peer.metadata.knows_about, vec![node(1)]);
    assert_eq!(
        state.packages,
        vec![
            debug(Notice::SentInit { addr: node(2), server_addr: node(0) }),
            info(Notice::Joined { addr: node(2) }),
            debug(Notice::CalculatedAngle {
                addr: node(1),
                triangle: Triangle { a: 30, b: 40, c: 50 }
            }),
            debug(Notice::Connected { delay: 40 }),
        ]
    );
}

#[test]
fn start_client_with_an_unknown_source_fails() {
    let mut state = with_peers(&[30]);
    let words = rng_words(&state);
    let src = SourceInfo { src_addr: node(9), src_to_targ_ping: 50 };
    assert_eq!(start_client(&mut state, node(2), Some(src), 40), Err(ProtocolError::UnknownPeer));
    assert_eq!(state.streams.len(), 1);
    assert_eq!(
        state.packages,
        vec![error(Notice::ConnectionFailed { addr: node(2), error: ProtocolError::UnknownPeer })]
    );
    assert_eq!(rng_words(&state), words);
    // a connect that is too slow anyway is refused before the source is looked up
    let step = start_client(&mut state, node(2), Some(src), 70_000).unwrap();
    assert!(step.close);
}

#[test]
fn reconnecting_replaces_the_entry() {
    let mut state = with_peers(&[10, 20, 30]);
    state.disconnect(node(2)).unwrap();
    assert_eq!(state.streams[1].mailbox.len(), 1);
    start_client(&mut state, node(2), None, 99).unwrap();
    let addrs: Vec<NodeAddr> = state.streams.iter().map(|p| p.addr).collect();
    assert_eq!(addrs, vec![node(1), node(3), node(2)]);
    assert_eq!(state.streams[2].metadata.ping, 99);
    assert!(state.streams[2].mailbox.is_empty());
}

#[test]
fn handle_connection_needs_an_init_first() {
    let mut state = ProtocolState::new(node(0), 1);
    let words = rng_words(&state);
    assert_eq!(handle_connection(&mut state, None), Err(ProtocolError::UnexpectedMessage));
    assert_eq!(
        handle_connection(&mut state, Some((ProtocolMessage::Ping, 1))),
        Err(ProtocolError::UnexpectedMessage)
    );
    assert_eq!(
        handle_connection(&mut state, Some((ProtocolMessage::Data(1, vec![]), 1))),
        Err(ProtocolError::UnexpectedMessage)
    );
    assert!(state.streams.is_empty());
    let refused = error(Notice::AcceptFailed { error: ProtocolError::UnexpectedMessage });
    assert_eq!(state.packages, vec![refused.clone(), refused.clone(), refused]);
    assert_eq!(rng_words(&state), words);
}

#[test]
fn handle_connection_of_the_first_peer_sends_nothing() {
    let mut state = ProtocolState::new(node(0), 1);
    let expected = advanced(&state, 1);
    let accepted =
        handle_connection(&mut state, Some((ProtocolMessage::ConnInit { server_addr: node(1) }, 1)))
            .unwrap();
    assert_eq!(accepted, Accepted { addr: node(1), frames: vec![] });
    assert_eq!(rng_words(&state), expected);
    assert_eq!(state.streams.len(), 1);
    assert_eq!(state.streams[0].addr, node(1));
    assert_eq!(state.streams[0].metadata.ping, 0);
    assert!(state.streams[0].metadata.knows_about.is_empty());
    assert_eq!(state.packages, vec![info(Notice::NewJoin { addr: node(1) })]);
}

#[test]
fn handle_connection_seeds_gossip_about_another_peer() {
    let mut state = with_peers(&[300, 20]);
    let expected = advanced(&state, 3);
    let accepted =
        handle_connection(&mut state, Some((ProtocolMessage::ConnInit { server_addr: node(5) }, 2)))
            .unwrap();
    assert_eq!(accepted.addr, node(5));
    // node(1) at 127.0.0.1:7001 with a ping of 300 ms
    assert_eq!(accepted.frames, vec![padded(&[0x86, 127, 0, 0, 1, 0x1b, 0x59, 0x01, 0x2c])]);
    assert_eq!(rng_words(&state), expected);
    assert_eq!(state.streams.len(), 3);
    assert_eq!(state.streams[2].addr, node(5));
    assert_eq!(state.streams[2].metadata.knows_about, vec![node(1)]);
    assert_eq!(
        state.packages,
        vec![
            info(Notice::NewJoin { addr: node(5) }),
            debug(Notice::SendingNodeInfo { about: node(1) }),
        ]
    );
}

#[test]
fn handle_connection_does_not_name_the_peer_to_itself() {
    let mut state = with_peers(&[300]);
    let accepted =
        handle_connection(&mut state, Some((ProtocolMessage::ConnInit { server_addr: node(1) }, 1)))
            .unwrap();
    assert!(accepted.frames.is_empty());
    assert_eq!(state.streams.len(), 1);
    assert_eq!(state.streams[0].metadata.ping, 0);
}

#[test]
fn handle_connection_cannot_name_an_ipv6_peer() {
    let mut state = ProtocolState::new(node(0), 1);
    start_client(&mut state, ipv6(), None, 5).unwrap();
    state.packages.clear();
    let words = rng_words(&state);
    assert_eq!(
        handle_connection(
            &mut state,
            Some((ProtocolMessage::ConnInit { server_addr: node(1) }, 1))
        ),
        Err(ProtocolError::Ipv6Unsupported)
    );
    assert_eq!(state.streams.len(), 1);
    assert_eq!(
        state.packages,
        vec![error(Notice::AcceptFailed { error: ProtocolError::Ipv6Unsupported })]
    );
    assert_eq!(rng_words(&state), words);
}

#[test]
fn end_of_stream_starts_a_disconnect() {
    let mut state = with_peers(&[10]);
    let words = rng_words(&state);
    assert_eq!(read_message(&mut state, node(1), None, 0), Ok(StreamAction::InitiateDisconnect));
    assert_eq!(rng_words(&state), words);
    assert_eq!(state.streams.len(), 1);
}

#[test]
fn init_after_the_handshake_is_a_violation() {
    let mut state = with_peers(&[10]);
    let expected = advanced(&state, 1);
    assert_eq!(
        read_message(
            &mut state,
            node(1),
            Some((ProtocolMessage::ConnInit { server_addr: node(1) }, 1)),
            0
        ),
        Err(ProtocolError::UnexpectedMessage)
    );
    assert_eq!(rng_words(&state), expected);
}

#[test]
fn close_from_the_peer_is_accepted() {
    let mut state = with_peers(&[10]);
    assert_eq!(
        read_message(&mut state, node(1), Some((ProtocolMessage::ConnClosed, 1)), 0),
        Ok(StreamAction::AcceptDisconnect)
    );
}

#[test]
fn the_generator_moves_once_per_frame_read() {
    let mut state = with_peers(&[10]);
    let expected = advanced(&state, 4);
    read_message(&mut state, node(1), Some((ProtocolMessage::Data(5, vec![1; 900]), 4)), 0)
        .unwrap();
    assert_eq!(rng_words(&state), expected);
}

#[test]
fn data_is_delivered_forwarded_and_remembered() {
    let mut state = with_peers(&[10, 250, 30]);
    let data = ProtocolMessage::Data(77, b"hey".to_vec());
    let r = read_message(&mut state, node(2), Some((data, 1)), 0);
    assert_eq!(r, Ok(StreamAction::Nothing));
    let forward = StreamRequest::Send(ProtocolMessage::Data(77, b"hey".to_vec()));
    assert_eq!(state.streams[0].mailbox, vec![forward.clone()]);
    assert!(state.streams[1].mailbox.is_empty());
    assert_eq!(state.streams[2].mailbox, vec![forward]);
    assert_eq!(
        state.packages,
        vec![AppPackage::Message(MessagePackage { from: node(2), msg: b"hey".to_vec() })]
    );
    assert!(state.has_seen(77));
    assert_eq!(state.expiries, vec![DedupExpiry { id: 77, after_ms: 500 }]);
    assert!(state.commands.is_empty());
}

#[test]
fn data_seen_before_is_dropped() {
    let mut state = with_peers(&[10, 20, 30]);
    read_message(&mut state, node(1), Some((ProtocolMessage::Data(77, b"hey".to_vec()), 1)), 0)
        .unwrap();
    let mailboxes: Vec<usize> = state.streams.iter().map(|p| p.mailbox.len()).collect();
    for from in [node(1), node(2), node(3), node(9)] {
        let again = ProtocolMessage::Data(77, b"other".to_vec());
        let r = read_message(&mut state, from, Some((again, 1)), 5);
        assert_eq!(r, Ok(StreamAction::Nothing));
    }
    assert_eq!(state.packages.len(), 1);
    assert_eq!(state.expiries.len(), 1);
    assert_eq!(state.streams.iter().map(|p| p.mailbox.len()).collect::<Vec<_>>(), mailboxes);
}

#[test]
fn forgotten_data_is_new_again() {
    let mut state = with_peers(&[10, 20]);
    read_message(&mut state, node(1), Some((ProtocolMessage::Data(77, vec![1]), 1)), 0).unwrap();
    assert_eq!(state.next_expiry(), Some(DedupExpiry { id: 77, after_ms: 40 }));
    assert_eq!(state.next_expiry(), None);
    state.forget(77);
    assert!(!state.has_seen(77));
    state.forget(78);
    read_message(&mut state, node(1), Some((ProtocolMessage::Data(77, vec![1]), 1)), 0).unwrap();
    assert_eq!(state.packages.len(), 2);
    assert_eq!(state.streams[1].mailbox.len(), 2);
}

#[test]
fn expiry_is_one_millisecond_without_latency() {
    let mut state = with_peers(&[0, 0]);
    read_message(&mut state, node(1), Some((ProtocolMessage::Data(1, vec![]), 1)), 0).unwrap();
    assert_eq!(state.expiries, vec![DedupExpiry { id: 1, after_ms: 1 }]);
    let mut alone = ProtocolState::new(node(0), 1);
    read_message(&mut alone, node(1), Some((ProtocolMessage::Data(1, vec![]), 1)), 0).unwrap();
    assert_eq!(alone.expiries, vec![DedupExpiry { id: 1, after_ms: 1 }]);
    let mut far = with_peers(&[60_000]);
    read_message(&mut far, node(1), Some((ProtocolMessage::Data(1, vec![]), 1)), 0).unwrap();
    assert_eq!(far.expiries, vec![DedupExpiry { id: 1, after_ms: 120_000 }]);
}

#[test]
fn node_status_below_the_bound_connects() {
    let mut state = with_peers(&[10, 20, 30]);
    let r = read_message(
        &mut state,
        node(2),
        Some((ProtocolMessage::NodeStatus(NodeInfo::new(node(7), 15)), 1)),
        0,
    );
    assert_eq!(r, Ok(StreamAction::Nothing));
    assert_eq!(
        state.commands,
        vec![ProtocolCommand::ClientConnect {
            targ_addr: node(7),
            src_to_targ_ping: 15,
            src_addr: node(2)
        }]
    );
    assert_eq!(
        state.packages,
        vec![debug(Notice::ConnectingToNode { addr: node(7), src_ping: 15 })]
    );
    assert_eq!(state.streams.len(), 3);
}

#[test]
fn node_status_about_a_peer_is_ignored() {
    let mut state = with_peers(&[10, 20, 30, 40]);
    read_message(
        &mut state,
        node(2),
        Some((ProtocolMessage::NodeStatus(NodeInfo::new(node(3), 1)), 1)),
        0,
    )
    .unwrap();
    assert!(state.commands.is_empty());
    assert!(state.packages.is_empty());
}

#[test]
fn node_status_at_the_bound_evicts_the_worst_peer() {
    let mut state = with_peers(&[10, 400, 30, 400]);
    let r = read_message(
        &mut state,
        node(1),
        Some((ProtocolMessage::NodeStatus(NodeInfo::new(node(7), 15)), 1)),
        0,
    );
    assert_eq!(r, Ok(StreamAction::Nothing));
    assert_eq!(
        state.commands,
        vec![
            ProtocolCommand::ClientConnect {
                targ_addr: node(7),
                src_to_targ_ping: 15,
                src_addr: node(1)
            },
            ProtocolCommand::ClientDisconnect(node(2)),
        ]
    );
    assert_eq!(state.packages, vec![debug(Notice::ChangingNodes { from: node(2), to: node(7) })]);
    assert_eq!(state.streams.len(), 4);
    assert!(state.streams.iter().all(|p| p.mailbox.is_empty()));
}

#[test]
fn eviction_does_not_look_at_the_claimed_ping() {
    let mut state = with_peers(&[10, 20, 30, 40]);
    read_message(
        &mut state,
        node(1),
        Some((ProtocolMessage::NodeStatus(NodeInfo::new(node(7), 50)), 1)),
        0,
    )
    .unwrap();
    assert_eq!(
        state.commands,
        vec![
            ProtocolCommand::ClientConnect {
                targ_addr: node(7),
                src_to_targ_ping: 50,
                src_addr: node(1)
            },
            ProtocolCommand::ClientDisconnect(node(4)),
        ]
    );
}

#[test]
fn no_eviction_where_no_peer_has_latency() {
    let mut state = with_peers(&[0, 0, 0, 0]);
    read_message(
        &mut state,
        node(1),
        Some((ProtocolMessage::NodeStatus(NodeInfo::new(node(7), 15)), 1)),
        0,
    )
    .unwrap();
    assert!(state.commands.is_empty());
    assert!(state.packages.is_empty());
}

#[test]
fn ping_is_answered_without_gossip_when_nothing_is_known() {
    let mut state = with_peers(&[10, 20]);
    let r = read_message(&mut state, node(1), Some((ProtocolMessage::Ping, 1)), 0);
    assert_eq!(r, Ok(StreamAction::Send(ProtocolMessage::Pong(None))));
    assert_eq!(state.packages, vec![debug(Notice::ReceivedPing { from: node(1), info: None })]);
}

#[test]
fn ping_is_answered_with_the_first_known_node() {
    let mut state = with_peers(&[111]);
    handle_connection(&mut state, Some((ProtocolMessage::ConnInit { server_addr: node(5) }, 1)))
        .unwrap();
    state.packages.clear();
    let r = read_message(&mut state, node(5), Some((ProtocolMessage::Ping, 1)), 0);
    let gossip = NodeInfo::new(node(1), 111);
    assert_eq!(r, Ok(StreamAction::Send(ProtocolMessage::Pong(Some(gossip)))));
    assert_eq!(
        state.packages,
        vec![debug(Notice::ReceivedPing { from: node(5), info: Some(gossip) })]
    );
    // the known node has gone
    state.streams.remove(0);
    let r = read_message(&mut state, node(5), Some((ProtocolMessage::Ping, 1)), 0);
    assert_eq!(r, Err(ProtocolError::UnknownPeer));
}

#[test]
fn ping_from_a_stranger_fails() {
    let mut state = with_peers(&[10]);
    assert_eq!(
        read_message(&mut state, node(9), Some((ProtocolMessage::Ping, 1)), 0),
        Err(ProtocolError::UnknownPeer)
    );
    assert_eq!(
        read_message(&mut state, node(9), Some((ProtocolMessage::Pong(None), 1)), 0),
        Err(ProtocolError::UnknownPeer)
    );
    assert_eq!(ping_action(&mut state, node(9), 0), Err(ProtocolError::UnknownPeer));
}

#[test]
fn stray_pong_is_ignored() {
    let mut state = with_peers(&[10]);
    let unknown = NodeInfo::new(node(9), 1);
    let r = read_message(&mut state, node(1), Some((ProtocolMessage::Pong(Some(unknown)), 1)), 5);
    assert_eq!(r, Ok(StreamAction::Nothing));
    assert_eq!(state.streams[0].metadata.ping, 10);
    assert!(state.packages.is_empty());
}

#[test]
fn ping_timer_sends_a_ping_and_stamps_it() {
    let mut state = with_peers(&[10]);
    let words = rng_words(&state);
    let first = ping_action(&mut state, node(1), 1_000);
    assert_eq!(first, Ok(StreamAction::Send(ProtocolMessage::Ping)));
    assert_eq!(state.streams[0].metadata.ping_started_at, Some(1_000));
    assert_eq!(state.packages, vec![debug(Notice::SendingPing)]);
    assert_eq!(rng_words(&state), words);
    // the pong has not come by the next timer
    assert_eq!(ping_action(&mut state, node(1), 121_000), Ok(StreamAction::InitiateDisconnect));
    assert_eq!(state.streams[0].metadata.ping_started_at, Some(1_000));
    assert_eq!(
        state.packages,
        vec![debug(Notice::SendingPing), warning(Notice::PingUnanswered { addr: node(1) })]
    );
}

#[test]
fn pong_in_time_becomes_the_ping() {
    let mut state = with_peers(&[10]);
    ping_action(&mut state, node(1), 1_000).unwrap();
    state.packages.clear();
    let r = read_message(&mut state, node(1), Some((ProtocolMessage::Pong(None), 1)), 1_042);
    assert_eq!(r, Ok(StreamAction::Nothing));
    assert_eq!(state.streams[0].metadata.ping, 42);
    assert_eq!(state.streams[0].metadata.ping_started_at, None);
    assert_eq!(state.streams[0].metadata.topology, None);
    assert_eq!(state.packages, vec![debug(Notice::ReceivedPong { delay: 42 })]);
}

#[test]
fn pong_at_the_limit_is_in_time() {
    let mut state = with_peers(&[10]);
    ping_action(&mut state, node(1), 1_000).unwrap();
    let r = read_message(&mut state, node(1), Some((ProtocolMessage::Pong(None), 1)), 61_000);
    assert_eq!(r, Ok(StreamAction::Nothing));
    assert_eq!(state.streams[0].metadata.ping, 60_000);
}

#[test]
fn pong_too_late_disconnects() {
    let mut state = with_peers(&[10]);
    ping_action(&mut state, node(1), 1_000).unwrap();
    state.packages.clear();
    let r = read_message(&mut state, node(1), Some((ProtocolMessage::Pong(None), 1)), 61_001);
    assert_eq!(r, Ok(StreamAction::InitiateDisconnect));
    assert_eq!(state.streams[0].metadata.ping, 10);
    assert_eq!(state.streams[0].metadata.ping_started_at, Some(1_000));
    assert_eq!(state.packages, vec![warning(Notice::PingTooBig { addr: node(1), ping: 60_001 })]);
}

#[test]
fn pong_before_the_ping_is_a_clock_failure() {
    let mut state = with_peers(&[10]);
    ping_action(&mut state, node(1), 1_000).unwrap();
    let r = read_message(&mut state, node(1), Some((ProtocolMessage::Pong(None), 1)), 999);
    assert_eq!(r, Err(ProtocolError::ClockWentBackwards));
    assert_eq!(state.streams[0].metadata.ping_started_at, Some(1_000));
}

#[test]
fn pong_with_gossip_triangulates() {
    let mut state = with_peers(&[3, 9]);
    ping_action(&mut state, node(2), 100).unwrap();
    state.packages.clear();
    let gossip = NodeInfo::new(node(1), 5);
    let r = read_message(&mut state, node(2), Some((ProtocolMessage::Pong(Some(gossip)), 1)), 104);
    assert_eq!(r, Ok(StreamAction::Nothing));
    let triangle = Triangle { a: 3, b: 4, c: 5 };
    assert_eq!(state.streams[1].metadata.ping, 4);
    assert_eq!(state.streams[1].metadata.topology, Some(triangle));
    assert_eq!(
        state.packages,
        vec![
            debug(Notice::CalculatedAngle { addr: node(2), triangle }),
            debug(Notice::ReceivedPong { delay: 4 }),
        ]
    );
}

#[test]
fn pong_with_gossip_about_a_stranger_fails() {
    let mut state = with_peers(&[3]);
    ping_action(&mut state, node(1), 100).unwrap();
    state.packages.clear();
    let gossip = NodeInfo::new(node(9), 5);
    let r = read_message(&mut state, node(1), Some((ProtocolMessage::Pong(Some(gossip)), 1)), 104);
    assert_eq!(r, Err(ProtocolError::UnknownPeer));
    assert_eq!(state.streams[0].metadata.ping, 3);
    assert_eq!(state.streams[0].metadata.ping_started_at, Some(100));
    assert!(state.packages.is_empty());
}

#[test]
fn zero_latencies_count_as_one() {
    let mut state = with_peers(&[0, 7]);
    ping_action(&mut state, node(2), 100).unwrap();
    let gossip = NodeInfo::new(node(1), 0);
    read_message(&mut state, node(2), Some((ProtocolMessage::Pong(Some(gossip)), 1)), 100).unwrap();
    assert_eq!(state.streams[1].metadata.ping, 0);
    assert_eq!(state.streams[1].metadata.topology, Some(Triangle { a: 1, b: 1, c: 1 }));
}

#[test]
fn broadcast_draws_an_id_and_fills_every_mailbox() {
    let mut state = ProtocolState::new(node(0), 1234567);
    start_client(&mut state, node(1), None, 1).unwrap();
    start_client(&mut state, node(2), None, 1).unwrap();
    // two frames were written, so the third number is the id
    let id = state.broadcast_data(b"hello".to_vec());
    assert_eq!(id, 0x115beaac046ddbd9);
    let sent = StreamRequest::Send(ProtocolMessage::Data(id, b"hello".to_vec()));
    assert_eq!(state.streams[0].mailbox, vec![sent.clone()]);
    assert_eq!(state.streams[1].mailbox, vec![sent]);
    assert!(!state.has_seen(id));
    let next = state.broadcast_data(vec![]);
    assert_ne!(next, id);
    assert_eq!(state.streams[0].mailbox.len(), 2);
}

#[test]
fn broadcast_without_peers_only_draws() {
    let mut state = ProtocolState::new(node(0), 1234567);
    assert_eq!(state.broadcast_data(vec![1]), 0x30a3a1c363600467);
    assert_eq!(state.broadcast_data(vec![1]), 0x19405f0f579929ca);
}

#[test]
fn mailbox_is_first_in_first_out() {
    let mut state = with_peers(&[10]);
    assert_eq!(state.next_request(node(1)), StreamPoll::Empty);
    assert_eq!(state.next_request(node(9)), StreamPoll::Closed);
    let id = state.broadcast_data(vec![1]);
    state.disconnect(node(1)).unwrap();
    assert_eq!(
        state.next_request(node(1)),
        StreamPoll::Request(StreamRequest::Send(ProtocolMessage::Data(id, vec![1])))
    );
    assert_eq!(state.next_request(node(1)), StreamPoll::Request(StreamRequest::Disconnect));
    assert_eq!(state.next_request(node(1)), StreamPoll::Empty);
}

#[test]
fn queues_are_first_in_first_out() {
    let mut state = with_peers(&[10, 20, 30, 40]);
    read_message(
        &mut state,
        node(1),
        Some((ProtocolMessage::NodeStatus(NodeInfo::new(node(7), 15)), 1)),
        0,
    )
    .unwrap();
    state.alert(AlertPackageLevel::INFO, Notice::Listening { addr: node(0) });
    assert!(matches!(state.next_command(), Some(ProtocolCommand::ClientConnect { .. })));
    assert_eq!(state.next_command(), Some(ProtocolCommand::ClientDisconnect(node(4))));
    assert_eq!(state.next_command(), None);
    assert_eq!(
        state.next_package(),
        Some(debug(Notice::ChangingNodes { from: node(4), to: node(7) }))
    );
    assert_eq!(state.next_package(), Some(info(Notice::Listening { addr: node(0) })));
    assert_eq!(state.next_package(), None);
}

#[test]
fn disconnect_asks_through_the_mailbox() {
    let mut state = with_peers(&[10, 20]);
    assert_eq!(state.disconnect(node(2)), Ok(()));
    assert!(state.streams[0].mailbox.is_empty());
    assert_eq!(state.streams[1].mailbox, vec![StreamRequest::Disconnect]);
    assert_eq!(state.disconnect(node(9)), Err(ProtocolError::UnknownPeer));
}

#[test]
fn commands_are_processed() {
    let mut state = with_peers(&[10, 20]);
    let connect = ProtocolCommand::ClientConnect {
        targ_addr: node(7),
        src_to_targ_ping: 15,
        src_addr: node(2),
    };
    assert_eq!(
        process_command(&mut state, connect),
        CommandAction::Connect {
            addr: node(7),
            src_info: Some(SourceInfo { src_addr: node(2), src_to_targ_ping: 15 })
        }
    );
    assert_eq!(
        process_command(&mut state, ProtocolCommand::ClientDisconnect(node(1))),
        CommandAction::Nothing
    );
    assert_eq!(state.streams[0].mailbox, vec![StreamRequest::Disconnect]);
    assert_eq!(
        process_command(&mut state, ProtocolCommand::ClientDisconnect(node(9))),
        CommandAction::Nothing
    );
    assert!(state.streams[1].mailbox.is_empty());
}

#[test]
fn step_writes_a_requested_message() {
    let mut state = with_peers(&[10]);
    let expected = advanced(&state, 2);
    let message = ProtocolMessage::Data(3, vec![9; 300]);
    let frames = message.clone().into_frames().unwrap();
    let step = protocol_handle_stream(
        &mut state,
        node(1),
        StreamEvent::Request(Some(StreamRequest::Send(message))),
        0,
    );
    assert_eq!(step, StreamStep { frames, close: false });
    assert_eq!(rng_words(&state), expected);
    assert_eq!(state.streams.len(), 1);
}

#[test]
fn step_on_a_disconnect_request_says_goodbye() {
    let mut state = with_peers(&[10, 20]);
    let expected = advanced(&state, 1);
    let step = protocol_handle_stream(
        &mut state,
        node(1),
        StreamEvent::Request(Some(StreamRequest::Disconnect)),
        0,
    );
    assert_eq!(step, StreamStep { frames: vec![padded(&[0x82])], close: true });
    assert_eq!(rng_words(&state), expected);
    assert_eq!(state.streams.len(), 1);
    assert_eq!(state.streams[0].addr, node(2));
    assert!(state.packages.is_empty());
}

#[test]
fn step_on_a_closed_mailbox_warns_and_disconnects() {
    let mut state = with_peers(&[10]);
    let step = protocol_handle_stream(&mut state, node(1), StreamEvent::Request(None), 0);
    assert_eq!(step, StreamStep { frames: vec![padded(&[0x82])], close: true });
    assert!(state.streams.is_empty());
    assert_eq!(state.packages, vec![warning(Notice::MailboxClosed { addr: node(1) })]);
}

#[test]
fn step_on_a_close_from_the_peer_writes_nothing() {
    let mut state = with_peers(&[10]);
    let step = protocol_handle_stream(
        &mut state,
        node(1),
        StreamEvent::Message(Some((ProtocolMessage::ConnClosed, 1))),
        0,
    );
    assert_eq!(step, StreamStep { frames: vec![], close: true });
    assert!(state.streams.is_empty());
}

#[test]
fn step_on_end_of_stream_disconnects() {
    let mut state = with_peers(&[10]);
    let step = protocol_handle_stream(&mut state, node(1), StreamEvent::Message(None), 0);
    assert_eq!(step, StreamStep { frames: vec![padded(&[0x82])], close: true });
    assert!(state.streams.is_empty());
}

#[test]
fn step_answers_a_ping() {
    let mut state = with_peers(&[10]);
    let step = protocol_handle_stream(
        &mut state,
        node(1),
        StreamEvent::Message(Some((ProtocolMessage::Ping, 1))),
        0,
    );
    assert_eq!(step, StreamStep { frames: vec![padded(&[0x84])], close: false });
}

#[test]
fn step_on_data_writes_nothing_to_the_sender() {
    let mut state = with_peers(&[10, 20]);
    let step = protocol_handle_stream(
        &mut state,
        node(1),
        StreamEvent::Message(Some((ProtocolMessage::Data(1, vec![2]), 1))),
        0,
    );
    assert_eq!(step, StreamStep { frames: vec![], close: false });
    assert_eq!(state.streams[1].mailbox.len(), 1);
}

#[test]
fn step_on_a_violation_tears_down_and_alerts() {
    let mut state = with_peers(&[10, 20]);
    let step = protocol_handle_stream(
        &mut state,
        node(1),
        StreamEvent::Message(Some((ProtocolMessage::ConnInit { server_addr: node(1) }, 1))),
        0,
    );
    assert_eq!(step, StreamStep { frames: vec![], close: true });
    assert_eq!(state.streams.len(), 1);
    assert_eq!(state.streams[0].addr, node(2));
    assert_eq!(
        state.packages,
        vec![error(Notice::ConnectionFailed {
            addr: node(1),
            error: ProtocolError::UnexpectedMessage
        })]
    );
}

#[test]
fn step_on_a_read_failure_tears_down_and_alerts() {
    let mut state = with_peers(&[10, 20]);
    for (peer, failure) in [(node(1), ProtocolError::ReservedBits), (node(2), ProtocolError::Io)] {
        let step = protocol_handle_stream(&mut state, peer, StreamEvent::Failed(failure), 0);
        assert_eq!(step, StreamStep { frames: vec![], close: true });
    }
    assert!(state.streams.is_empty());
    assert_eq!(
        state.packages,
        vec![
            error(Notice::ConnectionFailed { addr: node(1), error: ProtocolError::ReservedBits }),
            error(Notice::ConnectionFailed { addr: node(2), error: ProtocolError::Io }),
        ]
    );
}

#[test]
fn step_cannot_send_an_ipv6_address() {
    let mut state = with_peers(&[10]);
    let words = rng_words(&state);
    let message = ProtocolMessage::NodeStatus(NodeInfo::new(ipv6(), 1));
    let step = protocol_handle_stream(
        &mut state,
        node(1),
        StreamEvent::Request(Some(StreamRequest::Send(message))),
        0,
    );
    assert_eq!(step, StreamStep { frames: vec![], close: true });
    assert!(state.streams.is_empty());
    assert_eq!(rng_words(&state), words);
    assert_eq!(
        state.packages,
        vec![error(Notice::ConnectionFailed {
            addr: node(1),
            error: ProtocolError::Ipv6Unsupported
        })]
    );
}

#[test]
fn peer_that_never_answers_is_disconnected_at_the_second_timer() {
    let mut state = with_peers(&[10, 20]);
    let first = protocol_handle_stream(&mut state, node(1), StreamEvent::PingTimer, 0);
    assert_eq!(first, StreamStep { frames: vec![padded(&[0x83])], close: false });
    let second =
        protocol_handle_stream(&mut state, node(1), StreamEvent::PingTimer, PING_INTERVAL * 1000);
    assert_eq!(second, StreamStep { frames: vec![padded(&[0x82])], close: true });
    assert_eq!(state.streams.len(), 1);
    assert_eq!(state.streams[0].addr, node(2));
}

#[test]
fn peer_that_answers_is_pinged_again() {
    let mut state = with_peers(&[10]);
    protocol_handle_stream(&mut state, node(1), StreamEvent::PingTimer, 0);
    protocol_handle_stream(
        &mut state,
        node(1),
        StreamEvent::Message(Some((ProtocolMessage::Pong(None), 1))),
        25,
    );
    let again = protocol_handle_stream(&mut state, node(1), StreamEvent::PingTimer, 120_000);
    assert_eq!(again, StreamStep { frames: vec![padded(&[0x83])], close: false });
    assert_eq!(state.streams[0].metadata.ping, 25);
    assert_eq!(state.streams[0].metadata.ping_started_at, Some(120_000));
}

#[test]
fn ping_clock_starts_at_once_and_comes_round_every_interval() {
    let mut clock = PingClock::new(5_000);
    assert_eq!(clock.due_at, 5_000);
    assert!(clock.is_due(5_000));
    assert!(!clock.is_due(4_999));
    assert_eq!(clock.wait_ms(5_000), 0);
    assert_eq!(clock.wait_ms(9_000), 0);
    assert_eq!(clock.wait_ms(4_000), 1_000);
    clock.rearm(5_010);
    assert_eq!(clock.due_at, 125_010);
    assert!(!clock.is_due(125_009));
    assert!(clock.is_due(125_010));
    assert_eq!(clock.wait_ms(5_010), 120_000);
    assert_eq!(clock.wait_ms(100_000), 25_010);
}

#[test]
fn ping_clock_stops_at_the_end_of_time() {
    let mut clock = PingClock::new(0);
    clock.rearm(u64::MAX - 5);
    assert_eq!(clock.due_at, u64::MAX);
    clock.rearm(u64::MAX - 120_000);
    assert_eq!(clock.due_at, u64::MAX);
    clock.rearm(u64::MAX - 120_001);
    assert_eq!(clock.due_at, u64::MAX - 1);
}

#[test]
fn only_a_pong_settles_the_ping() {
    let mut state = with_peers(&[10, 20]);
    protocol_handle_stream(&mut state, node(1), StreamEvent::PingTimer, 1_000);
    // whatever else happens, node(1) goes on owing the pong
    let data = ProtocolMessage::Data(5, vec![1, 2, 3]);
    protocol_handle_stream(&mut state, node(1), StreamEvent::Message(Some((data, 1))), 1_001);
    let ping = ProtocolMessage::Ping;
    protocol_handle_stream(&mut state, node(1), StreamEvent::Message(Some((ping, 1))), 2);
    let gossip = ProtocolMessage::NodeStatus(NodeInfo::new(node(8), 3));
    protocol_handle_stream(&mut state, node(1), StreamEvent::Message(Some((gossip, 1))), 3);
    protocol_handle_stream(&mut state, node(2), StreamEvent::PingTimer, 1_500);
    let pong = ProtocolMessage::Pong(None);
    protocol_handle_stream(&mut state, node(2), StreamEvent::Message(Some((pong, 1))), 1_600);
    state.broadcast_data(vec![9]);
    let request = match state.next_request(node(1)) {
        StreamPoll::Request(request) => request,
        other => panic!("unexpected {:?}", other),
    };
    protocol_handle_stream(&mut state, node(1), StreamEvent::Request(Some(request)), 1_700);
    assert_eq!(state.streams[0].metadata.ping_started_at, Some(1_000));
    assert_eq!(state.streams[1].metadata.ping_started_at, None);
    let second = protocol_handle_stream(&mut state, node(1), StreamEvent::PingTimer, 121_000);
    assert_eq!(second, StreamStep { frames: vec![padded(&[0x82])], close: true });
    assert_eq!(state.streams.len(), 1);
    assert_eq!(state.streams[0].addr, node(2));
}
