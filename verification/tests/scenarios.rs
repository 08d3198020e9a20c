use protocol::addr::NodeAddr;
use protocol::broadcast::process_command;
use protocol::client::start_client;
use protocol::commands::{CommandAction, SourceInfo};
use protocol::handle_stream::protocol_handle_stream;
use protocol::message::{FrameAssembler, ProtocolMessage};
use protocol::package::{AppPackage, MessagePackage};
use protocol::server::handle_connection;
use protocol::state::ProtocolState;
use protocol::stream::{StreamEvent, StreamPoll};
use protocol::triangle::sss_triangle;

/// What was written, as the other end reads it: frame by frame of 256 bytes.
fn as_read(frames: &[Vec<u8>]) -> Vec<[u8; 256]> {
    frames.iter().map(|f| f.as_slice().try_into().expect("a frame of 256 bytes")).collect()
}

/// `data` as it arrives: with the zeros that filled the last frame behind
/// the eight bytes of the id and the data.
fn arrived(data: &[u8]) -> Vec<u8> {
    let mut out = data.to_vec();
    let frames = (8 + data.len() + 254) / 255;
    out.resize(255 * frames.max(1) - 8, 0);
    out
}

fn addr(port: u16) -> NodeAddr {
    NodeAddr::V4 { a: 127, b: 0, c: 0, d: 1, port }
}

/// Nodes that hand each other frames in memory, in place of sockets.
struct Net {
    nodes: Vec<ProtocolState>,
    frames_written: usize,
}

impl Net {
    fn new(ports: &[u16]) -> Net {
        let nodes =
            ports.iter().map(|p| ProtocolState::new(addr(*p), 1000 + *p as u64)).collect();
        Net { nodes, frames_written: 0 }
    }

    fn index(&self, a: NodeAddr) -> usize {
        self.nodes.iter().position(|n| n.read().server_addr == a).expect("a node of the net")
    }

    fn address(&self, i: usize) -> NodeAddr {
        self.nodes[i].read().server_addr
    }

    /// What `from` wrote arrives at `to`, frame by frame.
    fn deliver(&mut self, from: usize, to: usize, frames: Vec<Vec<u8>>) {
        self.frames_written += frames.len();
        let sender = self.address(from);
        let mut assembler = FrameAssembler::new();
        for frame in as_read(&frames) {
            if let Some(read) = assembler.push(frame).expect("a well-formed frame") {
                let step = protocol_handle_stream(
                    &mut self.nodes[to],
                    sender,
                    StreamEvent::Message(Some(read)),
                    0,
                );
                assert!(!step.close);
                self.deliver(to, from, step.frames);
            }
        }
    }

    fn connect(&mut self, from: usize, to: usize, src_info: Option<SourceInfo>) {
        let target = self.address(to);
        let step = start_client(&mut self.nodes[from], target, src_info, 5).expect("a connect");
        assert!(!step.close);
        self.frames_written += step.frames.len();
        let first = ProtocolMessage::from_stream(&as_read(&step.frames)).expect("an init");
        let accepted = handle_connection(&mut self.nodes[to], first).expect("a handshake");
        assert_eq!(accepted.addr, self.address(from));
        self.deliver(to, from, accepted.frames);
    }

    /// Runs every mailbox and every command queue empty.
    fn settle(&mut self) {
        loop {
            let mut busy = false;
            for i in 0..self.nodes.len() {
                while let Some(command) = self.nodes[i].next_command() {
                    busy = true;
                    if let CommandAction::Connect { addr, src_info } =
                        process_command(&mut self.nodes[i], command)
                    {
                        let to = self.index(addr);
                        self.connect(i, to, src_info);
                    }
                }
                let peers: Vec<NodeAddr> = self.nodes[i].streams.iter().map(|p| p.addr).collect();
                for peer in peers {
                    while let StreamPoll::Request(request) = self.nodes[i].next_request(peer) {
                        busy = true;
                        let step = protocol_handle_stream(
                            &mut self.nodes[i],
                            peer,
                            StreamEvent::Request(Some(request)),
                            0,
                        );
                        assert!(!step.close);
                        let to = self.index(peer);
                        self.deliver(i, to, step.frames);
                    }
                }
            }
            if !busy {
                return;
            }
        }
    }

    /// Writes the oldest entry of the mailbox that `from` keeps for `to`.
    fn send_next(&mut self, from: usize, to: usize) -> bool {
        let peer = self.address(to);
        match self.nodes[from].next_request(peer) {
            StreamPoll::Request(request) => {
                let step = protocol_handle_stream(
                    &mut self.nodes[from],
                    peer,
                    StreamEvent::Request(Some(request)),
                    0,
                );
                assert!(!step.close);
                self.deliver(from, to, step.frames);
                true
            }
            _ => false,
        }
    }

    fn messages(&self, i: usize) -> Vec<(NodeAddr, Vec<u8>)> {
        self.nodes[i]
            .packages
            .iter()
            .filter_map(|p| match p {
                AppPackage::Message(MessagePackage { from, msg }) => Some((*from, msg.clone())),
                AppPackage::Alert(_) => None,
            })
            .collect()
    }

    fn peers(&self, i: usize) -> Vec<NodeAddr> {
        self.nodes[i].streams.iter().map(|p| p.addr).collect()
    }
}

#[test]
fn end_to_end_hello() {
    let mut net = Net::new(&[7000, 7001]);
    let (a, b) = (0, 1);
    net.connect(b, a, None);
    // no third peer exists, so the handshake was one frame and A sent nothing
    assert_eq!(net.frames_written, 1);
    assert_eq!(net.peers(a), vec![addr(7001)]);
    assert_eq!(net.peers(b), vec![addr(7000)]);

    net.nodes[b].broadcast_data(b"hello".to_vec());
    net.settle();
    // the bytes arrive with the zeros that filled the frame behind them
    let hello = arrived(b"hello");
    assert_eq!(hello.len(), 247);
    assert_eq!(&hello[..5], b"hello");
    assert!(hello[5..].iter().all(|b| *b == 0));
    assert_eq!(net.messages(a), vec![(addr(7001), hello)]);
    assert!(net.messages(b).is_empty());
    net.settle();
    assert_eq!(net.messages(a).len(), 1);
}

#[test]
fn gossip_closes_the_triangle() {
    let mut net = Net::new(&[7000, 7001, 7002]);
    let (a, b, c) = (0, 1, 2);
    net.connect(b, a, None);
    net.connect(c, a, None);
    // A told C about B; C has not acted on it yet
    assert_eq!(net.peers(c), vec![addr(7000)]);
    assert_eq!(net.nodes[c].commands.len(), 1);
    net.settle();
    assert_eq!(net.peers(a), vec![addr(7001), addr(7002)]);
    assert_eq!(net.peers(b), vec![addr(7000), addr(7002)]);
    assert_eq!(net.peers(c), vec![addr(7000), addr(7001)]);
    // C knows that it heard of B from A, and B told C about A
    assert_eq!(net.nodes[c].streams[1].metadata.knows_about, vec![addr(7000)]);
    assert_eq!(net.nodes[b].streams[1].metadata.knows_about, vec![addr(7000)]);
}

#[test]
fn broadcast_in_a_triangle_is_seen_once_by_each_other_node() {
    let mut net = Net::new(&[7000, 7001, 7002]);
    let (a, b, c) = (0, 1, 2);
    net.connect(b, a, None);
    net.connect(c, a, None);
    net.settle();
    let before = net.frames_written;

    net.nodes[a].broadcast_data(b"once".to_vec());
    net.settle();

    assert_eq!(net.messages(b), vec![(addr(7000), arrived(b"once"))]);
    assert_eq!(net.messages(c), vec![(addr(7000), arrived(b"once"))]);
    assert!(net.messages(a).is_empty());
    // A to B and to C, then B to C and C to B, and nothing after that
    assert_eq!(net.frames_written - before, 4);
    for node in &net.nodes {
        assert!(node.streams.iter().all(|p| p.mailbox.is_empty()));
    }
}

#[test]
fn broadcast_in_a_triangle_when_the_forward_overtakes() {
    let mut net = Net::new(&[7000, 7001, 7002]);
    let (a, b, c) = (0, 1, 2);
    net.connect(b, a, None);
    net.connect(c, a, None);
    net.settle();
    let before = net.frames_written;

    net.nodes[a].broadcast_data(b"once".to_vec());
    // C hears it from A and passes it on to B before A's own copy gets there
    assert!(net.send_next(a, c));
    assert!(net.send_next(c, b));
    assert!(net.send_next(a, b));
    net.settle();

    // B took it from C, and only once; so did C from A
    assert_eq!(net.messages(b), vec![(addr(7002), arrived(b"once"))]);
    assert_eq!(net.messages(c), vec![(addr(7000), arrived(b"once"))]);
    // B passed it on to A, which had not kept the id of its own broadcast
    assert_eq!(net.messages(a), vec![(addr(7001), arrived(b"once"))]);
    // A to C, C to B, A to B, B to A, A to C: five frames and no more
    assert_eq!(net.frames_written - before, 5);
    for node in &net.nodes {
        assert!(node.streams.iter().all(|p| p.mailbox.is_empty()));
    }
}

#[test]
fn long_broadcast_in_a_triangle_arrives_whole_and_padded_once() {
    let mut net = Net::new(&[7000, 7001, 7002]);
    net.connect(1, 0, None);
    net.connect(2, 0, None);
    net.settle();
    let data: Vec<u8> = (0..1000).map(|i| (i % 256) as u8).collect();
    net.nodes[1].broadcast_data(data.clone());
    net.settle();
    // 1008 bytes of payload take four frames, which hold 1020
    assert_eq!(arrived(&data).len(), 1012);
    assert_eq!(net.messages(0), vec![(addr(7001), arrived(&data))]);
    assert_eq!(net.messages(2), vec![(addr(7001), arrived(&data))]);
    assert!(net.messages(1).is_empty());
}

#[test]
fn triangulation_of_a_3_4_5_triangle() {
    let t = sss_triangle(3, 4, 5);
    assert_eq!((t.a, t.b, t.c), (3, 4, 5));
    assert_eq!(t.cos_numerator(), 18);
    assert_eq!(t.cos_denominator(), 30);
    let angle = (t.cos_numerator() as f32 / t.cos_denominator() as f32).acos();
    assert!((angle - 0.9273).abs() < 1e-4);
}

#[test]
fn triangulation_of_nothing_is_finite() {
    let t = sss_triangle(0, 0, 0);
    assert_eq!((t.a, t.b, t.c), (1, 1, 1));
    assert_eq!(t.cos_numerator(), 1);
    assert_eq!(t.cos_denominator(), 2);
    let angle = (t.cos_numerator() as f32 / t.cos_denominator() as f32).acos();
    assert!(angle.is_finite());
    assert!((angle - std::f32::consts::FRAC_PI_3).abs() < 1e-6);
}

#[test]
fn triangulation_of_the_longest_sides() {
    let t = sss_triangle(65535, 0, 65535);
    assert_eq!(t.cos_numerator(), 2 * 65535 * 65535 - 1);
    assert_eq!(t.cos_denominator(), 2 * 65535 * 65535);
    let obtuse = sss_triangle(1, 65535, 1);
    assert_eq!(obtuse.cos_numerator(), 2 - 65535 * 65535);
    assert_eq!(obtuse.cos_denominator(), 2);
}
