//! Messages: what goes over a connection, how a message becomes frames and
//! how frames become a message again.

use vstd::prelude::*;
use crate::addr::{
    be64_bytes, be64_value, lemma_addr_round_trip, lemma_be64_round_trip, socket_addr_from_bytes,
    socket_addr_to_bytes, spec_addr_bytes, spec_addr_encodable, spec_addr_from_bytes,
    spec_addr_present, spec_be64, spec_from_be64, NodeAddr,
};
use crate::error::ProtocolError;
use crate::frames::{
    extend_bytes, lemma_frame_slot, lemma_header_fields, protocol_decode_frame,
    protocol_encode_frames, spec_buffer_type, spec_decode_action, spec_decode_buffer,
    spec_frame_count, spec_frame_views, spec_frames, spec_header, spec_opcode, spec_padded,
    spec_padding, spec_read_views, spec_reserved, spec_zeros, ProtocolAction,
    ProtocolBufferType, PROT_OPCODE_CONN_CLOSED, PROT_OPCODE_CONN_INIT,
    PROT_OPCODE_CONTINUATION, PROT_OPCODE_DATA, PROT_OPCODE_NODE_INFO, PROT_OPCODE_PING,
    PROT_OPCODE_PONG,
};
use crate::node_info::{
    lemma_node_info_round_trip, spec_node_info_bytes, spec_node_info_from_bytes, NodeInfo,
};

verus! {

/// A message of the protocol.
#[derive(Debug, PartialEq, Eq)]
pub enum ProtocolMessage {
    /// First message of the connecting side: the address of its own server.
    ConnInit { server_addr: NodeAddr },
    /// The sender closes the connection.
    ConnClosed,
    /// Asks for a pong.
    Ping,
    /// Answers a ping, and may name a node that the sender knows.
    Pong(Option<NodeInfo>),
    /// Application data under a broadcast id.
    Data(u64, Vec<u8>),
    /// Names a node that the receiver may want to connect to.
    NodeStatus(NodeInfo),
}

/// A message as a mathematical value.
pub enum MessageView {
    ConnInit { server_addr: NodeAddr },
    ConnClosed,
    Ping,
    Pong(Option<NodeInfo>),
    Data(u64, Seq<u8>),
    NodeStatus(NodeInfo),
}

impl View for ProtocolMessage {
    type V = MessageView;

    open spec fn view(&self) -> MessageView {
        match *self {
            ProtocolMessage::ConnInit { server_addr } => MessageView::ConnInit { server_addr },
            ProtocolMessage::ConnClosed => MessageView::ConnClosed,
            ProtocolMessage::Ping => MessageView::Ping,
            ProtocolMessage::Pong(info) => MessageView::Pong(info),
            ProtocolMessage::Data(id, bytes) => MessageView::Data(id, bytes@),
            ProtocolMessage::NodeStatus(info) => MessageView::NodeStatus(info),
        }
    }
}

/// A copy of `src`.
pub fn copy_bytes(src: &Vec<u8>) -> (r: Vec<u8>)
    ensures
        r@ == src@,
{
    let mut r: Vec<u8> = Vec::with_capacity(src.len());
    extend_bytes(&mut r, src.as_slice());
    assert(r@ =~= src@);
    r
}

impl Clone for ProtocolMessage {
    fn clone(&self) -> (r: Self)
        ensures
            r@ == self@,
    {
        match self {
            ProtocolMessage::ConnInit { server_addr } => ProtocolMessage::ConnInit {
                server_addr: *server_addr,
            },
            ProtocolMessage::ConnClosed => ProtocolMessage::ConnClosed,
            ProtocolMessage::Ping => ProtocolMessage::Ping,
            ProtocolMessage::Pong(info) => ProtocolMessage::Pong(*info),
            ProtocolMessage::Data(id, bytes) => ProtocolMessage::Data(*id, copy_bytes(bytes)),
            ProtocolMessage::NodeStatus(info) => ProtocolMessage::NodeStatus(*info),
        }
    }
}

/// The opcode that the first frame of a message carries.
pub open spec fn spec_message_opcode(m: MessageView) -> u8 {
    match m {
        MessageView::ConnInit { .. } => PROT_OPCODE_CONN_INIT,
        MessageView::ConnClosed => PROT_OPCODE_CONN_CLOSED,
        MessageView::Ping => PROT_OPCODE_PING,
        MessageView::Pong(_) => PROT_OPCODE_PONG,
        MessageView::Data(_, _) => PROT_OPCODE_DATA,
        MessageView::NodeStatus(_) => PROT_OPCODE_NODE_INFO,
    }
}

/// Whether a message has a wire form: every address in it is IPv4.
pub open spec fn spec_message_encodable(m: MessageView) -> bool {
    match m {
        MessageView::ConnInit { server_addr } => spec_addr_encodable(server_addr),
        MessageView::Pong(Some(info)) => spec_addr_encodable(info.addr),
        MessageView::NodeStatus(info) => spec_addr_encodable(info.addr),
        _ => true,
    }
}

/// The payload of a message, before it is cut into frames and filled up
/// with zeros: six bytes of address for a connection init, none for a close or
/// a ping, none or eight for a pong, the id in eight bytes and then the data
/// for application data, eight bytes for a node status.
pub open spec fn spec_message_payload(m: MessageView) -> Seq<u8> {
    match m {
        MessageView::ConnInit { server_addr } => spec_addr_bytes(server_addr),
        MessageView::ConnClosed => Seq::empty(),
        MessageView::Ping => Seq::empty(),
        MessageView::Pong(None) => Seq::empty(),
        MessageView::Pong(Some(info)) => spec_node_info_bytes(info),
        MessageView::Data(id, bytes) => spec_be64(id) + bytes,
        MessageView::NodeStatus(info) => spec_node_info_bytes(info),
    }
}

/// The frames of a message.
pub open spec fn spec_into_frames(m: MessageView) -> Seq<Seq<u8>> {
    spec_frames(spec_message_opcode(m), spec_message_payload(m))
}

/// The message that a gathered payload of a given kind spells, or why it
/// spells none. An address of all zeros stands for no address: that makes a
/// pong that names no node, and is refused in a connection init and in a node
/// status. Application data is everything behind the id.
pub open spec fn spec_parse_buffer(kind: ProtocolBufferType, buf: Seq<u8>) -> Result<
    MessageView,
    ProtocolError,
> {
    match kind {
        ProtocolBufferType::ConnInit => match spec_addr_from_bytes(buf) {
            Ok(Some(server_addr)) => Ok(MessageView::ConnInit { server_addr }),
            Ok(None) => Err(ProtocolError::AddressRequired),
            Err(e) => Err(e),
        },
        ProtocolBufferType::Data => if buf.len() < 8 {
            Err(ProtocolError::NotEnoughBytes)
        } else {
            Ok(MessageView::Data(spec_from_be64(buf), buf.subrange(8, buf.len() as int)))
        },
        ProtocolBufferType::NodeInfo => match spec_node_info_from_bytes(buf) {
            Ok(Some(info)) => Ok(MessageView::NodeStatus(info)),
            Ok(None) => Err(ProtocolError::NodeInfoRequired),
            Err(e) => Err(e),
        },
        ProtocolBufferType::Pong => match spec_node_info_from_bytes(buf) {
            Ok(info) => Ok(MessageView::Pong(info)),
            Err(e) => Err(e),
        },
    }
}

/// The result of reading a message, with the message as a mathematical value.
pub open spec fn spec_parsed_view(r: Result<ProtocolMessage, ProtocolError>) -> Result<
    MessageView,
    ProtocolError,
> {
    match r {
        Ok(m) => Ok(m@),
        Err(e) => Err(e),
    }
}

/// The result of reading from a stream, with the message as a mathematical
/// value.
pub open spec fn spec_read_view(r: Result<Option<(ProtocolMessage, usize)>, ProtocolError>)
    -> Result<Option<(MessageView, nat)>, ProtocolError> {
    match r {
        Ok(Some((m, n))) => Ok(Some((m@, n as nat))),
        Ok(None) => Ok(None),
        Err(e) => Err(e),
    }
}

/// What a receiver holds between two frames of one message.
pub struct FrameAssembler {
    /// The payload gathered so far.
    pub buf: Vec<u8>,
    /// The kind of message that the payload belongs to.
    pub buf_type: ProtocolBufferType,
    /// How many frames of the message have been taken in.
    pub frames_count: usize,
}

/// A frame assembler as a mathematical value.
pub struct AssemblerView {
    pub buf: Seq<u8>,
    pub buf_type: ProtocolBufferType,
    pub frames: nat,
}

impl View for FrameAssembler {
    type V = AssemblerView;

    open spec fn view(&self) -> AssemblerView {
        AssemblerView {
            buf: self.buf@,
            buf_type: self.buf_type,
            frames: self.frames_count as nat,
        }
    }
}

/// The assembler before the first frame of a message: nothing gathered, and
/// a payload that starts with a continuation frame counts as application data.
pub open spec fn spec_assembler_empty() -> AssemblerView {
    AssemblerView { buf: Seq::empty(), buf_type: ProtocolBufferType::Data, frames: 0 }
}

/// One more frame counted; the count stops at the largest `usize`.
pub open spec fn spec_count_frame(frames: nat) -> nat {
    if frames >= usize::MAX {
        frames
    } else {
        frames + 1
    }
}

/// The kind of message that is complete with `frame`: the kind that the
/// frame itself starts, or for a continuation frame the kind remembered.
pub open spec fn spec_final_kind(remembered: ProtocolBufferType, frame: Seq<u8>)
    -> ProtocolBufferType {
    match spec_buffer_type(spec_opcode(frame[0])) {
        Some(kind) => kind,
        None => remembered,
    }
}

/// What taking one frame in does to the assembler and what comes out: a
/// failure, nothing yet, or a message with the number of frames it came in.
/// After a failure and after a message the assembler is empty again.
pub open spec fn spec_push(st: AssemblerView, frame: Seq<u8>) -> (
    AssemblerView,
    Result<Option<(MessageView, nat)>, ProtocolError>,
) {
    let buf = spec_decode_buffer(st.buf, frame);
    let frames = spec_count_frame(st.frames);
    match spec_decode_action(frame) {
        Err(e) => (spec_assembler_empty(), Err(e)),
        Ok(ProtocolAction::Nothing) => (
            AssemblerView { buf, buf_type: st.buf_type, frames },
            Ok(None),
        ),
        Ok(ProtocolAction::UpdateBufferType(kind)) => (
            AssemblerView { buf, buf_type: kind, frames },
            Ok(None),
        ),
        Ok(ProtocolAction::UseBuffer) => match spec_parse_buffer(
            spec_final_kind(st.buf_type, frame),
            buf,
        ) {
            Ok(m) => (spec_assembler_empty(), Ok(Some((m, frames)))),
            Err(e) => (spec_assembler_empty(), Err(e)),
        },
        Ok(ProtocolAction::CloseConnection) => (
            spec_assembler_empty(),
            Ok(Some((MessageView::ConnClosed, frames))),
        ),
        Ok(ProtocolAction::ReceivedPing) => (
            spec_assembler_empty(),
            Ok(Some((MessageView::Ping, frames))),
        ),
        Ok(ProtocolAction::Send(_)) => (st, Ok(None)),
    }
}

/// What reading `reads` from position `i` on gives, with the assembler in
/// state `st`. The end of the reads means that the peer has gone: no message
/// and no failure.
pub open spec fn spec_read_from(reads: Seq<Seq<u8>>, i: nat, st: AssemblerView) -> Result<
    Option<(MessageView, nat)>,
    ProtocolError,
>
    decreases reads.len() - i,
{
    if i >= reads.len() {
        Ok(None)
    } else {
        let (next, out) = spec_push(st, reads[i as int]);
        match out {
            Err(e) => Err(e),
            Ok(Some(done)) => Ok(Some(done)),
            Ok(None) => spec_read_from(reads, i + 1, next),
        }
    }
}

/// The first message in a sequence of frames read, with the number of
/// frames it took.
pub open spec fn spec_from_stream(reads: Seq<Seq<u8>>) -> Result<
    Option<(MessageView, nat)>,
    ProtocolError,
> {
    spec_read_from(reads, 0, spec_assembler_empty())
}

/// What a message reads as at the other end. No length goes over the wire,
/// so application data comes out with the zeros that filled its last frame;
/// and an address of 0.0.0.0 stands for no address, so a pong that names
/// such a node reads as a pong that names none, and a connection init or a
/// node status with such an address is refused.
pub open spec fn spec_as_read(m: MessageView) -> Result<MessageView, ProtocolError> {
    match m {
        MessageView::ConnInit { server_addr } => if spec_addr_present(server_addr) {
            Ok(m)
        } else {
            Err(ProtocolError::AddressRequired)
        },
        MessageView::Pong(Some(info)) => if spec_addr_present(info.addr) {
            Ok(m)
        } else {
            Ok(MessageView::Pong(None))
        },
        MessageView::NodeStatus(info) => if spec_addr_present(info.addr) {
            Ok(m)
        } else {
            Err(ProtocolError::NodeInfoRequired)
        },
        MessageView::Data(id, bytes) => Ok(
            MessageView::Data(id, bytes + spec_zeros(spec_padding(8 + bytes.len()))),
        ),
        _ => Ok(m),
    }
}

/// Whether a message reads at the other end exactly as it was sent: no
/// address in it is 0.0.0.0, and application data fills its last frame, that
/// is, its length is eight less than a multiple of 255.
pub open spec fn spec_reads_as_sent(m: MessageView) -> bool {
    match m {
        MessageView::ConnInit { server_addr } => spec_addr_present(server_addr),
        MessageView::Pong(Some(info)) => spec_addr_present(info.addr),
        MessageView::NodeStatus(info) => spec_addr_present(info.addr),
        MessageView::Data(_, bytes) => (8 + bytes.len()) % 255 == 0,
        _ => true,
    }
}

/// What reading the frames of a message gives: the message as it reads at
/// the other end with the number of its frames, or the failure.
pub open spec fn spec_read_of(m: MessageView) -> Result<Option<(MessageView, nat)>, ProtocolError> {
    match spec_as_read(m) {
        Ok(read) => Ok(Some((read, spec_into_frames(m).len()))),
        Err(e) => Err(e),
    }
}

/// A frame with a reserved bit set, or with an opcode that names no
/// message, is refused whatever the receiver holds: it never yields a message
/// and never counts as a chunk.
pub proof fn lemma_bad_header_is_refused(st: AssemblerView, frame: Seq<u8>)
    ensures
        spec_reserved(frame[0]) != 0 ==> spec_push(st, frame) == (
            spec_assembler_empty(),
            Err::<Option<(MessageView, nat)>, ProtocolError>(ProtocolError::ReservedBits),
        ),
        spec_reserved(frame[0]) == 0 && spec_opcode(frame[0]) > 6 ==> spec_push(st, frame) == (
            spec_assembler_empty(),
            Err::<Option<(MessageView, nat)>, ProtocolError>(ProtocolError::UnknownOpcode),
        ),
        spec_reserved(frame[0]) != 0 || spec_opcode(frame[0]) > 6 ==> spec_from_stream(
            seq![frame],
        ) is Err,
{
    assert(seq![frame][0] == frame);
}

/// The payload of a message as it fills its frames, read as the kind of the
/// message's opcode, is the message as it reads at the other end.
pub proof fn lemma_payload_round_trip(m: MessageView)
    requires
        spec_message_encodable(m),
        !(m is ConnClosed),
        !(m is Ping),
    ensures
        spec_buffer_type(spec_message_opcode(m)) is Some,
        spec_parse_buffer(
            spec_buffer_type(spec_message_opcode(m))->0,
            spec_padded(spec_message_payload(m)),
        ) == spec_as_read(m),
{
    let payload = spec_message_payload(m);
    let zeros = spec_zeros(spec_padding(payload.len()));
    let buf = spec_padded(payload);
    match m {
        MessageView::ConnInit { server_addr } => {
            lemma_addr_round_trip(server_addr, zeros);
        },
        MessageView::Pong(Some(info)) => {
            lemma_node_info_round_trip(info, zeros);
        },
        MessageView::Pong(None) => {
            assert(buf.len() == 255);
            assert(buf[0] == 0 && buf[1] == 0 && buf[2] == 0 && buf[3] == 0);
        },
        MessageView::NodeStatus(info) => {
            lemma_node_info_round_trip(info, zeros);
        },
        MessageView::Data(id, bytes) => {
            lemma_be64_round_trip(id);
            assert(buf.subrange(8, buf.len() as int) =~= bytes + zeros);
            assert(buf[0] == spec_be64(id)[0]);
            assert(buf[1] == spec_be64(id)[1]);
            assert(buf[2] == spec_be64(id)[2]);
            assert(buf[3] == spec_be64(id)[3]);
            assert(buf[4] == spec_be64(id)[4]);
            assert(buf[5] == spec_be64(id)[5]);
            assert(buf[6] == spec_be64(id)[6]);
            assert(buf[7] == spec_be64(id)[7]);
        },
        _ => {},
    }
}

/// The assembler after the first `k` frames of a message of more than `k`
/// frames.
pub open spec fn spec_assembler_after(m: MessageView, k: nat) -> AssemblerView {
    if k == 0 {
        spec_assembler_empty()
    } else {
        AssemblerView {
            buf: spec_padded(spec_message_payload(m)).subrange(0, 255 * (k as int)),
            buf_type: spec_buffer_type(spec_message_opcode(m))->0,
            frames: k,
        }
    }
}

proof fn lemma_read_prefix(m: MessageView, k: nat)
    requires
        spec_message_encodable(m),
        k < spec_frame_count(spec_message_payload(m).len()) <= usize::MAX,
    ensures
        spec_from_stream(spec_into_frames(m)) == spec_read_from(
            spec_into_frames(m),
            k,
            spec_assembler_after(m, k),
        ),
    decreases k,
{
    if k > 0 {
        let j = (k - 1) as nat;
        let (kk, jj) = (k as int, j as int);
        lemma_read_prefix(m, j);
        let opcode = spec_message_opcode(m);
        let payload = spec_message_payload(m);
        let padded = spec_padded(payload);
        let frames = spec_into_frames(m);
        let frame = frames[j as int];
        let st = spec_assembler_after(m, j);
        let op = if j == 0 {
            opcode
        } else {
            PROT_OPCODE_CONTINUATION
        };
        lemma_header_fields(false, op);
        lemma_frame_slot(opcode, payload, jj);
        assert(frame[0] == spec_header(false, op));
        assert(st.buf + padded.subrange(255 * jj, 255 * kk) =~= padded.subrange(0, 255 * kk));
        assert(spec_push(st, frame).0 == spec_assembler_after(m, k));
    }
}

/// What is read off a sequence of frames does not change when more frames
/// follow, once it is a message or a failure.
pub proof fn lemma_read_ignores_what_follows(
    reads: Seq<Seq<u8>>,
    rest: Seq<Seq<u8>>,
    i: nat,
    st: AssemblerView,
)
    requires
        spec_read_from(reads, i, st) != Ok::<Option<(MessageView, nat)>, ProtocolError>(None),
    ensures
        spec_read_from(reads + rest, i, st) == spec_read_from(reads, i, st),
    decreases reads.len() - i,
{
    let all = reads + rest;
    if i < reads.len() {
        assert(all[i as int] == reads[i as int]);
        let (next, out) = spec_push(st, reads[i as int]);
        if out == Ok::<Option<(MessageView, nat)>, ProtocolError>(None) {
            lemma_read_ignores_what_follows(reads, rest, i + 1, next);
        }
    }
}

/// The frames of a message, followed by whatever else, read as that message
/// reads at the other end: a receiver takes messages in the order in which
/// they were sent, each in exactly its own frames. This holds of every message
/// that has frames at all, that is of every message without an IPv6 address
/// in it.
pub proof fn lemma_round_trip_in_stream(m: ProtocolMessage, rest: Seq<Seq<u8>>)
    requires
        spec_message_encodable(m@),
    ensures
        spec_from_stream(spec_into_frames(m@) + rest) == spec_read_of(m@),
{
    lemma_round_trip(m);
    lemma_read_ignores_what_follows(spec_into_frames(m@), rest, 0, spec_assembler_empty());
}

/// Reading the frames of a message gives the message as it reads at the
/// other end, with the number of its frames.
pub proof fn lemma_round_trip(m: ProtocolMessage)
    requires
        spec_message_encodable(m@),
    ensures
        spec_from_stream(spec_into_frames(m@)) == spec_read_of(m@),
{
    match m {
        ProtocolMessage::Data(_, bytes) => {
            assert(bytes.len() <= usize::MAX);
            assert(spec_message_payload(m@).len() == 8 + bytes@.len());
        },
        ProtocolMessage::ConnInit { server_addr } => {
            lemma_addr_round_trip(server_addr, Seq::empty());
        },
        ProtocolMessage::Pong(Some(info)) => {
            lemma_node_info_round_trip(info, Seq::empty());
        },
        ProtocolMessage::NodeStatus(info) => {
            lemma_node_info_round_trip(info, Seq::empty());
        },
        _ => {},
    }
    lemma_round_trip_view(m@);
}

/// The same for a message as a mathematical value, as long as its frames can
/// be counted in a `usize`.
pub proof fn lemma_round_trip_view(m: MessageView)
    requires
        spec_message_encodable(m),
        spec_frame_count(spec_message_payload(m).len()) <= usize::MAX,
    ensures
        spec_from_stream(spec_into_frames(m)) == spec_read_of(m),
{
    let opcode = spec_message_opcode(m);
    let payload = spec_message_payload(m);
    let padded = spec_padded(payload);
    let frames = spec_into_frames(m);
    let n = frames.len();
    let k = (n - 1) as nat;
    let kk = k as int;
    lemma_read_prefix(m, k);
    let st = spec_assembler_after(m, k);
    let frame = frames[k as int];
    let op = if k == 0 {
        opcode
    } else {
        PROT_OPCODE_CONTINUATION
    };
    lemma_header_fields(true, op);
    lemma_frame_slot(opcode, payload, kk);
    assert(frame[0] == spec_header(true, op));
    assert(st.buf + padded.subrange(255 * kk, 255 * kk + 255) =~= padded);
    if !(m is ConnClosed) && !(m is Ping) {
        lemma_payload_round_trip(m);
    }
}

/// A message that holds no address of 0.0.0.0, and whose application data
/// fills its last frame, reads at the other end exactly as it was sent.
pub proof fn lemma_round_trip_exact(m: ProtocolMessage, rest: Seq<Seq<u8>>)
    requires
        spec_message_encodable(m@),
        spec_reads_as_sent(m@),
    ensures
        spec_from_stream(spec_into_frames(m@) + rest) == Ok::<
            Option<(MessageView, nat)>,
            ProtocolError,
        >(Some((m@, spec_into_frames(m@).len()))),
{
    lemma_round_trip_in_stream(m, rest);
    match m@ {
        MessageView::Data(id, bytes) => {
            assert(spec_padding(8 + bytes.len()) == 0);
            assert(bytes + spec_zeros(0) =~= bytes);
        },
        _ => {},
    }
}

/// Application data as it was read fills its frames: sent on, it reads at
/// the next node exactly as it is, with no zeros added.
pub proof fn lemma_forwarding_adds_no_padding(m: MessageView)
    requires
        m is Data,
    ensures
        spec_as_read(m) matches Ok(read) && spec_reads_as_sent(read),
{
    let bytes = m->Data_1;
    let len = 8 + bytes.len();
    assert((len + spec_padding(len)) % 255 == 0) by {
        assert(len + spec_padding(len) == 255 * spec_frame_count(len));
    }
}

/// The kind of message that a first frame with this opcode starts, if it
/// starts one with a payload.
pub fn buffer_type(opcode: u8) -> (r: Option<ProtocolBufferType>)
    ensures
        r == spec_buffer_type(opcode),
{
    if opcode == PROT_OPCODE_CONN_INIT {
        Some(ProtocolBufferType::ConnInit)
    } else if opcode == PROT_OPCODE_DATA {
        Some(ProtocolBufferType::Data)
    } else if opcode == PROT_OPCODE_NODE_INFO {
        Some(ProtocolBufferType::NodeInfo)
    } else if opcode == PROT_OPCODE_PONG {
        Some(ProtocolBufferType::Pong)
    } else {
        None
    }
}

/// Reads a gathered payload as a message of the given kind.
pub fn parse_buffer(kind: ProtocolBufferType, buf: Vec<u8>) -> (r: Result<
    ProtocolMessage,
    ProtocolError,
>)
    ensures
        spec_parsed_view(r) == spec_parse_buffer(kind, buf@),
{
    match kind {
        ProtocolBufferType::ConnInit => match socket_addr_from_bytes(buf.as_slice()) {
            Ok(Some(server_addr)) => Ok(ProtocolMessage::ConnInit { server_addr }),
            Ok(None) => Err(ProtocolError::AddressRequired),
            Err(e) => Err(e),
        },
        ProtocolBufferType::Data => {
            if buf.len() < 8 {
                return Err(ProtocolError::NotEnoughBytes);
            }
            let mut head = buf;
            let data = head.split_off(8);
            let id = be64_value(head.as_slice());
            assert(spec_from_be64(head@) == spec_from_be64(buf@));
            Ok(ProtocolMessage::Data(id, data))
        },
        ProtocolBufferType::NodeInfo => match NodeInfo::from_bytes(buf) {
            Ok(Some(info)) => Ok(ProtocolMessage::NodeStatus(info)),
            Ok(None) => Err(ProtocolError::NodeInfoRequired),
            Err(e) => Err(e),
        },
        ProtocolBufferType::Pong => match NodeInfo::from_bytes(buf) {
            Ok(info) => Ok(ProtocolMessage::Pong(info)),
            Err(e) => Err(e),
        },
    }
}

impl FrameAssembler {
    /// An assembler that has seen no frame.
    pub fn new() -> (r: Self)
        ensures
            r@ == spec_assembler_empty(),
    {
        FrameAssembler { buf: Vec::new(), buf_type: ProtocolBufferType::Data, frames_count: 0 }
    }

    /// Takes the gathered payload out and makes the assembler empty.
    fn take(&mut self) -> (r: Vec<u8>)
        ensures
            r@ == old(self)@.buf,
            final(self)@ == spec_assembler_empty(),
    {
        let mut taken: Vec<u8> = Vec::new();
        std::mem::swap(&mut self.buf, &mut taken);
        self.buf_type = ProtocolBufferType::Data;
        self.frames_count = 0;
        taken
    }

    /// Takes one frame in. The result is a failure, nothing yet, or the
    /// message that the frame completes with the number of frames it came in.
    pub fn push(&mut self, frame: [u8; 256]) -> (r: Result<
        Option<(ProtocolMessage, usize)>,
        ProtocolError,
    >)
        ensures
            (final(self)@, spec_read_view(r)) == spec_push(old(self)@, frame@),
    {
        let frames = if self.frames_count == usize::MAX {
            usize::MAX
        } else {
            self.frames_count + 1
        };
        match protocol_decode_frame(&mut self.buf, frame) {
            Err(e) => {
                let _ = self.take();
                Err(e)
            },
            Ok(ProtocolAction::Nothing) => {
                self.frames_count = frames;
                Ok(None)
            },
            Ok(ProtocolAction::UpdateBufferType(kind)) => {
                self.buf_type = kind;
                self.frames_count = frames;
                Ok(None)
            },
            Ok(ProtocolAction::UseBuffer) => {
                let kind = match buffer_type(frame[0] & 0x0f) {
                    Some(kind) => kind,
                    None => self.buf_type,
                };
                let buf = self.take();
                match parse_buffer(kind, buf) {
                    Ok(m) => Ok(Some((m, frames))),
                    Err(e) => Err(e),
                }
            },
            Ok(ProtocolAction::CloseConnection) => {
                let _ = self.take();
                Ok(Some((ProtocolMessage::ConnClosed, frames)))
            },
            Ok(ProtocolAction::ReceivedPing) => {
                let _ = self.take();
                Ok(Some((ProtocolMessage::Ping, frames)))
            },
            Ok(ProtocolAction::Send(_)) => Ok(None),
        }
    }
}

impl ProtocolMessage {
    /// Bytes of a frame.
    pub const FRAME_SIZE: usize = 256;

    /// The frames that carry this message, each of 256 bytes. Fails on an
    /// IPv6 address and on nothing else.
    pub fn into_frames(self) -> (r: Result<Vec<Vec<u8>>, ProtocolError>)
        ensures
            match r {
                Ok(frames) => spec_message_encodable(self@) && spec_frame_views(frames@)
                    == spec_into_frames(self@),
                Err(e) => !spec_message_encodable(self@) && e == ProtocolError::Ipv6Unsupported,
            },
    {
        let mut buf: Vec<u8> = Vec::new();
        let opcode = match self {
            ProtocolMessage::ConnInit { server_addr } => {
                match socket_addr_to_bytes(server_addr) {
                    Ok(bytes) => {
                        extend_bytes(&mut buf, bytes.as_slice());
                    },
                    Err(e) => {
                        return Err(e);
                    },
                }
                PROT_OPCODE_CONN_INIT
            },
            ProtocolMessage::ConnClosed => PROT_OPCODE_CONN_CLOSED,
            ProtocolMessage::Ping => PROT_OPCODE_PING,
            ProtocolMessage::Pong(node_info) => {
                if let Some(node_info) = node_info {
                    match node_info.into_bytes() {
                        Ok(bytes) => {
                            extend_bytes(&mut buf, bytes.as_slice());
                        },
                        Err(e) => {
                            return Err(e);
                        },
                    }
                }
                PROT_OPCODE_PONG
            },
            ProtocolMessage::NodeStatus(node_info) => {
                match node_info.into_bytes() {
                    Ok(bytes) => {
                        extend_bytes(&mut buf, bytes.as_slice());
                    },
                    Err(e) => {
                        return Err(e);
                    },
                }
                PROT_OPCODE_NODE_INFO
            },
            ProtocolMessage::Data(id, bytes) => {
                let id_bytes = be64_bytes(id);
                extend_bytes(&mut buf, id_bytes.as_slice());
                extend_bytes(&mut buf, bytes.as_slice());
                PROT_OPCODE_DATA
            },
        };
        assert(buf@ =~= spec_message_payload(self@));
        Ok(protocol_encode_frames(opcode, buf.as_slice()))
    }

    /// Reads the first message off a sequence of frames read from a
    /// connection. The result is the message with the number of frames that
    /// it took; or nothing, where the frames end before a message is complete,
    /// which is what a peer that has gone leaves; or the failure of the first
    /// frame that is refused.
    pub fn from_stream(reads: &[[u8; 256]]) -> (r: Result<
        Option<(ProtocolMessage, usize)>,
        ProtocolError,
    >)
        ensures
            spec_read_view(r) == spec_from_stream(spec_read_views(reads@)),
    {
        let ghost views = spec_read_views(reads@);
        let mut assembler = FrameAssembler::new();
        let mut i: usize = 0;
        while i < reads.len()
            invariant
                i <= reads@.len(),
                views == spec_read_views(reads@),
                spec_from_stream(views) == spec_read_from(views, i as nat, assembler@),
            decreases reads@.len() - i,
        {
            assert(views[i as int] == reads@[i as int]@);
            match assembler.push(reads[i]) {
                Err(e) => {
                    return Err(e);
                },
                Ok(Some(done)) => {
                    return Ok(Some(done));
                },
                Ok(None) => {},
            }
            i = i + 1;
        }
        Ok(None)
    }
}

} // verus!
