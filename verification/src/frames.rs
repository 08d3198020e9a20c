//! Frames: the 256-byte units that messages travel in. A frame is one header
//! byte (final bit, three reserved bits, four opcode bits) and a slot of 255
//! bytes that holds a chunk of payload and, behind it, zeros. No length goes
//! over the wire: a receiver takes the whole slot for payload.

use vstd::prelude::*;
use vstd::slice::slice_subrange;
use crate::error::ProtocolError;

verus! {

/// The frame carries on the payload of the frame before it.
pub const PROT_OPCODE_CONTINUATION: u8 = 0;

/// The connecting side names the address of its own server socket.
pub const PROT_OPCODE_CONN_INIT: u8 = 1;

/// The sender is closing the connection.
pub const PROT_OPCODE_CONN_CLOSED: u8 = 2;

/// Asks whether the connection is still alive.
pub const PROT_OPCODE_PING: u8 = 3;

/// Answers a ping.
pub const PROT_OPCODE_PONG: u8 = 4;

/// Carries application data.
pub const PROT_OPCODE_DATA: u8 = 5;

/// Describes another node, for the receiver to connect to or not.
pub const PROT_OPCODE_NODE_INFO: u8 = 6;

/// Bytes of a frame.
pub const PROTOCOL_BUF_SIZE: usize = 256;

/// Bytes of payload that a frame has room for.
pub const PAYLOAD_SIZE: usize = 255;

/// What kind of message the bytes gathered so far belong to.
#[derive(Clone, Copy, Debug, PartialEq, Eq, Structural)]
pub enum ProtocolBufferType {
    ConnInit,
    Data,
    NodeInfo,
    Pong,
}

/// What the receiver of a frame is to do next.
#[derive(Debug)]
pub enum ProtocolAction {
    /// A continuation chunk was stored and more is to come.
    Nothing,
    /// The first chunk of a longer message was stored; the buffer now holds a
    /// message of this kind.
    UpdateBufferType(ProtocolBufferType),
    /// The last chunk was stored: the buffer holds a whole message.
    UseBuffer,
    /// The peer closes the connection.
    CloseConnection,
    /// The peer asks for a pong.
    ReceivedPing,
    /// This frame is to be written back to the peer.
    Send(Vec<u8>),
}

/// The frames of one message, in the order in which they are written.
#[derive(Debug)]
pub struct ProtocolFrame(pub Vec<Vec<u8>>);

/// The header byte for a final bit and an opcode.
pub open spec fn spec_header(fin: bool, opcode: u8) -> u8 {
    if fin {
        0x80u8 | opcode
    } else {
        opcode
    }
}

/// Whether a header has the final bit.
pub open spec fn spec_is_final(header: u8) -> bool {
    header & 0x80 == 0x80
}

/// The three reserved bits of a header, in place.
pub open spec fn spec_reserved(header: u8) -> u8 {
    header & 0x70
}

/// The opcode of a header.
pub open spec fn spec_opcode(header: u8) -> u8 {
    header & 0x0f
}

/// `n` bytes of zero.
pub open spec fn spec_zeros(n: nat) -> Seq<u8> {
    Seq::new(n, |i: int| 0u8)
}

/// How many frames a payload of `len` bytes takes: one for every 255 bytes
/// begun, and one for no bytes at all.
pub open spec fn spec_frame_count(len: nat) -> nat {
    if len == 0 {
        1
    } else {
        ((len + 254) / 255) as nat
    }
}

/// Where the chunk of frame `i` ends in a payload of `len` bytes.
pub open spec fn spec_chunk_end(len: nat, i: int) -> int {
    if 255 * i + 255 < len {
        255 * i + 255
    } else {
        len as int
    }
}

/// The chunk of payload that frame `i` carries: the next 255 bytes, and in
/// the last frame what is left.
pub open spec fn spec_chunk(payload: Seq<u8>, i: int) -> Seq<u8> {
    payload.subrange(255 * i, spec_chunk_end(payload.len(), i))
}

/// How many zeros follow a payload of `len` bytes in its last frame.
pub open spec fn spec_padding(len: nat) -> nat {
    (255 * spec_frame_count(len) - len) as nat
}

/// A payload as it fills its frames: the payload, then zeros to the end of
/// the last frame. This is what a receiver gathers.
pub open spec fn spec_padded(payload: Seq<u8>) -> Seq<u8> {
    payload + spec_zeros(spec_padding(payload.len()))
}

/// Frame `i` of a payload sent under `opcode`, 256 bytes: the header, the
/// chunk, and zeros to the end. The first frame has the opcode, the later ones
/// the continuation opcode; the last one has the final bit.
pub open spec fn spec_frame(opcode: u8, payload: Seq<u8>, i: int) -> Seq<u8> {
    let fin = i == spec_frame_count(payload.len()) - 1;
    let op = if i == 0 {
        opcode
    } else {
        PROT_OPCODE_CONTINUATION
    };
    let chunk = spec_chunk(payload, i);
    seq![spec_header(fin, op)] + chunk + spec_zeros((255 - chunk.len()) as nat)
}

/// All frames of a payload sent under `opcode`.
pub open spec fn spec_frames(opcode: u8, payload: Seq<u8>) -> Seq<Seq<u8>> {
    Seq::new(spec_frame_count(payload.len()), |i: int| spec_frame(opcode, payload, i))
}

/// The byte strings held by a list of frames.
pub open spec fn spec_frame_views(frames: Seq<Vec<u8>>) -> Seq<Seq<u8>> {
    Seq::new(frames.len(), |i: int| frames[i]@)
}

/// The byte strings held by a list of frames that were read.
pub open spec fn spec_read_views(frames: Seq<[u8; 256]>) -> Seq<Seq<u8>> {
    Seq::new(frames.len(), |i: int| frames[i]@)
}

/// The 255-byte slot of a frame: everything behind the header.
pub open spec fn spec_slot(frame: Seq<u8>) -> Seq<u8> {
    frame.subrange(1, frame.len() as int)
}

/// The slots of the first `n` of `frames`, joined.
pub open spec fn spec_joined_payload(frames: Seq<Seq<u8>>, n: nat) -> Seq<u8>
    decreases n,
{
    if n == 0 {
        Seq::empty()
    } else {
        spec_joined_payload(frames, (n - 1) as nat) + spec_slot(frames[n - 1])
    }
}

/// The kind of message that a first frame with this opcode starts, if it
/// starts one with a payload.
pub open spec fn spec_buffer_type(opcode: u8) -> Option<ProtocolBufferType> {
    if opcode == PROT_OPCODE_CONN_INIT {
        Some(ProtocolBufferType::ConnInit)
    } else if opcode == PROT_OPCODE_DATA {
        Some(ProtocolBufferType::Data)
    } else if opcode == PROT_OPCODE_NODE_INFO {
        Some(ProtocolBufferType::NodeInfo)
    } else if opcode == PROT_OPCODE_PONG {
        Some(ProtocolBufferType::Pong)
    } else {
        None
    }
}

/// Whether the slot of a frame with this opcode is added to the buffer.
pub open spec fn spec_accumulates(opcode: u8) -> bool {
    opcode == PROT_OPCODE_CONTINUATION || spec_buffer_type(opcode) is Some
}

/// What a single frame asks for, or why it is refused. In this order: its
/// reserved bits must be zero; a close or a ping must be final; an opcode
/// above 6 is unknown.
pub open spec fn spec_decode_action(frame: Seq<u8>) -> Result<ProtocolAction, ProtocolError>
    recommends
        frame.len() == 256,
{
    if spec_reserved(frame[0]) != 0 {
        Err(ProtocolError::ReservedBits)
    } else {
        let opcode = spec_opcode(frame[0]);
        let fin = spec_is_final(frame[0]);
        if opcode == PROT_OPCODE_CONN_CLOSED {
            if fin {
                Ok(ProtocolAction::CloseConnection)
            } else {
                Err(ProtocolError::SingleFrameNotFinal)
            }
        } else if opcode == PROT_OPCODE_PING {
            if fin {
                Ok(ProtocolAction::ReceivedPing)
            } else {
                Err(ProtocolError::SingleFrameNotFinal)
            }
        } else if opcode == PROT_OPCODE_CONTINUATION {
            if fin {
                Ok(ProtocolAction::UseBuffer)
            } else {
                Ok(ProtocolAction::Nothing)
            }
        } else {
            match spec_buffer_type(opcode) {
                Some(kind) => if fin {
                    Ok(ProtocolAction::UseBuffer)
                } else {
                    Ok(ProtocolAction::UpdateBufferType(kind))
                },
                None => Err(ProtocolError::UnknownOpcode),
            }
        }
    }
}

/// The buffer after a frame: grown by the frame's whole slot where the frame
/// is accepted and carries payload, else as it was.
pub open spec fn spec_decode_buffer(buf: Seq<u8>, frame: Seq<u8>) -> Seq<u8>
    recommends
        frame.len() == 256,
{
    if spec_decode_action(frame) is Ok && spec_accumulates(spec_opcode(frame[0])) {
        buf + spec_slot(frame)
    } else {
        buf
    }
}

/// The frame that answers a ping without naming a node.
pub open spec fn spec_bare_pong() -> Seq<u8> {
    spec_frame(PROT_OPCODE_PONG, Seq::empty(), 0)
}

/// The slot of frame `i` of a payload is bytes `255 i` to `255 i + 255` of
/// the payload as it fills its frames, and the frame has 256 bytes.
pub proof fn lemma_frame_slot(opcode: u8, payload: Seq<u8>, i: int)
    requires
        0 <= i < spec_frame_count(payload.len()),
    ensures
        spec_frame(opcode, payload, i).len() == 256,
        spec_padded(payload).len() == 255 * spec_frame_count(payload.len()),
        spec_slot(spec_frame(opcode, payload, i)) == spec_padded(payload).subrange(
            255 * i,
            255 * i + 255,
        ),
{
    let frame = spec_frame(opcode, payload, i);
    let chunk = spec_chunk(payload, i);
    assert(frame.len() == 256);
    assert(spec_slot(frame) =~= chunk + spec_zeros((255 - chunk.len()) as nat));
    assert(spec_slot(frame) =~= spec_padded(payload).subrange(255 * i, 255 * i + 255));
}

/// A payload of `N` bytes yields `ceil(N / 255)` frames, and one frame for
/// `N = 0`. Every frame has 256 bytes. The first frame carries the opcode
/// and every later one the continuation opcode; the last frame has the final
/// bit and no other has; no reserved bit is set. The slots, joined in order,
/// are the payload that went in and then zeros to the end of the last frame.
pub proof fn lemma_fragmentation(opcode: u8, payload: Seq<u8>)
    requires
        opcode < 16,
    ensures
        spec_frames(opcode, payload).len() == spec_frame_count(payload.len()),
        payload.len() == 0 ==> spec_frames(opcode, payload).len() == 1,
        payload.len() > 0 ==> 255 * (spec_frames(opcode, payload).len() - 1) < payload.len()
            <= 255 * spec_frames(opcode, payload).len(),
        forall|i: int|
            #![trigger spec_frames(opcode, payload)[i]]
            0 <= i < spec_frames(opcode, payload).len() ==> {
                let frame = spec_frames(opcode, payload)[i];
                &&& frame.len() == 256
                &&& spec_opcode(frame[0]) == if i == 0 {
                    opcode
                } else {
                    PROT_OPCODE_CONTINUATION
                }
                &&& spec_is_final(frame[0]) <==> i == spec_frames(opcode, payload).len() - 1
                &&& spec_reserved(frame[0]) == 0
            },
        spec_joined_payload(spec_frames(opcode, payload), spec_frames(opcode, payload).len())
            == spec_padded(payload),
        spec_padded(payload).subrange(0, payload.len() as int) == payload,
        forall|j: int|
            payload.len() <= j < spec_padded(payload).len() ==> spec_padded(payload)[j] == 0,
{
    let frames = spec_frames(opcode, payload);
    let n = frames.len();
    assert forall|i: int| 0 <= i < n implies {
        let frame = #[trigger] frames[i];
        &&& frame.len() == 256
        &&& spec_opcode(frame[0]) == if i == 0 {
            opcode
        } else {
            PROT_OPCODE_CONTINUATION
        }
        &&& spec_is_final(frame[0]) <==> i == n - 1
        &&& spec_reserved(frame[0]) == 0
    } by {
        lemma_header_fields(i == n - 1, if i == 0 {
            opcode
        } else {
            PROT_OPCODE_CONTINUATION
        });
    }
    lemma_joined_prefix(opcode, payload, n);
    lemma_frame_slot(opcode, payload, 0);
    assert(spec_padded(payload).subrange(0, 255 * (n as int)) =~= spec_padded(payload));
    assert(spec_padded(payload).subrange(0, payload.len() as int) =~= payload);
}

/// A header built from a final bit and a four-bit opcode gives both back and
/// has no reserved bit.
pub proof fn lemma_header_fields(fin: bool, opcode: u8)
    requires
        opcode < 16,
    ensures
        spec_is_final(spec_header(fin, opcode)) == fin,
        spec_opcode(spec_header(fin, opcode)) == opcode,
        spec_reserved(spec_header(fin, opcode)) == 0,
{
    assert((0x80u8 | opcode) & 0x80 == 0x80) by (bit_vector);
    assert(opcode < 16 ==> (0x80u8 | opcode) & 0x0f == opcode) by (bit_vector);
    assert(opcode < 16 ==> (0x80u8 | opcode) & 0x70 == 0) by (bit_vector);
    assert(opcode < 16 ==> opcode & 0x80 != 0x80) by (bit_vector);
    assert(opcode < 16 ==> opcode & 0x0f == opcode) by (bit_vector);
    assert(opcode < 16 ==> opcode & 0x70 == 0) by (bit_vector);
}

/// The slots of the first `k` frames of a payload are the first `255 k`
/// bytes of the payload as it fills its frames.
pub proof fn lemma_joined_prefix(opcode: u8, payload: Seq<u8>, k: nat)
    requires
        k <= spec_frame_count(payload.len()),
    ensures
        spec_joined_payload(spec_frames(opcode, payload), k) == spec_padded(payload).subrange(
            0,
            255 * (k as int),
        ),
    decreases k,
{
    let frames = spec_frames(opcode, payload);
    let padded = spec_padded(payload);
    if k == 0 {
        assert(spec_joined_payload(frames, 0) =~= padded.subrange(0, 0));
    } else {
        lemma_joined_prefix(opcode, payload, (k - 1) as nat);
        lemma_frame_slot(opcode, payload, k - 1);
        let end = 255 * (k as int);
        assert(padded.subrange(0, end - 255) + padded.subrange(end - 255, end)
            =~= padded.subrange(0, end));
    }
}

/// Appends `src` to `buf`.
pub fn extend_bytes(buf: &mut Vec<u8>, src: &[u8])
    ensures
        final(buf)@ == old(buf)@ + src@,
{
    let mut i: usize = 0;
    while i < src.len()
        invariant
            i <= src@.len(),
            buf@ == old(buf)@ + src@.subrange(0, i as int),
        decreases src@.len() - i,
    {
        buf.push(src[i]);
        i = i + 1;
        assert(buf@ =~= old(buf)@ + src@.subrange(0, i as int));
    }
    assert(src@.subrange(0, src@.len() as int) =~= src@);
}

/// Fills a frame up to its 256 bytes with zeros.
pub fn pad_frame(frame: &mut Vec<u8>)
    requires
        old(frame)@.len() <= 256,
    ensures
        final(frame)@ == old(frame)@ + spec_zeros((256 - old(frame)@.len()) as nat),
{
    while frame.len() < PROTOCOL_BUF_SIZE
        invariant
            old(frame)@.len() <= frame@.len() <= 256,
            frame@ == old(frame)@ + spec_zeros((frame@.len() - old(frame)@.len()) as nat),
        decreases 256 - frame@.len(),
    {
        frame.push(0);
        assert(frame@ =~= old(frame)@ + spec_zeros((frame@.len() - old(frame)@.len()) as nat));
    }
}

/// The header byte for a final bit and an opcode.
pub fn frame_header(fin: bool, opcode: u8) -> (r: u8)
    ensures
        r == spec_header(fin, opcode),
{
    if fin {
        0x80u8 | opcode
    } else {
        opcode
    }
}

/// Splits a payload into frames of 256 bytes under `opcode`.
pub fn protocol_encode_frames(opcode: u8, data: &[u8]) -> (result: Vec<Vec<u8>>)
    ensures
        spec_frame_views(result@) == spec_frames(opcode, data@),
{
    let len = data.len();
    let mut result: Vec<Vec<u8>> = Vec::new();
    if len == 0 {
        let mut only: Vec<u8> = Vec::with_capacity(PROTOCOL_BUF_SIZE);
        only.push(frame_header(true, opcode));
        pad_frame(&mut only);
        result.push(only);
        assert(spec_chunk(data@, 0) =~= Seq::<u8>::empty());
        assert(result@[0]@ =~= spec_frame(opcode, data@, 0));
        assert(spec_frame_views(result@) =~= spec_frames(opcode, data@));
        return result;
    }
    let ghost n = spec_frame_count(len as nat);
    let mut start: usize = 0;
    while start < len
        invariant
            len == data@.len(),
            len > 0,
            n == spec_frame_count(len as nat),
            result@.len() <= n,
            start <= len,
            start < len ==> start == 255 * result@.len(),
            start == len ==> result@.len() == n,
            forall|j: int|
                0 <= j < result@.len() ==> (#[trigger] result@[j])@ == spec_frame(
                    opcode,
                    data@,
                    j,
                ),
        decreases len - start,
    {
        let ghost i = result@.len() as int;
        let end = if len - start > PAYLOAD_SIZE {
            start + PAYLOAD_SIZE
        } else {
            len
        };
        let fin = end == len;
        let op = if result.len() > 0 {
            PROT_OPCODE_CONTINUATION
        } else {
            opcode
        };
        let mut chunk: Vec<u8> = Vec::with_capacity(PROTOCOL_BUF_SIZE);
        chunk.push(frame_header(fin, op));
        extend_bytes(&mut chunk, slice_subrange(data, start, end));
        pad_frame(&mut chunk);
        assert(end == spec_chunk_end(len as nat, i));
        assert(fin <==> i == n - 1);
        assert(chunk@ =~= spec_frame(opcode, data@, i));
        result.push(chunk);
        start = end;
    }
    assert(spec_frame_views(result@) =~= spec_frames(opcode, data@));
    result
}

impl ProtocolFrame {
    /// The byte strings of the frames.
    pub open spec fn view(&self) -> Seq<Seq<u8>> {
        spec_frame_views(self.0@)
    }

    /// Hands the frames out, first to last.
    pub fn into_iter(self) -> (r: Vec<Vec<u8>>)
        ensures
            spec_frame_views(r@) == self@,
    {
        self.0
    }
}

/// Splits a payload into frames under `opcode`, kept together as one value.
pub fn protocol_encode_frame_data(opcode: u8, data: &[u8]) -> (result: ProtocolFrame)
    ensures
        result@ == spec_frames(opcode, data@),
{
    ProtocolFrame(protocol_encode_frames(opcode, data))
}

/// Takes one frame in: checks its header, adds its whole slot to `buf` where
/// it has payload to add, and says what is to be done next. A refused frame
/// leaves `buf` as it was.
pub fn protocol_decode_frame(buf: &mut Vec<u8>, frame: [u8; 256]) -> (r: Result<
    ProtocolAction,
    ProtocolError,
>)
    ensures
        r == spec_decode_action(frame@),
        final(buf)@ == spec_decode_buffer(old(buf)@, frame@),
{
    let header = frame[0];
    let fin = header & 0x80 == 0x80;
    let rsv = header & 0x70;
    let opcode = header & 0x0f;

    if rsv != 0 {
        return Err(ProtocolError::ReservedBits);
    }
    let action = if opcode == PROT_OPCODE_CONTINUATION {
        ProtocolAction::Nothing
    } else if opcode == PROT_OPCODE_CONN_INIT {
        ProtocolAction::UpdateBufferType(ProtocolBufferType::ConnInit)
    } else if opcode == PROT_OPCODE_DATA {
        ProtocolAction::UpdateBufferType(ProtocolBufferType::Data)
    } else if opcode == PROT_OPCODE_NODE_INFO {
        ProtocolAction::UpdateBufferType(ProtocolBufferType::NodeInfo)
    } else if opcode == PROT_OPCODE_PONG {
        ProtocolAction::UpdateBufferType(ProtocolBufferType::Pong)
    } else if opcode == PROT_OPCODE_CONN_CLOSED {
        if !fin {
            return Err(ProtocolError::SingleFrameNotFinal);
        }
        return Ok(ProtocolAction::CloseConnection);
    } else if opcode == PROT_OPCODE_PING {
        if !fin {
            return Err(ProtocolError::SingleFrameNotFinal);
        }
        return Ok(ProtocolAction::ReceivedPing);
    } else {
        return Err(ProtocolError::UnknownOpcode);
    };
    extend_bytes(buf, slice_subrange(frame.as_slice(), 1, PROTOCOL_BUF_SIZE));
    Ok(
        if fin {
            ProtocolAction::UseBuffer
        } else {
            action
        },
    )
}

/// Takes one frame in as `protocol_decode_frame` does, and prepares the
/// answer to a ping itself: for a ping the result is the pong frame to send.
pub fn protocol_parse_frame(buf: &mut Vec<u8>, frame: [u8; 256]) -> (r: Result<
    ProtocolAction,
    ProtocolError,
>)
    ensures
        final(buf)@ == spec_decode_buffer(old(buf)@, frame@),
        match spec_decode_action(frame@) {
            Ok(ProtocolAction::ReceivedPing) => r matches Ok(ProtocolAction::Send(pong))
                && pong@ == spec_bare_pong(),
            Ok(ProtocolAction::UpdateBufferType(_)) => r == Ok::<ProtocolAction, ProtocolError>(
                ProtocolAction::Nothing,
            ),
            other => r == other,
        },
{
    match protocol_decode_frame(buf, frame) {
        Ok(ProtocolAction::ReceivedPing) => {
            let empty: Vec<u8> = Vec::new();
            let mut chunks = protocol_encode_frames(PROT_OPCODE_PONG, empty.as_slice());
            assert(spec_frame_views(chunks@).len() == 1);
            assert(spec_frame_views(chunks@)[0] == chunks@[0]@);
            let chunk = chunks.remove(0);
            Ok(ProtocolAction::Send(chunk))
        },
        Ok(ProtocolAction::UpdateBufferType(_)) => Ok(ProtocolAction::Nothing),
        other => other,
    }
}

} // verus!
