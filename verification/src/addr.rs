//! Socket addresses as plain values, and their six-byte wire form.

use vstd::prelude::*;
use crate::error::ProtocolError;

verus! {

/// The address of a node's server socket.
#[derive(Clone, Copy, Debug, PartialEq, Eq, Hash, Structural)]
pub enum NodeAddr {
    /// An IPv4 address by its four octets, and a port.
    V4 { a: u8, b: u8, c: u8, d: u8, port: u16 },
    /// An IPv6 address as one number, with the other parts of such a socket
    /// address. It can be held and compared, and never goes on the wire.
    V6 { ip: u128, port: u16, flowinfo: u32, scope_id: u32 },
}

/// Length of an address on the wire.
pub const ADDR_BYTES: usize = 6;

/// The two bytes of `x`, most significant first.
pub open spec fn spec_be16(x: u16) -> Seq<u8> {
    seq![(x / 256) as u8, (x % 256) as u8]
}

/// The number whose big-endian bytes are `hi`, `lo`.
pub open spec fn spec_from_be16(hi: u8, lo: u8) -> u16 {
    (hi * 256 + lo) as u16
}

/// The eight bytes of `x`, most significant first.
pub open spec fn spec_be64(x: u64) -> Seq<u8> {
    seq![
        (x / 0x100_0000_0000_0000) as u8,
        (x / 0x1_0000_0000_0000 % 256) as u8,
        (x / 0x100_0000_0000 % 256) as u8,
        (x / 0x1_0000_0000 % 256) as u8,
        (x / 0x100_0000 % 256) as u8,
        (x / 0x1_0000 % 256) as u8,
        (x / 0x100 % 256) as u8,
        (x % 256) as u8,
    ]
}

/// The number whose big-endian bytes are the first eight of `b`.
pub open spec fn spec_from_be64(b: Seq<u8>) -> u64
    recommends
        b.len() >= 8,
{
    (b[0] * 0x100_0000_0000_0000 + b[1] * 0x1_0000_0000_0000 + b[2] * 0x100_0000_0000 + b[3]
        * 0x1_0000_0000 + b[4] * 0x100_0000 + b[5] * 0x1_0000 + b[6] * 0x100 + b[7]) as u64
}

/// Whether an address has a wire form: IPv4 only.
pub open spec fn spec_addr_encodable(addr: NodeAddr) -> bool {
    addr is V4
}

/// The wire form of an IPv4 address: four octets, then the port, big-endian.
pub open spec fn spec_addr_bytes(addr: NodeAddr) -> Seq<u8>
    recommends
        addr is V4,
{
    match addr {
        NodeAddr::V4 { a, b, c, d, port } => seq![a, b, c, d] + spec_be16(port),
        NodeAddr::V6 { .. } => Seq::empty(),
    }
}

/// The address that the first six bytes of `bytes` spell.
pub open spec fn spec_addr_at(bytes: Seq<u8>) -> NodeAddr
    recommends
        bytes.len() >= 6,
{
    NodeAddr::V4 {
        a: bytes[0],
        b: bytes[1],
        c: bytes[2],
        d: bytes[3],
        port: spec_from_be16(bytes[4], bytes[5]),
    }
}

/// Whether the four octets at the front of `bytes` are all zero. On the
/// wire that stands for no address: a frame is padded with zeros, so this is
/// what the place of an address holds where none was sent.
pub open spec fn spec_no_address(bytes: Seq<u8>) -> bool
    recommends
        bytes.len() >= 4,
{
    bytes[0] == 0 && bytes[1] == 0 && bytes[2] == 0 && bytes[3] == 0
}

/// Whether an address is IPv4 with an octet that is not zero: only such an
/// address reads back from the wire as an address.
pub open spec fn spec_addr_present(addr: NodeAddr) -> bool {
    addr matches NodeAddr::V4 { a, b, c, d, .. } && !(a == 0 && b == 0 && c == 0 && d == 0)
}

/// What reading an address off `bytes` gives. The four octets are read
/// first: a failure where they are not all there, nothing where they are all
/// zero. Then the port: a failure where its two bytes are not both there.
/// Else the address spelled by the first six bytes; what follows them is not
/// looked at.
pub open spec fn spec_addr_from_bytes(bytes: Seq<u8>) -> Result<Option<NodeAddr>, ProtocolError> {
    if bytes.len() < 4 {
        Err(ProtocolError::NotEnoughBytes)
    } else if spec_no_address(bytes) {
        Ok(None)
    } else if bytes.len() < 6 {
        Err(ProtocolError::NotEnoughBytes)
    } else {
        Ok(Some(spec_addr_at(bytes)))
    }
}

/// Splitting a 16-bit number into bytes and joining them gives it back.
pub proof fn lemma_be16_round_trip(x: u16)
    ensures
        spec_be16(x).len() == 2,
        spec_from_be16(spec_be16(x)[0], spec_be16(x)[1]) == x,
{
}

/// Splitting a 64-bit number into bytes and joining them gives it back.
pub proof fn lemma_be64_round_trip(x: u64)
    ensures
        spec_be64(x).len() == 8,
        spec_from_be64(spec_be64(x)) == x,
{
    assert((x / 0x100_0000_0000_0000) * 0x100_0000_0000_0000 + (x / 0x1_0000_0000_0000 % 256)
        * 0x1_0000_0000_0000 + (x / 0x100_0000_0000 % 256) * 0x100_0000_0000 + (x / 0x1_0000_0000
        % 256) * 0x1_0000_0000 + (x / 0x100_0000 % 256) * 0x100_0000 + (x / 0x1_0000 % 256)
        * 0x1_0000 + (x / 0x100 % 256) * 0x100 + x % 256 == x) by (bit_vector);
    assert(x / 0x100_0000_0000_0000 < 256) by (bit_vector);
}

/// An IPv4 address read back from its own wire form is the same address,
/// whatever bytes follow it; but the address 0.0.0.0 reads back as no address.
pub proof fn lemma_addr_round_trip(addr: NodeAddr, rest: Seq<u8>)
    requires
        spec_addr_encodable(addr),
    ensures
        spec_addr_bytes(addr).len() == 6,
        spec_addr_from_bytes(spec_addr_bytes(addr) + rest) == Ok::<
            Option<NodeAddr>,
            ProtocolError,
        >(if spec_addr_present(addr) {
            Some(addr)
        } else {
            None
        }),
{
    let bytes = spec_addr_bytes(addr) + rest;
    match addr {
        NodeAddr::V4 { a, b, c, d, port } => {
            lemma_be16_round_trip(port);
            assert(bytes[0] == a && bytes[1] == b && bytes[2] == c && bytes[3] == d);
            assert(bytes[4] == spec_be16(port)[0]);
            assert(bytes[5] == spec_be16(port)[1]);
        },
        NodeAddr::V6 { .. } => {},
    }
}

/// The two bytes of `x`, most significant first.
pub fn be16_bytes(x: u16) -> (r: [u8; 2])
    ensures
        r@ == spec_be16(x),
{
    let r = [(x / 256) as u8, (x % 256) as u8];
    assert(r@ =~= spec_be16(x));
    r
}

/// The number whose big-endian bytes are `hi`, `lo`.
pub fn be16_value(hi: u8, lo: u8) -> (r: u16)
    ensures
        r == spec_from_be16(hi, lo),
{
    (hi as u16) * 256 + (lo as u16)
}

/// The eight bytes of `x`, most significant first.
pub fn be64_bytes(x: u64) -> (r: [u8; 8])
    ensures
        r@ == spec_be64(x),
{
    let r = [
        (x / 0x100_0000_0000_0000) as u8,
        (x / 0x1_0000_0000_0000 % 256) as u8,
        (x / 0x100_0000_0000 % 256) as u8,
        (x / 0x1_0000_0000 % 256) as u8,
        (x / 0x100_0000 % 256) as u8,
        (x / 0x1_0000 % 256) as u8,
        (x / 0x100 % 256) as u8,
        (x % 256) as u8,
    ];
    assert(r@ =~= spec_be64(x));
    r
}

/// The number whose big-endian bytes are the first eight of `bytes`.
pub fn be64_value(bytes: &[u8]) -> (r: u64)
    requires
        bytes@.len() >= 8,
    ensures
        r == spec_from_be64(bytes@),
{
    (bytes[0] as u64) * 0x100_0000_0000_0000 + (bytes[1] as u64) * 0x1_0000_0000_0000 + (
    bytes[2] as u64) * 0x100_0000_0000 + (bytes[3] as u64) * 0x1_0000_0000 + (bytes[4] as u64)
        * 0x100_0000 + (bytes[5] as u64) * 0x1_0000 + (bytes[6] as u64) * 0x100 + (bytes[7] as u64)
}

/// The wire form of an address. An IPv6 address has none.
pub fn socket_addr_to_bytes(addr: NodeAddr) -> (r: Result<[u8; 6], ProtocolError>)
    ensures
        match r {
            Ok(bytes) => spec_addr_encodable(addr) && bytes@ == spec_addr_bytes(addr),
            Err(e) => !spec_addr_encodable(addr) && e == ProtocolError::Ipv6Unsupported,
        },
{
    match addr {
        NodeAddr::V4 { a, b, c, d, port } => {
            let p = be16_bytes(port);
            let v = [a, b, c, d, p[0], p[1]];
            assert(v@ =~= spec_addr_bytes(addr));
            Ok(v)
        },
        NodeAddr::V6 { .. } => Err(ProtocolError::Ipv6Unsupported),
    }
}

/// Reads an address off the front of `bytes`.
pub fn socket_addr_from_bytes(bytes: &[u8]) -> (r: Result<Option<NodeAddr>, ProtocolError>)
    ensures
        r == spec_addr_from_bytes(bytes@),
{
    if bytes.len() < 4 {
        return Err(ProtocolError::NotEnoughBytes);
    }
    if bytes[0] == 0 && bytes[1] == 0 && bytes[2] == 0 && bytes[3] == 0 {
        return Ok(None);
    }
    if bytes.len() < ADDR_BYTES {
        return Err(ProtocolError::NotEnoughBytes);
    }
    let port = be16_value(bytes[4], bytes[5]);
    Ok(Some(NodeAddr::V4 { a: bytes[0], b: bytes[1], c: bytes[2], d: bytes[3], port }))
}

} // verus!
