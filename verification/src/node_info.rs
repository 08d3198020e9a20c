//! What one node tells another about a third: its address and the latency
//! measured to it.

use vstd::prelude::*;
use crate::addr::{
    be16_bytes, be16_value, lemma_addr_round_trip, lemma_be16_round_trip,
    socket_addr_from_bytes, socket_addr_to_bytes, spec_addr_bytes, spec_addr_encodable,
    spec_addr_from_bytes, spec_addr_present, spec_be16, spec_from_be16, NodeAddr,
};
use crate::error::ProtocolError;

verus! {

/// A node's address with a round-trip time to it, in milliseconds.
#[derive(Clone, Copy, Debug, PartialEq, Eq, Structural)]
pub struct NodeInfo {
    pub addr: NodeAddr,
    pub ping: u16,
}

/// The wire form of a node description: the address, then the ping,
/// big-endian.
pub open spec fn spec_node_info_bytes(info: NodeInfo) -> Seq<u8>
    recommends
        info.addr is V4,
{
    spec_addr_bytes(info.addr) + spec_be16(info.ping)
}

/// What reading a node description off `bytes` gives. The address is read
/// first: its failure is the failure, and no address means no description.
/// Then the ping: a failure where its two bytes are not both there. Else the
/// description spelled by the first eight bytes; what follows them is not
/// looked at.
pub open spec fn spec_node_info_from_bytes(bytes: Seq<u8>) -> Result<
    Option<NodeInfo>,
    ProtocolError,
> {
    match spec_addr_from_bytes(bytes) {
        Err(e) => Err(e),
        Ok(None) => Ok(None),
        Ok(Some(addr)) => if bytes.len() < 8 {
            Err(ProtocolError::NotEnoughBytes)
        } else {
            Ok(Some(NodeInfo { addr, ping: spec_from_be16(bytes[6], bytes[7]) }))
        },
    }
}

/// A node description read back from its own wire form is the same
/// description, whatever bytes follow it; but a description of the address
/// 0.0.0.0 reads back as no description.
pub proof fn lemma_node_info_round_trip(info: NodeInfo, rest: Seq<u8>)
    requires
        spec_addr_encodable(info.addr),
    ensures
        spec_node_info_bytes(info).len() == 8,
        spec_node_info_from_bytes(spec_node_info_bytes(info) + rest) == Ok::<
            Option<NodeInfo>,
            ProtocolError,
        >(if spec_addr_present(info.addr) {
            Some(info)
        } else {
            None
        }),
{
    let bytes = spec_node_info_bytes(info) + rest;
    lemma_addr_round_trip(info.addr, spec_be16(info.ping) + rest);
    lemma_be16_round_trip(info.ping);
    assert(bytes =~= spec_addr_bytes(info.addr) + (spec_be16(info.ping) + rest));
    assert(bytes[6] == spec_be16(info.ping)[0]);
    assert(bytes[7] == spec_be16(info.ping)[1]);
}

impl NodeInfo {
    /// Length of a node description on the wire.
    pub const BYTES: usize = 8;

    pub fn new(addr: NodeAddr, ping: u16) -> (r: Self)
        ensures
            r == (NodeInfo { addr, ping }),
    {
        NodeInfo { addr, ping }
    }

    /// The eight bytes that stand for this description on the wire. Fails on
    /// an IPv6 address and on nothing else.
    pub fn into_bytes(self) -> (r: Result<Vec<u8>, ProtocolError>)
        ensures
            match r {
                Ok(bytes) => spec_addr_encodable(self.addr) && bytes@ == spec_node_info_bytes(
                    self,
                ),
                Err(e) => !spec_addr_encodable(self.addr) && e == ProtocolError::Ipv6Unsupported,
            },
    {
        let addr = match socket_addr_to_bytes(self.addr) {
            Ok(a) => a,
            Err(e) => {
                return Err(e);
            },
        };
        let ping = be16_bytes(self.ping);
        let mut v: Vec<u8> = Vec::with_capacity(Self::BYTES);
        v.push(addr[0]);
        v.push(addr[1]);
        v.push(addr[2]);
        v.push(addr[3]);
        v.push(addr[4]);
        v.push(addr[5]);
        v.push(ping[0]);
        v.push(ping[1]);
        assert(v@ =~= spec_node_info_bytes(self));
        Ok(v)
    }

    /// Reads a description off the front of `bytes`.
    pub fn from_bytes(bytes: Vec<u8>) -> (r: Result<Option<Self>, ProtocolError>)
        ensures
            r == spec_node_info_from_bytes(bytes@),
    {
        let addr = match socket_addr_from_bytes(bytes.as_slice()) {
            Ok(Some(a)) => a,
            Ok(None) => {
                return Ok(None);
            },
            Err(e) => {
                return Err(e);
            },
        };
        if bytes.len() < Self::BYTES {
            return Err(ProtocolError::NotEnoughBytes);
        }
        let ping = be16_value(bytes[6], bytes[7]);
        Ok(Some(NodeInfo { addr, ping }))
    }
}

} // verus!
