//! The registry that a first node asks for a peer: a list of server
//! addresses, the answers of its two requests, and the rule by which a
//! listed server counts as alive.

use vstd::prelude::*;
use crate::addr::NodeAddr;
use crate::error::ProtocolError;
use crate::message::{MessageView, ProtocolMessage};
use crate::read_stream::spec_read_message_view;

verus! {

/// The request went well.
pub const STATUS_OK: u16 = 200;

/// The address is listed already.
pub const STATUS_BAD_REQUEST: u16 = 400;

/// The request does not spell an address.
pub const STATUS_UNPROCESSABLE_ENTITY: u16 = 422;

/// Seconds between two rounds of heartbeats.
pub const HEARTBEAT_INTERVAL: u64 = 600;

/// Seconds that a listed server has to answer a heartbeat.
pub const HEARTBEAT_TIMEOUT: u64 = 60;

/// The answer to a request: either data or an error.
#[derive(Debug, PartialEq, Eq)]
pub struct ApiResponse<Success, Error> {
    pub success: bool,
    pub data: Option<Success>,
    pub error: Option<Error>,
}

/// The registry: the servers listed, oldest first.
#[derive(Debug, PartialEq, Eq)]
pub struct AppState {
    pub servers: Vec<NodeAddr>,
}

/// The answer to a request for the list.
#[derive(Debug, PartialEq, Eq)]
pub struct GetListingsRes {
    pub count: usize,
    pub servers: Vec<NodeAddr>,
}

/// A request to list a server.
#[derive(Clone, Copy, Debug, PartialEq, Eq, Structural)]
pub struct CreateListingReq {
    pub server_addr: NodeAddr,
}

/// The answer to a request to list a server, which says nothing more than
/// that it went well.
#[derive(Clone, Copy, Debug, PartialEq, Eq, Structural)]
pub struct CreateListingRes {}

/// Why a server was not listed.
#[derive(Clone, Copy, Debug, PartialEq, Eq, Structural)]
pub enum ListingError {
    /// The request does not spell an address.
    Unparsable,
    /// The address is listed already.
    AlreadyCommitted,
}

/// No address is listed twice.
pub open spec fn spec_listing_wf(servers: Seq<NodeAddr>) -> bool {
    forall|i: int, j: int| 0 <= i < j < servers.len() ==> servers[i] != servers[j]
}

/// The list after a request to list a server, and the status of the answer:
/// 422 for a request that spells no address, 400 for an address that is
/// listed, else 200 and the address stands last in the list.
pub open spec fn spec_create_listing(servers: Seq<NodeAddr>, req: Option<CreateListingReq>) -> (
    Seq<NodeAddr>,
    u16,
) {
    match req {
        None => (servers, STATUS_UNPROCESSABLE_ENTITY),
        Some(req) => if servers.contains(req.server_addr) {
            (servers, STATUS_BAD_REQUEST)
        } else {
            (servers.push(req.server_addr), STATUS_OK)
        },
    }
}

/// The list without the servers in `dead`.
pub open spec fn spec_deregister(servers: Seq<NodeAddr>, dead: Seq<NodeAddr>) -> Seq<NodeAddr>
    decreases servers.len(),
{
    if servers.len() == 0 {
        Seq::empty()
    } else {
        let rest = spec_deregister(servers.drop_last(), dead);
        if dead.contains(servers.last()) {
            rest
        } else {
            rest.push(servers.last())
        }
    }
}

/// After a round of heartbeats a server is listed exactly if it was listed
/// and is not among the dead; a list free of doubles stays so.
pub proof fn lemma_deregister(servers: Seq<NodeAddr>, dead: Seq<NodeAddr>)
    ensures
        forall|a: NodeAddr|
            #[trigger] spec_deregister(servers, dead).contains(a) <==> servers.contains(a)
                && !dead.contains(a),
        spec_listing_wf(servers) ==> spec_listing_wf(spec_deregister(servers, dead)),
    decreases servers.len(),
{
    let after = spec_deregister(servers, dead);
    if servers.len() > 0 {
        let front = servers.drop_last();
        let rest = spec_deregister(front, dead);
        lemma_deregister(front, dead);
        assert forall|a: NodeAddr| #[trigger] after.contains(a) <==> servers.contains(a)
            && !dead.contains(a) by {
            if after.contains(a) {
                let i = choose|i: int| 0 <= i < after.len() && after[i] == a;
                if i < rest.len() {
                    assert(rest.contains(a));
                    let j = choose|j: int| 0 <= j < front.len() && front[j] == a;
                    assert(servers[j] == a);
                } else {
                    assert(servers[servers.len() - 1] == a);
                }
            }
            if servers.contains(a) && !dead.contains(a) {
                let j = choose|j: int| 0 <= j < servers.len() && servers[j] == a;
                if j < front.len() {
                    assert(front[j] == a);
                    assert(front.contains(a));
                    assert(rest.contains(a));
                    let i = choose|i: int| 0 <= i < rest.len() && rest[i] == a;
                    assert(after[i] == a);
                } else {
                    assert(after[rest.len() as int] == a);
                }
            }
        }
        if spec_listing_wf(servers) {
            assert(spec_listing_wf(front)) by {
                assert forall|i: int, j: int| 0 <= i < j < front.len() implies front[i]
                    != front[j] by {
                    assert(servers[i] != servers[j]);
                }
            }
            assert forall|i: int, j: int| 0 <= i < j < after.len() implies after[i]
                != after[j] by {
                if j == rest.len() {
                    assert(rest.contains(rest[i]));
                    assert(front.contains(rest[i]));
                    let k = choose|k: int| 0 <= k < front.len() && front[k] == rest[i];
                    assert(servers[k] != servers[servers.len() - 1]);
                }
            }
        }
    }
}

/// A listed server is alive when it answers the ping with a pong; anything
/// else, a failure and silence too, counts against it.
pub open spec fn spec_is_alive(
    response: Result<Option<(MessageView, nat)>, ProtocolError>,
) -> bool {
    response matches Ok(Some((MessageView::Pong(_), _)))
}

/// Listing keeps the list free of doubles, and what is listed once cannot
/// be listed again.
pub proof fn lemma_create_listing(servers: Seq<NodeAddr>, req: CreateListingReq)
    requires
        spec_listing_wf(servers),
    ensures
        spec_listing_wf(spec_create_listing(servers, Some(req)).0),
        spec_create_listing(servers, Some(req)).0.contains(req.server_addr),
        spec_create_listing(spec_create_listing(servers, Some(req)).0, Some(req)) == (
            spec_create_listing(servers, Some(req)).0,
            STATUS_BAD_REQUEST,
        ),
{
    let after = spec_create_listing(servers, Some(req)).0;
    if servers.contains(req.server_addr) {
    } else {
        assert(after[servers.len() as int] == req.server_addr);
        assert forall|i: int, j: int| 0 <= i < j < after.len() implies after[i] != after[j] by {
            if j == servers.len() {
                assert(servers.contains(servers[i]));
            }
        }
    }
}

/// Whether `addr` is among `list`.
pub fn contains_addr(list: &[NodeAddr], addr: NodeAddr) -> (r: bool)
    ensures
        r == list@.contains(addr),
{
    let mut i: usize = 0;
    while i < list.len()
        invariant
            i <= list@.len(),
            forall|j: int| 0 <= j < i ==> list@[j] != addr,
        decreases list@.len() - i,
    {
        if list[i] == addr {
            return true;
        }
        i = i + 1;
    }
    false
}

impl AppState {
    /// A registry that lists nothing.
    pub fn new() -> (r: Self)
        ensures
            r.servers@ == Seq::<NodeAddr>::empty(),
    {
        AppState { servers: Vec::new() }
    }

    /// Takes the servers in `dead` off the list.
    pub fn deregister(&mut self, dead: &[NodeAddr])
        ensures
            final(self).servers@ == spec_deregister(old(self).servers@, dead@),
            spec_listing_wf(old(self).servers@) ==> spec_listing_wf(final(self).servers@),
    {
        proof {
            lemma_deregister(old(self).servers@, dead@);
        }
        let mut kept: Vec<NodeAddr> = Vec::new();
        let mut i: usize = 0;
        assert(self.servers@.subrange(0, 0) =~= Seq::<NodeAddr>::empty());
        while i < self.servers.len()
            invariant
                i <= self.servers@.len(),
                self.servers@ == old(self).servers@,
                kept@ == spec_deregister(self.servers@.subrange(0, i as int), dead@),
            decreases self.servers@.len() - i,
        {
            let server = self.servers[i];
            assert(self.servers@.subrange(0, i + 1).drop_last() =~= self.servers@.subrange(
                0,
                i as int,
            ));
            if !contains_addr(dead, server) {
                kept.push(server);
            }
            i = i + 1;
        }
        assert(self.servers@.subrange(0, i as int) =~= self.servers@);
        self.servers = kept;
    }
}

/// Answers a request for the list.
pub fn get_listings(state: &AppState) -> (r: ApiResponse<GetListingsRes, ListingError>)
    ensures
        r.success,
        r.error is None,
        r.data matches Some(res) && res.count == state.servers@.len() && res.servers@
            == state.servers@,
{
    let mut servers: Vec<NodeAddr> = Vec::new();
    let mut i: usize = 0;
    while i < state.servers.len()
        invariant
            i <= state.servers@.len(),
            servers@ == state.servers@.subrange(0, i as int),
        decreases state.servers@.len() - i,
    {
        servers.push(state.servers[i]);
        i = i + 1;
        assert(servers@ =~= state.servers@.subrange(0, i as int));
    }
    assert(state.servers@.subrange(0, i as int) =~= state.servers@);
    ApiResponse {
        success: true,
        data: Some(GetListingsRes { count: state.servers.len(), servers }),
        error: None,
    }
}

/// Answers a request to list a server; `req` is nothing where the request
/// did not spell an address.
pub fn create_listing(state: &mut AppState, req: Option<CreateListingReq>) -> (r: (
    u16,
    ApiResponse<CreateListingRes, ListingError>,
))
    ensures
        (final(state).servers@, r.0) == spec_create_listing(old(state).servers@, req),
        r.1.success == (r.0 == STATUS_OK),
        r.1.data == if r.0 == STATUS_OK {
            Some(CreateListingRes {  })
        } else {
            None
        },
        r.1.error == if r.0 == STATUS_OK {
            None
        } else if r.0 == STATUS_BAD_REQUEST {
            Some(ListingError::AlreadyCommitted)
        } else {
            Some(ListingError::Unparsable)
        },
        spec_listing_wf(old(state).servers@) ==> spec_listing_wf(final(state).servers@),
{
    let req = match req {
        Some(req) => req,
        None => {
            return (
                STATUS_UNPROCESSABLE_ENTITY,
                ApiResponse { success: false, data: None, error: Some(ListingError::Unparsable) },
            );
        },
    };
    proof {
        if spec_listing_wf(state.servers@) {
            lemma_create_listing(state.servers@, req);
        }
    }
    if contains_addr(state.servers.as_slice(), req.server_addr) {
        return (
            STATUS_BAD_REQUEST,
            ApiResponse {
                success: false,
                data: None,
                error: Some(ListingError::AlreadyCommitted),
            },
        );
    }
    state.servers.push(req.server_addr);
    (STATUS_OK, ApiResponse { success: true, data: Some(CreateListingRes {  }), error: None })
}

/// Whether what came back on a heartbeat shows the server to be alive.
pub fn is_alive(response: &Result<Option<(ProtocolMessage, usize)>, ProtocolError>) -> (r: bool)
    ensures
        r == spec_is_alive(
            match *response {
                Ok(read) => Ok(spec_read_message_view(read)),
                Err(e) => Err(e),
            },
        ),
{
    match response {
        Ok(Some((ProtocolMessage::Pong(_), _))) => true,
        _ => false,
    }
}

} // verus!
