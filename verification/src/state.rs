//! The state that all connections of a node share: the peer table with one
//! mailbox per peer, the id generator, the table of broadcast ids seen, and
//! the queues on which the engine puts what it wants done outside.

use std::collections::HashMap;
use vstd::prelude::*;
use crate::addr::NodeAddr;
use crate::commands::ProtocolCommand;
use crate::package::{alert, spec_alert, AlertPackageLevel, AppPackage, Notice, PackageView};
use crate::prng::{Splitmix64, Xoshiro256ss};
use crate::stream::{PollView, RequestView, StreamPoll, StreamRequest};
use crate::triangle::Triangle;

verus! {

broadcast use vstd::std_specs::hash::group_hash_axioms;

/// How many peers a node aims to have at most, unless it is set up
/// otherwise.
pub const MAX_PEERS: usize = 4;

/// The longest round trip, in milliseconds, that a peer may take, unless
/// the node is set up otherwise.
pub const MAX_PING_MS: u16 = 60_000;

/// Seconds between two pings on a connection.
pub const PING_INTERVAL: u64 = 120;

/// What is known about the peer at the other end of a connection.
#[derive(Debug, PartialEq, Eq)]
pub struct StreamMetadata {
    /// The last round trip measured, in milliseconds; never above 60 000.
    pub ping: u16,
    /// When the ping that is still unanswered went out, in milliseconds on
    /// the caller's clock.
    pub ping_started_at: Option<u64>,
    /// The latency triangle that gives the peer's bearing, once one is known.
    pub topology: Option<Triangle>,
    /// The nodes that this peer and this node have told each other about.
    pub knows_about: Vec<NodeAddr>,
}

/// A connection as the peer table holds it.
#[derive(Debug, PartialEq, Eq)]
pub struct PeerConnection {
    pub addr: NodeAddr,
    /// What is still to be done on the socket, oldest first.
    pub mailbox: Vec<StreamRequest>,
    pub metadata: StreamMetadata,
}

/// A connection as a mathematical value.
pub struct PeerView {
    pub addr: NodeAddr,
    pub mailbox: Seq<RequestView>,
    pub ping: u16,
    pub ping_started_at: Option<u64>,
    pub topology: Option<Triangle>,
    pub knows_about: Seq<NodeAddr>,
}

impl View for PeerConnection {
    type V = PeerView;

    open spec fn view(&self) -> PeerView {
        PeerView {
            addr: self.addr,
            mailbox: self.mailbox.deep_view(),
            ping: self.metadata.ping,
            ping_started_at: self.metadata.ping_started_at,
            topology: self.metadata.topology,
            knows_about: self.metadata.knows_about@,
        }
    }
}

impl DeepView for PeerConnection {
    type V = PeerView;

    open spec fn deep_view(&self) -> PeerView {
        self@
    }
}

/// A broadcast id that is to leave the table of ids seen, and after how
/// many milliseconds.
#[derive(Clone, Copy, Debug, PartialEq, Eq, Structural)]
pub struct DedupExpiry {
    pub id: u64,
    pub after_ms: u64,
}

/// The limits that a node keeps to.
#[derive(Clone, Copy, Debug, PartialEq, Eq, Structural)]
pub struct ProtocolConfig {
    /// How many peers the node aims to have at most.
    pub max_peers: usize,
    /// The longest round trip, in milliseconds, that a peer may take. It
    /// bounds the time that opening a connection may take as well.
    pub max_ping_ms: u16,
}

/// Four peers, and sixty seconds for a round trip.
pub open spec fn spec_default_config() -> ProtocolConfig {
    ProtocolConfig { max_peers: MAX_PEERS, max_ping_ms: MAX_PING_MS }
}

impl Default for ProtocolConfig {
    fn default() -> (r: Self)
        ensures
            r == spec_default_config(),
    {
        ProtocolConfig { max_peers: MAX_PEERS, max_ping_ms: MAX_PING_MS }
    }
}

/// The part of the shared state that never changes.
#[derive(Clone, Copy, Debug, PartialEq, Eq, Structural)]
pub struct ProtocolStateInnerRead {
    /// The address of this node's own server socket.
    pub server_addr: NodeAddr,
    /// The limits that this node keeps to.
    pub config: ProtocolConfig,
}

/// The shared state of a node.
#[derive(Debug)]
pub struct ProtocolState {
    pub r: ProtocolStateInnerRead,
    /// The peer table, in the order in which the peers came.
    pub streams: Vec<PeerConnection>,
    /// The id generator.
    pub state: Xoshiro256ss,
    /// The broadcast ids seen and not yet forgotten.
    pub data_id_states: HashMap<u64, ()>,
    /// Commands that wait for whoever opens and closes connections.
    pub commands: Vec<ProtocolCommand>,
    /// Packages that wait for the application.
    pub packages: Vec<AppPackage>,
    /// Ids that wait to be forgotten after a delay.
    pub expiries: Vec<DedupExpiry>,
}

/// The shared state as a mathematical value.
pub struct StateView {
    pub server_addr: NodeAddr,
    pub config: ProtocolConfig,
    pub peers: Seq<PeerView>,
    pub rng: Xoshiro256ss,
    pub seen: Set<u64>,
    pub commands: Seq<ProtocolCommand>,
    pub packages: Seq<PackageView>,
    pub expiries: Seq<DedupExpiry>,
}

impl View for ProtocolState {
    type V = StateView;

    open spec fn view(&self) -> StateView {
        StateView {
            server_addr: self.r.server_addr,
            config: self.r.config,
            peers: self.streams.deep_view(),
            rng: self.state,
            seen: self.data_id_states@.dom(),
            commands: self.commands@,
            packages: self.packages.deep_view(),
            expiries: self.expiries@,
        }
    }
}

/// The first position at or after `from` of a peer with this address.
pub open spec fn spec_find_from(peers: Seq<PeerView>, addr: NodeAddr, from: int) -> Option<int>
    decreases peers.len() - from,
{
    if from < 0 || from >= peers.len() {
        None
    } else if peers[from].addr == addr {
        Some(from)
    } else {
        spec_find_from(peers, addr, from + 1)
    }
}

/// The position of the peer with this address.
pub open spec fn spec_find(peers: Seq<PeerView>, addr: NodeAddr) -> Option<int> {
    spec_find_from(peers, addr, 0)
}

/// Whether some peer has this address.
pub open spec fn spec_has_peer(peers: Seq<PeerView>, addr: NodeAddr) -> bool {
    exists|i: int| 0 <= i < peers.len() && (#[trigger] peers[i]).addr == addr
}

/// The first position at or after `from` of a peer with another address.
pub open spec fn spec_find_other_from(peers: Seq<PeerView>, addr: NodeAddr, from: int) -> Option<
    int,
>
    decreases peers.len() - from,
{
    if from < 0 || from >= peers.len() {
        None
    } else if peers[from].addr != addr {
        Some(from)
    } else {
        spec_find_other_from(peers, addr, from + 1)
    }
}

/// The position of the first peer whose address is not this one.
pub open spec fn spec_find_other(peers: Seq<PeerView>, addr: NodeAddr) -> Option<int> {
    spec_find_other_from(peers, addr, 0)
}

/// Among the first `n` peers: the largest ping, and the position of the
/// first peer that has it, provided it is above zero.
pub open spec fn spec_worst_upto(peers: Seq<PeerView>, n: int) -> (u16, Option<int>)
    decreases n,
{
    if n <= 0 {
        (0, None)
    } else {
        let (biggest, worst) = spec_worst_upto(peers, n - 1);
        if peers[n - 1].ping > biggest {
            (peers[n - 1].ping, Some(n - 1))
        } else {
            (biggest, worst)
        }
    }
}

/// The position of the peer with the highest ping: the first of them where
/// several have it, none where no ping is above zero.
pub open spec fn spec_worst(peers: Seq<PeerView>) -> Option<int> {
    spec_worst_upto(peers, peers.len() as int).1
}

/// The highest ping in the table, zero for an empty table.
pub open spec fn spec_max_ping(peers: Seq<PeerView>) -> u16 {
    spec_worst_upto(peers, peers.len() as int).0
}

/// The table without the peer at this address.
pub open spec fn spec_remove(peers: Seq<PeerView>, addr: NodeAddr) -> Seq<PeerView> {
    match spec_find(peers, addr) {
        Some(i) => peers.remove(i),
        None => peers,
    }
}

/// The table with `peer` in it: it takes the place of a peer at the same
/// address and stands last.
pub open spec fn spec_insert(peers: Seq<PeerView>, peer: PeerView) -> Seq<PeerView> {
    spec_remove(peers, peer.addr).push(peer)
}

/// A peer with one more request at the end of its mailbox.
pub open spec fn spec_with_request(peer: PeerView, request: RequestView) -> PeerView {
    PeerView { mailbox: peer.mailbox.push(request), ..peer }
}

/// The table with one more request in the mailbox of the peer at `i`.
pub open spec fn spec_enqueue(peers: Seq<PeerView>, i: int, request: RequestView) -> Seq<
    PeerView,
> {
    peers.update(i, spec_with_request(peers[i], request))
}

/// The table with one more request in every mailbox but that of the peer at
/// address `except`.
pub open spec fn spec_enqueue_others(
    peers: Seq<PeerView>,
    except: Option<NodeAddr>,
    request: RequestView,
) -> Seq<PeerView> {
    Seq::new(
        peers.len(),
        |i: int|
            if except == Some(peers[i].addr) {
                peers[i]
            } else {
                spec_with_request(peers[i], request)
            },
    )
}

/// No two peers have the same address, and no stored ping is above the
/// longest that is tolerated.
pub open spec fn spec_table_wf(peers: Seq<PeerView>, max_ping: u16) -> bool {
    &&& forall|i: int, j: int|
        0 <= i < j < peers.len() ==> (#[trigger] peers[i]).addr != (#[trigger] peers[j]).addr
    &&& forall|i: int| 0 <= i < peers.len() ==> (#[trigger] peers[i]).ping <= max_ping
}

impl StateView {
    /// The state is well formed when its peer table is.
    pub open spec fn wf(self) -> bool {
        spec_table_wf(self.peers, self.config.max_ping_ms)
    }
}

/// The state of a node that has just started: its own address, its limits,
/// a generator seeded through splitmix64, and nothing else.
pub open spec fn spec_new_state(server_addr: NodeAddr, seed: u64, config: ProtocolConfig)
    -> StateView {
    StateView {
        server_addr,
        config,
        peers: Seq::empty(),
        rng: (Splitmix64 { state: seed }).spec_expand(),
        seen: Set::empty(),
        commands: Seq::empty(),
        packages: Seq::empty(),
        expiries: Seq::empty(),
    }
}

/// What `spec_find_from` finds is the first peer at the address from `from`
/// on; it finds none exactly where there is none.
pub proof fn lemma_find_from(peers: Seq<PeerView>, addr: NodeAddr, from: int)
    requires
        0 <= from,
    ensures
        match spec_find_from(peers, addr, from) {
            Some(i) => from <= i < peers.len() && peers[i].addr == addr && forall|j: int|
                from <= j < i ==> (#[trigger] peers[j]).addr != addr,
            None => forall|j: int| from <= j < peers.len() ==> (#[trigger] peers[j]).addr != addr,
        },
    decreases peers.len() - from,
{
    if from < peers.len() && peers[from].addr != addr {
        lemma_find_from(peers, addr, from + 1);
    }
}

/// `spec_find` finds a peer exactly where the table has one at the address,
/// and in a well-formed table it finds the only one.
pub proof fn lemma_find(peers: Seq<PeerView>, addr: NodeAddr)
    ensures
        spec_find(peers, addr) is Some <==> spec_has_peer(peers, addr),
        spec_find(peers, addr) matches Some(i) ==> 0 <= i < peers.len() && peers[i].addr == addr,
        (forall|i: int, j: int|
            0 <= i < j < peers.len() ==> (#[trigger] peers[i]).addr != (#[trigger] peers[j]).addr)
            ==> forall|j: int|
            0 <= j < peers.len() && (#[trigger] peers[j]).addr == addr ==> spec_find(peers, addr)
                == Some(j),
{
    lemma_find_from(peers, addr, 0);
}

/// What `spec_find_other_from` finds is the first peer at another address
/// from `from` on.
pub proof fn lemma_find_other_from(peers: Seq<PeerView>, addr: NodeAddr, from: int)
    requires
        0 <= from,
    ensures
        match spec_find_other_from(peers, addr, from) {
            Some(i) => from <= i < peers.len() && peers[i].addr != addr && forall|j: int|
                from <= j < i ==> (#[trigger] peers[j]).addr == addr,
            None => forall|j: int| from <= j < peers.len() ==> (#[trigger] peers[j]).addr == addr,
        },
    decreases peers.len() - from,
{
    if from < peers.len() && peers[from].addr == addr {
        lemma_find_other_from(peers, addr, from + 1);
    }
}

/// The worst peer is the first one with the highest ping of the table, and
/// there is none exactly where every ping is zero.
pub proof fn lemma_worst(peers: Seq<PeerView>, n: int)
    requires
        0 <= n <= peers.len(),
    ensures
        forall|j: int| 0 <= j < n ==> (#[trigger] peers[j]).ping <= spec_worst_upto(peers, n).0,
        match spec_worst_upto(peers, n).1 {
            Some(w) => 0 <= w < n && peers[w].ping == spec_worst_upto(peers, n).0 && peers[w].ping
                > 0 && forall|j: int| 0 <= j < w ==> (#[trigger] peers[j]).ping < peers[w].ping,
            None => spec_worst_upto(peers, n).0 == 0,
        },
    decreases n,
{
    if n > 0 {
        lemma_worst(peers, n - 1);
    }
}

/// Taking a peer out of a well-formed table leaves a well-formed table that
/// has no peer at that address.
pub proof fn lemma_remove_wf(peers: Seq<PeerView>, addr: NodeAddr, max_ping: u16)
    requires
        spec_table_wf(peers, max_ping),
    ensures
        spec_table_wf(spec_remove(peers, addr), max_ping),
        !spec_has_peer(spec_remove(peers, addr), addr),
        forall|other: NodeAddr|
            other != addr ==> (spec_has_peer(spec_remove(peers, addr), other) <==> spec_has_peer(
                peers,
                other,
            )),
{
    lemma_find(peers, addr);
    let rest = spec_remove(peers, addr);
    match spec_find(peers, addr) {
        Some(i) => {
            assert forall|j: int| 0 <= j < rest.len() implies (#[trigger] rest[j]).addr
                != addr by {
                if j < i {
                    assert(rest[j] == peers[j]);
                } else {
                    assert(rest[j] == peers[j + 1]);
                }
            }
            assert forall|other: NodeAddr| other != addr implies (spec_has_peer(rest, other)
                <==> spec_has_peer(peers, other)) by {
                if spec_has_peer(rest, other) {
                    let j = choose|j: int| 0 <= j < rest.len() && (#[trigger] rest[j]).addr
                        == other;
                    if j < i {
                        assert(peers[j].addr == other);
                    } else {
                        assert(peers[j + 1].addr == other);
                    }
                }
                if spec_has_peer(peers, other) {
                    let j = choose|j: int| 0 <= j < peers.len() && (#[trigger] peers[j]).addr
                        == other;
                    if j < i {
                        assert(rest[j].addr == other);
                    } else {
                        assert(rest[j - 1].addr == other);
                    }
                }
            }
        },
        None => {},
    }
}

/// Putting a peer with a tolerable ping into a well-formed table leaves a
/// well-formed table.
pub proof fn lemma_insert_wf(peers: Seq<PeerView>, peer: PeerView, max_ping: u16)
    requires
        spec_table_wf(peers, max_ping),
        peer.ping <= max_ping,
    ensures
        spec_table_wf(spec_insert(peers, peer), max_ping),
        spec_has_peer(spec_insert(peers, peer), peer.addr),
{
    lemma_remove_wf(peers, peer.addr, max_ping);
    let rest = spec_remove(peers, peer.addr);
    let table = spec_insert(peers, peer);
    assert(table[rest.len() as int].addr == peer.addr);
    assert forall|i: int, j: int| 0 <= i < j < table.len() implies (#[trigger] table[i]).addr != (
    #[trigger] table[j]).addr by {
        if j == rest.len() {
            assert(rest[i].addr != peer.addr);
        }
    }
}

/// A request in a mailbox changes neither addresses nor pings.
pub proof fn lemma_enqueue_wf(s: StateView, i: int, request: RequestView)
    requires
        s.wf(),
        0 <= i < s.peers.len(),
    ensures
        spec_table_wf(spec_enqueue(s.peers, i, request), s.config.max_ping_ms),
{
    let after = spec_enqueue(s.peers, i, request);
    assert forall|a: int, b: int| 0 <= a < b < after.len() implies (#[trigger] after[a]).addr != (
    #[trigger] after[b]).addr by {
        assert(s.peers[a].addr != s.peers[b].addr);
    }
}

/// Requests in several mailboxes change neither addresses nor pings.
pub proof fn lemma_enqueue_others_wf(s: StateView, except: Option<NodeAddr>, request: RequestView)
    requires
        s.wf(),
    ensures
        spec_table_wf(spec_enqueue_others(s.peers, except, request), s.config.max_ping_ms),
{
    let after = spec_enqueue_others(s.peers, except, request);
    assert forall|a: int, b: int| 0 <= a < b < after.len() implies (#[trigger] after[a]).addr != (
    #[trigger] after[b]).addr by {
        assert(s.peers[a].addr != s.peers[b].addr);
    }
}

impl StreamMetadata {
    /// What is known about a peer before anything was measured.
    pub fn new() -> (r: Self)
        ensures
            r.ping == 0,
            r.ping_started_at is None,
            r.topology is None,
            r.knows_about@ == Seq::<NodeAddr>::empty(),
    {
        StreamMetadata {
            ping: 0,
            ping_started_at: None,
            topology: None,
            knows_about: Vec::new(),
        }
    }
}

impl ProtocolState {
    /// The state is well formed when its peer table is.
    pub open spec fn wf(&self) -> bool {
        self@.wf()
    }

    /// The state of a node that has just started, with the usual limits.
    pub fn new(server_addr: NodeAddr, seed: u64) -> (r: Self)
        ensures
            r@ == spec_new_state(server_addr, seed, spec_default_config()),
            r.wf(),
    {
        ProtocolState::with_config(
            server_addr,
            seed,
            ProtocolConfig { max_peers: MAX_PEERS, max_ping_ms: MAX_PING_MS },
        )
    }

    /// The state of a node that has just started, with limits of its own.
    pub fn with_config(server_addr: NodeAddr, seed: u64, config: ProtocolConfig) -> (r: Self)
        ensures
            r@ == spec_new_state(server_addr, seed, config),
            r.wf(),
    {
        let r = ProtocolState {
            r: ProtocolStateInnerRead { server_addr, config },
            streams: Vec::new(),
            state: Splitmix64::new(seed).xorshift256ss(),
            data_id_states: HashMap::new(),
            commands: Vec::new(),
            packages: Vec::new(),
            expiries: Vec::new(),
        };
        assert(r@.peers =~= Seq::empty());
        assert(r@.packages =~= Seq::empty());
        assert(r@.seen =~= Set::empty());
        r
    }

    /// The part of the state that never changes.
    pub fn read(&self) -> (r: &ProtocolStateInnerRead)
        ensures
            r.server_addr == self@.server_addr,
            r.config == self@.config,
    {
        &self.r
    }

    /// Where in the table the peer at `addr` stands.
    pub fn find_peer(&self, addr: NodeAddr) -> (r: Option<usize>)
        ensures
            match r {
                Some(i) => spec_find(self@.peers, addr) == Some(i as int) && i
                    < self.streams@.len(),
                None => spec_find(self@.peers, addr) is None,
            },
    {
        let mut i: usize = 0;
        while i < self.streams.len()
            invariant
                i <= self.streams@.len(),
                spec_find(self@.peers, addr) == spec_find_from(self@.peers, addr, i as int),
            decreases self.streams@.len() - i,
        {
            if self.streams[i].addr == addr {
                return Some(i);
            }
            i = i + 1;
        }
        None
    }

    /// Where in the table the first peer at another address than `addr`
    /// stands.
    pub fn find_other_peer(&self, addr: NodeAddr) -> (r: Option<usize>)
        ensures
            match r {
                Some(i) => spec_find_other(self@.peers, addr) == Some(i as int) && i
                    < self.streams@.len(),
                None => spec_find_other(self@.peers, addr) is None,
            },
    {
        let mut i: usize = 0;
        while i < self.streams.len()
            invariant
                i <= self.streams@.len(),
                spec_find_other(self@.peers, addr) == spec_find_other_from(
                    self@.peers,
                    addr,
                    i as int,
                ),
            decreases self.streams@.len() - i,
        {
            if self.streams[i].addr != addr {
                return Some(i);
            }
            i = i + 1;
        }
        None
    }

    /// The highest ping in the table, and where the first peer that has it
    /// stands if it is above zero.
    pub fn worst_peer(&self) -> (r: (u16, Option<usize>))
        ensures
            r.0 == spec_max_ping(self@.peers),
            match r.1 {
                Some(i) => spec_worst(self@.peers) == Some(i as int) && i < self.streams@.len(),
                None => spec_worst(self@.peers) is None,
            },
    {
        let mut biggest_ping: u16 = 0;
        let mut worst_node: Option<usize> = None;
        let mut i: usize = 0;
        while i < self.streams.len()
            invariant
                i <= self.streams@.len(),
                biggest_ping == spec_worst_upto(self@.peers, i as int).0,
                match worst_node {
                    Some(w) => spec_worst_upto(self@.peers, i as int).1 == Some(w as int) && w < i,
                    None => spec_worst_upto(self@.peers, i as int).1 is None,
                },
            decreases self.streams@.len() - i,
        {
            if self.streams[i].metadata.ping > biggest_ping {
                biggest_ping = self.streams[i].metadata.ping;
                worst_node = Some(i);
            }
            i = i + 1;
        }
        (biggest_ping, worst_node)
    }
}

/// Taking a request out of a mailbox changes neither addresses nor pings.
pub proof fn lemma_next_request_wf(s: StateView, addr: NodeAddr)
    requires
        s.wf(),
    ensures
        spec_next_request(s, addr).0.wf(),
{
    lemma_find(s.peers, addr);
    let after = spec_next_request(s, addr).0.peers;
    assert(after.len() == s.peers.len());
    assert forall|a: int, b: int| 0 <= a < b < after.len() implies (#[trigger] after[a]).addr != (
    #[trigger] after[b]).addr by {
        assert(s.peers[a].addr != s.peers[b].addr);
    }
}

/// Appends a request to a mailbox.
pub fn push_request(mailbox: &mut Vec<StreamRequest>, request: StreamRequest)
    ensures
        final(mailbox).deep_view() == old(mailbox).deep_view().push(request@),
{
    mailbox.push(request);
    assert(mailbox.deep_view() =~= old(mailbox).deep_view().push(request@));
}

/// Whether `except` names `addr`.
pub fn is_excepted(except: Option<NodeAddr>, addr: NodeAddr) -> (r: bool)
    ensures
        r == (except == Some(addr)),
{
    match except {
        Some(a) => a == addr,
        None => false,
    }
}

impl ProtocolState {
    /// Puts a package on the queue for the application.
    pub fn emit(&mut self, package: AppPackage)
        ensures
            final(self)@ == (StateView {
                packages: old(self)@.packages.push(package@),
                ..old(self)@
            }),
    {
        self.packages.push(package);
        assert(self.packages.deep_view() =~= old(self).packages.deep_view().push(package@));
    }

    /// Puts an alert on the queue for the application.
    pub fn alert(&mut self, level: AlertPackageLevel, msg: Notice)
        ensures
            final(self)@ == (StateView {
                packages: old(self)@.packages.push(spec_alert(level, msg)),
                ..old(self)@
            }),
    {
        self.emit(alert(level, msg));
    }

    /// Puts a command on the queue for whoever opens and closes connections.
    pub fn command(&mut self, command: ProtocolCommand)
        ensures
            final(self)@ == (StateView {
                commands: old(self)@.commands.push(command),
                ..old(self)@
            }),
    {
        self.commands.push(command);
    }

    /// Puts an id on the queue of ids that are to be forgotten.
    pub fn schedule(&mut self, expiry: DedupExpiry)
        ensures
            final(self)@ == (StateView {
                expiries: old(self)@.expiries.push(expiry),
                ..old(self)@
            }),
    {
        self.expiries.push(expiry);
    }

    /// Draws `n` numbers from the id generator and drops them.
    pub fn advance(&mut self, n: usize)
        ensures
            final(self)@ == (StateView {
                rng: old(self)@.rng.spec_advance(n as nat),
                ..old(self)@
            }),
    {
        self.state.advance(n);
    }

    /// Appends a request to the mailbox of the peer at position `i`.
    pub fn enqueue(&mut self, i: usize, request: StreamRequest)
        requires
            i < old(self)@.peers.len(),
        ensures
            final(self)@ == (StateView {
                peers: spec_enqueue(old(self)@.peers, i as int, request@),
                ..old(self)@
            }),
            old(self).wf() ==> final(self).wf(),
    {
        proof {
            if old(self).wf() {
                lemma_enqueue_wf(old(self)@, i as int, request@);
            }
        }
        push_request(&mut self.streams[i].mailbox, request);
        assert(self@.peers =~= spec_enqueue(old(self)@.peers, i as int, request@));
    }

    /// Appends a copy of a request to every mailbox but that of the peer at
    /// address `except`.
    pub fn enqueue_others(&mut self, except: Option<NodeAddr>, request: &StreamRequest)
        ensures
            final(self)@ == (StateView {
                peers: spec_enqueue_others(old(self)@.peers, except, request@),
                ..old(self)@
            }),
            old(self).wf() ==> final(self).wf(),
    {
        proof {
            if old(self).wf() {
                lemma_enqueue_others_wf(old(self)@, except, request@);
            }
        }
        let ghost before = old(self)@;
        let mut i: usize = 0;
        while i < self.streams.len()
            invariant
                i <= self.streams@.len(),
                self@.peers.len() == before.peers.len(),
                self@ == (StateView { peers: self@.peers, ..before }),
                forall|j: int|
                    0 <= j < i ==> (#[trigger] self@.peers[j]) == spec_enqueue_others(
                        before.peers,
                        except,
                        request@,
                    )[j],
                forall|j: int|
                    i <= j < self@.peers.len() ==> (#[trigger] self@.peers[j]) == before.peers[j],
            decreases self.streams@.len() - i,
        {
            let ghost at_entry = self@;
            if !is_excepted(except, self.streams[i].addr) {
                self.enqueue(i, request.clone());
            }
            assert(self.streams@.len() == self.streams.deep_view().len());
            assert(self@.peers[i as int] == spec_enqueue_others(
                before.peers,
                except,
                request@,
            )[i as int]);
            assert forall|j: int| 0 <= j < i implies (#[trigger] self@.peers[j])
                == spec_enqueue_others(before.peers, except, request@)[j] by {
                assert(self@.peers[j] == at_entry.peers[j]);
            }
            i = i + 1;
        }
        assert(self@.peers =~= spec_enqueue_others(before.peers, except, request@));
    }

    /// Takes the peer at `addr` out of the table.
    pub fn remove_peer(&mut self, addr: NodeAddr)
        ensures
            final(self)@ == (StateView {
                peers: spec_remove(old(self)@.peers, addr),
                ..old(self)@
            }),
            old(self).wf() ==> final(self).wf(),
    {
        proof {
            if old(self).wf() {
                lemma_remove_wf(old(self)@.peers, addr, old(self)@.config.max_ping_ms);
            }
        }
        match self.find_peer(addr) {
            Some(i) => {
                let _ = self.streams.remove(i);
                assert(self@.peers =~= spec_remove(old(self)@.peers, addr));
            },
            None => {},
        }
    }

    /// Puts a peer into the table, in place of a peer at the same address.
    /// The table stays well formed if the peer's ping is one that is
    /// tolerated.
    pub fn insert_peer(&mut self, peer: PeerConnection)
        ensures
            final(self)@ == (StateView {
                peers: spec_insert(old(self)@.peers, peer@),
                ..old(self)@
            }),
            old(self).wf() && peer.metadata.ping <= old(self)@.config.max_ping_ms
                ==> final(self).wf(),
    {
        proof {
            if old(self).wf() && peer.metadata.ping <= old(self)@.config.max_ping_ms {
                lemma_insert_wf(old(self)@.peers, peer@, old(self)@.config.max_ping_ms);
            }
        }
        self.remove_peer(peer.addr);
        let ghost rest = self@.peers;
        self.streams.push(peer);
        assert(self@.peers =~= rest.push(peer@));
    }

    /// Takes the oldest command off its queue.
    pub fn next_command(&mut self) -> (r: Option<ProtocolCommand>)
        ensures
            match r {
                Some(c) => old(self)@.commands.len() > 0 && c == old(self)@.commands[0]
                    && final(self)@ == (StateView {
                    commands: old(self)@.commands.remove(0),
                    ..old(self)@
                }),
                None => old(self)@.commands.len() == 0 && final(self)@ == old(self)@,
            },
    {
        if self.commands.len() == 0 {
            None
        } else {
            Some(self.commands.remove(0))
        }
    }

    /// Takes the oldest package off its queue.
    pub fn next_package(&mut self) -> (r: Option<AppPackage>)
        ensures
            match r {
                Some(p) => old(self)@.packages.len() > 0 && p@ == old(self)@.packages[0]
                    && final(self)@ == (StateView {
                    packages: old(self)@.packages.remove(0),
                    ..old(self)@
                }),
                None => old(self)@.packages.len() == 0 && final(self)@ == old(self)@,
            },
    {
        if self.packages.len() == 0 {
            None
        } else {
            let p = self.packages.remove(0);
            assert(self.packages.deep_view() =~= old(self).packages.deep_view().remove(0));
            Some(p)
        }
    }

    /// Takes the oldest id that is to be forgotten off its queue.
    pub fn next_expiry(&mut self) -> (r: Option<DedupExpiry>)
        ensures
            match r {
                Some(e) => old(self)@.expiries.len() > 0 && e == old(self)@.expiries[0]
                    && final(self)@ == (StateView {
                    expiries: old(self)@.expiries.remove(0),
                    ..old(self)@
                }),
                None => old(self)@.expiries.len() == 0 && final(self)@ == old(self)@,
            },
    {
        if self.expiries.len() == 0 {
            None
        } else {
            Some(self.expiries.remove(0))
        }
    }

    /// Whether a broadcast id is in the table of ids seen.
    pub fn has_seen(&self, id: u64) -> (r: bool)
        ensures
            r == self@.seen.contains(id),
    {
        self.data_id_states.contains_key(&id)
    }

    /// Puts a broadcast id into the table of ids seen.
    pub fn remember(&mut self, id: u64)
        ensures
            final(self)@ == (StateView { seen: old(self)@.seen.insert(id), ..old(self)@ }),
    {
        let _ = self.data_id_states.insert(id, ());
        assert(self@.seen =~= old(self)@.seen.insert(id));
    }

    /// Takes a broadcast id out of the table of ids seen, so that a message
    /// under it is taken for new again.
    pub fn forget(&mut self, id: u64)
        ensures
            final(self)@ == (StateView { seen: old(self)@.seen.remove(id), ..old(self)@ }),
    {
        let _ = self.data_id_states.remove(&id);
        assert(self@.seen =~= old(self)@.seen.remove(id));
    }
}

/// What looking into the mailbox at `addr` finds and leaves: the oldest
/// request leaves the mailbox.
pub open spec fn spec_next_request(s: StateView, addr: NodeAddr) -> (StateView, PollView) {
    match spec_find(s.peers, addr) {
        None => (s, PollView::Closed),
        Some(i) => if s.peers[i].mailbox.len() == 0 {
            (s, PollView::Empty)
        } else {
            (
                StateView {
                    peers: s.peers.update(
                        i,
                        PeerView { mailbox: s.peers[i].mailbox.remove(0), ..s.peers[i] },
                    ),
                    ..s
                },
                PollView::Request(s.peers[i].mailbox[0]),
            )
        },
    }
}

impl ProtocolState {
    /// Takes the oldest request out of the mailbox of the peer at `addr`.
    pub fn next_request(&mut self, addr: NodeAddr) -> (r: StreamPoll)
        ensures
            (final(self)@, r@) == spec_next_request(old(self)@, addr),
            old(self).wf() ==> final(self).wf(),
    {
        proof {
            if old(self).wf() {
                lemma_next_request_wf(old(self)@, addr);
            }
        }
        match self.find_peer(addr) {
            None => StreamPoll::Closed,
            Some(i) => {
                if self.streams[i].mailbox.len() == 0 {
                    assert(self@.peers[i as int].mailbox.len() == 0);
                    StreamPoll::Empty
                } else {
                    let ghost mailbox = self.streams@[i as int].mailbox.deep_view();
                    let request = self.streams[i].mailbox.remove(0);
                    assert(self.streams@[i as int].mailbox.deep_view() =~= mailbox.remove(0));
                    assert(request@ == mailbox[0]);
                    assert(self@.peers =~= spec_next_request(old(self)@, addr).0.peers);
                    StreamPoll::Request(request)
                }
            },
        }
    }
}


} // verus!
