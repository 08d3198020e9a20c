//! The ping timer of a connection, and what a node does when it is due.

use vstd::prelude::*;
use crate::addr::NodeAddr;
use crate::error::ProtocolError;
use crate::message::{MessageView, ProtocolMessage};
use crate::package::{spec_alert, AlertPackageLevel, Notice};
use crate::read_stream::spec_action_view;
use crate::state::{lemma_find, spec_find, PeerView, ProtocolState, StateView, PING_INTERVAL};
use crate::stream::{ActionView, StreamAction};

verus! {

/// The ping timer of one connection: when the next ping is due, in
/// milliseconds on the caller's clock. The connection waits for the timer
/// along with its mailbox and its socket.
#[derive(Clone, Copy, Debug, PartialEq, Eq, Structural)]
pub struct PingClock {
    pub due_at: u64,
}

/// When the timer that was set at `set_at` is due.
pub open spec fn spec_ping_due(set_at: PingClock) -> u64 {
    set_at.due_at
}

/// The timer as it is set when the connection stands: pinging starts at
/// once.
pub open spec fn spec_ping_armed(now: u64) -> PingClock {
    PingClock { due_at: now }
}

/// The timer as it is set again when it has been handled at time `now`: one
/// ping interval later, and never if that is beyond the clock.
pub open spec fn spec_ping_rearmed(now: u64) -> PingClock {
    PingClock {
        due_at: if now + 1000 * PING_INTERVAL > u64::MAX {
            u64::MAX
        } else {
            (now + 1000 * PING_INTERVAL) as u64
        },
    }
}

impl PingClock {
    /// The timer of a connection that stands since `now`.
    pub fn new(now: u64) -> (r: Self)
        ensures
            r == spec_ping_armed(now),
    {
        PingClock { due_at: now }
    }

    /// Whether the timer is due at time `now`.
    pub fn is_due(&self, now: u64) -> (r: bool)
        ensures
            r == (now >= self.due_at),
    {
        now >= self.due_at
    }

    /// For how many milliseconds from `now` there is to wait for the timer.
    pub fn wait_ms(&self, now: u64) -> (r: u64)
        ensures
            r == if now >= self.due_at {
                0
            } else {
                self.due_at - now
            },
    {
        if now >= self.due_at {
            0
        } else {
            self.due_at - now
        }
    }

    /// Sets the timer again after it has been handled at time `now`.
    pub fn rearm(&mut self, now: u64)
        ensures
            *final(self) == spec_ping_rearmed(now),
    {
        self.due_at = now.saturating_add(1000 * PING_INTERVAL);
    }
}

/// The ping interval of the connection to the peer at `addr` is over, at
/// time `now`. A peer that still owes the pong to the last ping is
/// disconnected, with a warning. Else a ping goes out and `now` is when it
/// went.
pub open spec fn spec_ping_action(s: StateView, addr: NodeAddr, now: u64) -> (
    StateView,
    Result<ActionView, ProtocolError>,
) {
    match spec_find(s.peers, addr) {
        None => (s, Err(ProtocolError::UnknownPeer)),
        Some(i) => if s.peers[i].ping_started_at is Some {
            (
                StateView {
                    packages: s.packages.push(
                        spec_alert(AlertPackageLevel::WARNING, Notice::PingUnanswered { addr }),
                    ),
                    ..s
                },
                Ok(ActionView::InitiateDisconnect),
            )
        } else {
            (
                StateView {
                    peers: s.peers.update(
                        i,
                        PeerView { ping_started_at: Some(now), ..s.peers[i] },
                    ),
                    packages: s.packages.push(
                        spec_alert(AlertPackageLevel::DEBUG, Notice::SendingPing),
                    ),
                    ..s
                },
                Ok(ActionView::Send(MessageView::Ping)),
            )
        },
    }
}

/// A ping timer leaves a well-formed state well formed.
pub proof fn lemma_ping_action_wf(s: StateView, addr: NodeAddr, now: u64)
    requires
        s.wf(),
    ensures
        spec_ping_action(s, addr, now).0.wf(),
        spec_ping_action(s, addr, now).0.config == s.config,
{
    lemma_find(s.peers, addr);
    let after = spec_ping_action(s, addr, now).0;
    assert(after.peers.len() == s.peers.len());
    assert forall|i: int| 0 <= i < after.peers.len() implies (#[trigger] after.peers[i]).addr
        == s.peers[i].addr && after.peers[i].ping == s.peers[i].ping by {}
    assert forall|i: int, j: int| 0 <= i < j < after.peers.len() implies (
    #[trigger] after.peers[i]).addr != (#[trigger] after.peers[j]).addr by {
        assert(s.peers[i].addr != s.peers[j].addr);
    }
}

/// Acts on the end of a ping interval of the connection to the peer at
/// `addr`. `now` is the time in milliseconds on the caller's clock.
pub fn ping_action(state: &mut ProtocolState, addr: NodeAddr, now: u64) -> (r: Result<
    StreamAction,
    ProtocolError,
>)
    ensures
        (final(state)@, spec_action_view(r)) == spec_ping_action(old(state)@, addr, now),
        old(state).wf() ==> final(state).wf(),
{
    proof {
        if old(state).wf() {
            lemma_ping_action_wf(old(state)@, addr, now);
        }
    }
    let i = match state.find_peer(addr) {
        Some(i) => i,
        None => {
            return Err(ProtocolError::UnknownPeer);
        },
    };
    assert(state@.peers[i as int] == state.streams@[i as int]@);
    if state.streams[i].metadata.ping_started_at.is_some() {
        // the peer did not answer the last ping: it is taken for dead
        state.alert(AlertPackageLevel::WARNING, Notice::PingUnanswered { addr });
        return Ok(StreamAction::InitiateDisconnect);
    }
    state.streams[i].metadata.ping_started_at = Some(now);
    assert(state@.peers =~= old(state)@.peers.update(
        i as int,
        PeerView { ping_started_at: Some(now), ..old(state)@.peers[i as int] },
    ));
    state.alert(AlertPackageLevel::DEBUG, Notice::SendingPing);
    Ok(StreamAction::Send(ProtocolMessage::Ping))
}

} // verus!
