//! One connection, event by event: what wakes it, what it does about that,
//! and what this leaves for the owner of the socket to write.

use vstd::prelude::*;
use crate::addr::NodeAddr;
use crate::error::ProtocolError;
use crate::frames::spec_frame_views;
use crate::message::{
    lemma_round_trip_in_stream, spec_from_stream, spec_into_frames, spec_message_encodable,
    spec_read_of, MessageView, ProtocolMessage,
};
use crate::package::{spec_alert, AlertPackageLevel, Notice};
use crate::ping_stream::{
    lemma_ping_action_wf, ping_action, spec_ping_action, spec_ping_armed, spec_ping_due,
    spec_ping_rearmed,
};
use crate::read_stream::{
    lemma_read_message_wf, read_message, spec_action_view, spec_read_message,
};
use crate::state::{
    lemma_find, lemma_remove_wf, spec_find, spec_has_peer, spec_remove, PeerView, ProtocolState,
    StateView, PING_INTERVAL,
};
use crate::stream::{
    ActionView, EventView, RequestView, StepView, StreamAction, StreamEvent, StreamRequest,
    StreamStep,
};

verus! {

/// A message is to be written: its frames, and the id generator moved on by
/// one draw for each of them. A message without a wire form changes nothing.
pub open spec fn spec_send_message(s: StateView, m: MessageView) -> (
    StateView,
    Result<Seq<Seq<u8>>, ProtocolError>,
) {
    if spec_message_encodable(m) {
        (
            StateView { rng: s.rng.spec_advance(spec_into_frames(m).len()), ..s },
            Ok(spec_into_frames(m)),
        )
    } else {
        (s, Err(ProtocolError::Ipv6Unsupported))
    }
}

/// A step that writes nothing and goes on.
pub open spec fn spec_idle_step() -> StepView {
    StepView { frames: Seq::empty(), close: false }
}

/// A step that writes nothing and ends the connection.
pub open spec fn spec_closing_step() -> StepView {
    StepView { frames: Seq::empty(), close: true }
}

/// What carrying out an action on the connection to the peer at `addr`
/// leaves. Both ways of closing take the peer out of the table; the one that
/// this node starts tells the peer first.
pub open spec fn spec_perform(s: StateView, addr: NodeAddr, action: ActionView) -> (
    StateView,
    Result<StepView, ProtocolError>,
) {
    match action {
        ActionView::Nothing => (s, Ok(spec_idle_step())),
        ActionView::Send(m) => match spec_send_message(s, m) {
            (after, Ok(frames)) => (after, Ok(StepView { frames, close: false })),
            (after, Err(e)) => (after, Err(e)),
        },
        ActionView::InitiateDisconnect => {
            let (after, frames) = spec_send_message(s, MessageView::ConnClosed);
            (
                StateView { peers: spec_remove(after.peers, addr), ..after },
                Ok(StepView { frames: frames->Ok_0, close: true }),
            )
        },
        ActionView::AcceptDisconnect => (
            StateView { peers: spec_remove(s.peers, addr), ..s },
            Ok(spec_closing_step()),
        ),
    }
}

/// What an entry of the mailbox asks for; a mailbox that is gone ends the
/// connection.
pub open spec fn spec_on_request(s: StateView, addr: NodeAddr, request: Option<RequestView>) -> (
    StateView,
    Result<ActionView, ProtocolError>,
) {
    match request {
        None => (
            StateView {
                packages: s.packages.push(
                    spec_alert(AlertPackageLevel::WARNING, Notice::MailboxClosed { addr }),
                ),
                ..s
            },
            Ok(ActionView::InitiateDisconnect),
        ),
        Some(RequestView::Disconnect) => (s, Ok(ActionView::InitiateDisconnect)),
        Some(RequestView::Send(m)) => (s, Ok(ActionView::Send(m))),
    }
}

/// The action that an event calls for.
pub open spec fn spec_on_event(s: StateView, addr: NodeAddr, event: EventView, now: u64) -> (
    StateView,
    Result<ActionView, ProtocolError>,
) {
    match event {
        EventView::Request(request) => spec_on_request(s, addr, request),
        EventView::Message(message) => spec_read_message(s, addr, message, now),
        EventView::PingTimer => spec_ping_action(s, addr, now),
        EventView::Failed(e) => (s, Err(e)),
    }
}

/// The state after a connection has failed: the peer is out of the table
/// and the application is told why.
pub open spec fn spec_fail(s: StateView, addr: NodeAddr, error: ProtocolError) -> StateView {
    StateView {
        peers: spec_remove(s.peers, addr),
        packages: s.packages.push(
            spec_alert(AlertPackageLevel::ERROR, Notice::ConnectionFailed { addr, error }),
        ),
        ..s
    }
}

/// One step of the connection to the peer at `addr`: the action that the
/// event calls for is carried out. A failure on the way ends the connection
/// like a close that the peer has started.
pub open spec fn spec_handle_stream(s: StateView, addr: NodeAddr, event: EventView, now: u64) -> (
    StateView,
    StepView,
) {
    match spec_on_event(s, addr, event, now) {
        (after, Err(e)) => (spec_fail(after, addr, e), spec_closing_step()),
        (after, Ok(action)) => match spec_perform(after, addr, action) {
            (last, Err(e)) => (spec_fail(last, addr, e), spec_closing_step()),
            (last, Ok(step)) => (last, step),
        },
    }
}

/// What an event makes of a well-formed state is well formed, and it has
/// the peers at the addresses that the state had.
pub proof fn lemma_on_event_wf(s: StateView, addr: NodeAddr, event: EventView, now: u64)
    requires
        s.wf(),
    ensures
        spec_on_event(s, addr, event, now).0.wf(),
        spec_on_event(s, addr, event, now).0.config == s.config,
{
    match event {
        EventView::Message(message) => {
            lemma_read_message_wf(s, addr, message, now);
        },
        EventView::PingTimer => {
            lemma_ping_action_wf(s, addr, now);
        },
        _ => {},
    }
}

/// A step leaves a well-formed state well formed, and a step that ends the
/// connection leaves no peer at the address.
pub proof fn lemma_handle_stream_wf(s: StateView, addr: NodeAddr, event: EventView, now: u64)
    requires
        s.wf(),
    ensures
        spec_handle_stream(s, addr, event, now).0.wf(),
        spec_handle_stream(s, addr, event, now).1.close ==> !spec_has_peer(
            spec_handle_stream(s, addr, event, now).0.peers,
            addr,
        ),
{
    lemma_on_event_wf(s, addr, event, now);
    lemma_remove_wf(spec_on_event(s, addr, event, now).0.peers, addr, s.config.max_ping_ms);
}

/// What a step writes for a message is frames of 256 bytes, and they read
/// at the other end as that message reads there, whatever is written after
/// it.
pub proof fn lemma_written_reads_back(
    s: StateView,
    addr: NodeAddr,
    m: ProtocolMessage,
    rest: Seq<Seq<u8>>,
)
    requires
        spec_message_encodable(m@),
    ensures
        spec_perform(s, addr, ActionView::Send(m@)).1 matches Ok(step) && !step.close
            && spec_from_stream(step.frames + rest) == spec_read_of(m@),
{
    lemma_round_trip_in_stream(m, rest);
}

/// What fails in a step, if anything does: the event itself, what is made
/// of it, or the message that is to be written.
pub open spec fn spec_failure(s: StateView, addr: NodeAddr, event: EventView, now: u64) -> Option<
    ProtocolError,
> {
    match spec_on_event(s, addr, event, now) {
        (_, Err(e)) => Some(e),
        (after, Ok(action)) => match spec_perform(after, addr, action) {
            (_, Err(e)) => Some(e),
            (_, Ok(_)) => None,
        },
    }
}

/// Whatever fails on a connection is fatal to it and to nothing else: the
/// step ends the connection and writes nothing, the peer leaves the table,
/// no other peer is touched, and the last thing the application is told is the
/// failure, as an error.
pub proof fn lemma_failure_is_fatal(
    s: StateView,
    addr: NodeAddr,
    event: EventView,
    now: u64,
    error: ProtocolError,
)
    requires
        s.wf(),
        spec_failure(s, addr, event, now) == Some(error),
    ensures
        ({
            let (after, step) = spec_handle_stream(s, addr, event, now);
            &&& step == spec_closing_step()
            &&& !spec_has_peer(after.peers, addr)
            &&& after.peers == spec_remove(s.peers, addr)
            &&& after.packages.len() > 0
            &&& after.packages.last() == spec_alert(
                AlertPackageLevel::ERROR,
                Notice::ConnectionFailed { addr, error },
            )
        }),
{
    let before = spec_on_event(s, addr, event, now).0;
    lemma_on_event_wf(s, addr, event, now);
    lemma_find(s.peers, addr);
    lemma_remove_wf(before.peers, addr, s.config.max_ping_ms);
    assert(before.peers == s.peers);
}

/// One step of some connection, as it comes in.
pub struct StepInput {
    pub addr: NodeAddr,
    pub event: EventView,
    pub now: u64,
}

/// Whether a step is a pong that arrives from the peer at `addr`.
pub open spec fn spec_is_pong_from(step: StepInput, addr: NodeAddr) -> bool {
    step.addr == addr && step.event matches EventView::Message(Some((MessageView::Pong(_), _)))
}

/// The state after the first `n` of `steps`, each on its own connection.
pub open spec fn spec_after_steps(s: StateView, steps: Seq<StepInput>, n: nat) -> StateView
    decreases n,
{
    if n == 0 {
        s
    } else {
        let step = steps[n - 1];
        spec_handle_stream(
            spec_after_steps(s, steps, (n - 1) as nat),
            step.addr,
            step.event,
            step.now,
        ).0
    }
}

/// Whether every peer at `addr` in the table owes the pong to a ping that
/// went out at time `t`. It holds of a table without a peer at `addr`.
pub open spec fn spec_owes_pong_since(peers: Seq<PeerView>, addr: NodeAddr, t: u64) -> bool {
    forall|i: int|
        0 <= i < peers.len() && (#[trigger] peers[i]).addr == addr ==> peers[i].ping_started_at
            == Some(t)
}

/// Nothing but a pong from the peer settles the ping that the peer owes a
/// pong to: whatever else happens on this connection or on another, the peer
/// still owes it afterwards, unless the connection has ended.
pub proof fn lemma_only_a_pong_settles_a_ping(
    s: StateView,
    addr: NodeAddr,
    t: u64,
    step: StepInput,
)
    requires
        s.wf(),
        spec_owes_pong_since(s.peers, addr, t),
        !spec_is_pong_from(step, addr),
    ensures
        spec_owes_pong_since(
            spec_handle_stream(s, step.addr, step.event, step.now).0.peers,
            addr,
            t,
        ),
        spec_handle_stream(s, step.addr, step.event, step.now).0.wf(),
{
    let (mid, outcome) = spec_on_event(s, step.addr, step.event, step.now);
    let after = spec_handle_stream(s, step.addr, step.event, step.now).0;
    lemma_find(s.peers, step.addr);
    lemma_handle_stream_wf(s, step.addr, step.event, step.now);
    lemma_on_event_wf(s, step.addr, step.event, step.now);
    assert(spec_owes_pong_since(mid.peers, addr, t)) by {
        assert(mid.peers.len() == s.peers.len());
        assert forall|i: int| 0 <= i < mid.peers.len() && (#[trigger] mid.peers[i]).addr
            == addr implies mid.peers[i].ping_started_at == Some(t) by {
            assert(mid.peers[i].addr == s.peers[i].addr);
            assert(s.peers[i].ping_started_at == Some(t));
        }
    }
    lemma_find(mid.peers, step.addr);
    assert forall|i: int| 0 <= i < after.peers.len() && (#[trigger] after.peers[i]).addr
        == addr implies after.peers[i].ping_started_at == Some(t) by {
        if after.peers.len() == mid.peers.len() {
            assert(after.peers[i] == mid.peers[i]);
        } else {
            let r = spec_find(mid.peers, step.addr)->0;
            if i < r {
                assert(after.peers[i] == mid.peers[i]);
            } else {
                assert(after.peers[i] == mid.peers[i + 1]);
            }
        }
    }
}

/// The same for a run of steps: as long as no pong comes from the peer, it
/// goes on owing the pong, or its connection has ended.
pub proof fn lemma_pong_stays_owed(
    s: StateView,
    addr: NodeAddr,
    t: u64,
    steps: Seq<StepInput>,
    n: nat,
)
    requires
        s.wf(),
        spec_owes_pong_since(s.peers, addr, t),
        n <= steps.len(),
        forall|k: int| 0 <= k < steps.len() ==> !spec_is_pong_from(#[trigger] steps[k], addr),
    ensures
        spec_after_steps(s, steps, n).wf(),
        spec_owes_pong_since(spec_after_steps(s, steps, n).peers, addr, t),
    decreases n,
{
    if n > 0 {
        lemma_pong_stays_owed(s, addr, t, steps, (n - 1) as nat);
        lemma_only_a_pong_settles_a_ping(
            spec_after_steps(s, steps, (n - 1) as nat),
            addr,
            t,
            steps[n - 1],
        );
    }
}

/// A peer that never answers a ping is disconnected at the next ping timer.
/// The peer owes no pong when a ping timer sends it a ping at time `t1`. Then
/// any steps are taken, on this connection and on others, but none for a pong
/// from the peer. At the next ping timer of the connection, at `t2`, the peer
/// is told that the connection closes and the connection ends, unless it has
/// ended before; either way the table has no peer at the address then. With
/// a timer that was set at `t0` when the connection stood, that is set again
/// when it is handled, and that is handled no later than `grace` after it is
/// due, this is no later than two ping intervals and the grace after `t0`.
pub proof fn lemma_unanswered_ping_disconnects(
    s: StateView,
    addr: NodeAddr,
    t0: u64,
    t1: u64,
    steps: Seq<StepInput>,
    t2: u64,
    grace: u64,
)
    requires
        s.wf(),
        spec_find(s.peers, addr) matches Some(i) && s.peers[i].ping_started_at is None,
        forall|k: int| 0 <= k < steps.len() ==> !spec_is_pong_from(#[trigger] steps[k], addr),
        grace <= 1000 * PING_INTERVAL,
        spec_ping_due(spec_ping_armed(t0)) <= t1 <= spec_ping_due(spec_ping_armed(t0)) + grace,
        spec_ping_due(spec_ping_rearmed(t1)) <= t2 <= spec_ping_due(spec_ping_rearmed(t1)) + grace,
    ensures
        ({
            let (pinged, first) = spec_handle_stream(s, addr, EventView::PingTimer, t1);
            let later = spec_after_steps(pinged, steps, steps.len());
            let (last, second) = spec_handle_stream(later, addr, EventView::PingTimer, t2);
            &&& first == (StepView { frames: spec_into_frames(MessageView::Ping), close: false })
            &&& second.close
            &&& spec_has_peer(later.peers, addr) ==> second.frames == spec_into_frames(
                MessageView::ConnClosed,
            )
            &&& !spec_has_peer(last.peers, addr)
            &&& t2 <= t0 + 2 * (1000 * PING_INTERVAL) + grace
        }),
{
    let pinged = spec_handle_stream(s, addr, EventView::PingTimer, t1).0;
    lemma_find(s.peers, addr);
    lemma_handle_stream_wf(s, addr, EventView::PingTimer, t1);
    let i = spec_find(s.peers, addr)->0;
    assert(spec_owes_pong_since(pinged.peers, addr, t1)) by {
        assert forall|j: int| 0 <= j < pinged.peers.len() && (#[trigger] pinged.peers[j]).addr
            == addr implies pinged.peers[j].ping_started_at == Some(t1) by {
            assert(s.peers[j].addr == addr);
        }
    }
    lemma_pong_stays_owed(pinged, addr, t1, steps, steps.len());
    let later = spec_after_steps(pinged, steps, steps.len());
    lemma_find(later.peers, addr);
    lemma_handle_stream_wf(later, addr, EventView::PingTimer, t2);
}

impl ProtocolState {
    /// Turns a message into the frames that are to be written, and moves the
    /// id generator on by one draw for each frame.
    pub fn send_message(&mut self, message: ProtocolMessage) -> (r: Result<
        Vec<Vec<u8>>,
        ProtocolError,
    >)
        ensures
            match r {
                Ok(frames) => (final(self)@, Ok::<Seq<Seq<u8>>, ProtocolError>(
                    spec_frame_views(frames@),
                )) == spec_send_message(old(self)@, message@),
                Err(e) => (final(self)@, Err::<Seq<Seq<u8>>, ProtocolError>(e))
                    == spec_send_message(old(self)@, message@),
            },
    {
        match message.into_frames() {
            Ok(frames) => {
                assert(spec_frame_views(frames@).len() == frames@.len());
                self.advance(frames.len());
                Ok(frames)
            },
            Err(e) => Err(e),
        }
    }
}

/// Carries out an action on the connection to the peer at `addr`.
pub fn perform_action(state: &mut ProtocolState, addr: NodeAddr, action: StreamAction) -> (r:
    Result<StreamStep, ProtocolError>)
    ensures
        match r {
            Ok(step) => (final(state)@, Ok::<StepView, ProtocolError>(step@)) == spec_perform(
                old(state)@,
                addr,
                action@,
            ),
            Err(e) => (final(state)@, Err::<StepView, ProtocolError>(e)) == spec_perform(
                old(state)@,
                addr,
                action@,
            ),
        },
{
    match action {
        StreamAction::Nothing => {
            let step = StreamStep { frames: Vec::new(), close: false };
            assert(step@.frames =~= Seq::empty());
            Ok(step)
        },
        StreamAction::Send(message) => match state.send_message(message) {
            Ok(frames) => Ok(StreamStep { frames, close: false }),
            Err(e) => Err(e),
        },
        StreamAction::InitiateDisconnect => match state.send_message(ProtocolMessage::ConnClosed) {
            Ok(frames) => {
                state.remove_peer(addr);
                Ok(StreamStep { frames, close: true })
            },
            Err(e) => Err(e),
        },
        StreamAction::AcceptDisconnect => {
            state.remove_peer(addr);
            let step = StreamStep { frames: Vec::new(), close: true };
            assert(step@.frames =~= Seq::empty());
            Ok(step)
        },
    }
}

/// The action that an event on the connection to the peer at `addr` calls
/// for.
pub fn next_action(state: &mut ProtocolState, addr: NodeAddr, event: StreamEvent, now: u64) -> (r:
    Result<StreamAction, ProtocolError>)
    ensures
        (final(state)@, spec_action_view(r)) == spec_on_event(old(state)@, addr, event@, now),
{
    match event {
        StreamEvent::Request(None) => {
            state.alert(AlertPackageLevel::WARNING, Notice::MailboxClosed { addr });
            Ok(StreamAction::InitiateDisconnect)
        },
        StreamEvent::Request(Some(StreamRequest::Disconnect)) => Ok(
            StreamAction::InitiateDisconnect,
        ),
        StreamEvent::Request(Some(StreamRequest::Send(message))) => Ok(
            StreamAction::Send(message),
        ),
        StreamEvent::Message(message) => read_message(state, addr, message, now),
        StreamEvent::PingTimer => ping_action(state, addr, now),
        StreamEvent::Failed(e) => Err(e),
    }
}

/// Takes the peer at `addr` out of the table for a failure and tells the
/// application.
pub fn fail_stream(state: &mut ProtocolState, addr: NodeAddr, error: ProtocolError) -> (r:
    StreamStep)
    ensures
        final(state)@ == spec_fail(old(state)@, addr, error),
        r@ == spec_closing_step(),
{
    state.remove_peer(addr);
    state.alert(AlertPackageLevel::ERROR, Notice::ConnectionFailed { addr, error });
    let step = StreamStep { frames: Vec::new(), close: true };
    assert(step@.frames =~= Seq::empty());
    step
}

/// One step of the connection to the peer at `addr`. The caller waits for
/// whatever comes first of an entry in the mailbox, a message on the socket
/// and the end of the ping interval, hands it in with the time in
/// milliseconds, writes the frames that come back, and closes the socket
/// where the step says so.
pub fn protocol_handle_stream(
    state: &mut ProtocolState,
    addr: NodeAddr,
    event: StreamEvent,
    now: u64,
) -> (r: StreamStep)
    ensures
        (final(state)@, r@) == spec_handle_stream(old(state)@, addr, event@, now),
        old(state).wf() ==> final(state).wf(),
{
    proof {
        if old(state).wf() {
            lemma_handle_stream_wf(old(state)@, addr, event@, now);
        }
    }
    let action = match next_action(state, addr, event, now) {
        Ok(action) => action,
        Err(e) => {
            return fail_stream(state, addr, e);
        },
    };
    match perform_action(state, addr, action) {
        Ok(step) => step,
        Err(e) => fail_stream(state, addr, e),
    }
}

} // verus!
