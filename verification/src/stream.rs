//! What travels between the parts of one connection: requests in its
//! mailbox, events that wake it, and what it is to do about them.

use vstd::prelude::*;
use crate::error::ProtocolError;
use crate::frames::spec_frame_views;
use crate::message::{MessageView, ProtocolMessage};

verus! {

/// An entry of a connection's mailbox: what another part of the engine wants
/// done on that connection's socket.
#[derive(Debug, PartialEq, Eq)]
pub enum StreamRequest {
    /// Close the connection.
    Disconnect,
    /// Write this message.
    Send(ProtocolMessage),
}

/// A mailbox entry as a mathematical value.
pub enum RequestView {
    Disconnect,
    Send(MessageView),
}

impl View for StreamRequest {
    type V = RequestView;

    open spec fn view(&self) -> RequestView {
        match *self {
            StreamRequest::Disconnect => RequestView::Disconnect,
            StreamRequest::Send(m) => RequestView::Send(m@),
        }
    }
}

impl DeepView for StreamRequest {
    type V = RequestView;

    open spec fn deep_view(&self) -> RequestView {
        self@
    }
}

impl Clone for StreamRequest {
    fn clone(&self) -> (r: Self)
        ensures
            r@ == self@,
    {
        match self {
            StreamRequest::Disconnect => StreamRequest::Disconnect,
            StreamRequest::Send(m) => StreamRequest::Send(m.clone()),
        }
    }
}

/// What a connection is to do after an event.
#[derive(Debug, PartialEq, Eq)]
pub enum StreamAction {
    /// Write this message.
    Send(ProtocolMessage),
    /// Tell the peer that the connection closes, then close it.
    InitiateDisconnect,
    /// Close the connection that the peer has closed.
    AcceptDisconnect,
    /// Go on waiting.
    Nothing,
}

/// An action as a mathematical value.
pub enum ActionView {
    Send(MessageView),
    InitiateDisconnect,
    AcceptDisconnect,
    Nothing,
}

impl View for StreamAction {
    type V = ActionView;

    open spec fn view(&self) -> ActionView {
        match *self {
            StreamAction::Send(m) => ActionView::Send(m@),
            StreamAction::InitiateDisconnect => ActionView::InitiateDisconnect,
            StreamAction::AcceptDisconnect => ActionView::AcceptDisconnect,
            StreamAction::Nothing => ActionView::Nothing,
        }
    }
}

/// What can wake a connection.
#[derive(Debug, PartialEq, Eq)]
pub enum StreamEvent {
    /// An entry was taken from the mailbox; none where the mailbox is gone.
    Request(Option<StreamRequest>),
    /// A message was read off the socket, in so many frames; none where the
    /// peer has gone.
    Message(Option<(ProtocolMessage, usize)>),
    /// The ping interval is over.
    PingTimer,
    /// Reading a message failed.
    Failed(ProtocolError),
}

/// An event as a mathematical value.
pub enum EventView {
    Request(Option<RequestView>),
    Message(Option<(MessageView, nat)>),
    PingTimer,
    Failed(ProtocolError),
}

impl View for StreamEvent {
    type V = EventView;

    open spec fn view(&self) -> EventView {
        match *self {
            StreamEvent::Request(Some(r)) => EventView::Request(Some(r@)),
            StreamEvent::Request(None) => EventView::Request(None),
            StreamEvent::Message(Some((m, n))) => EventView::Message(Some((m@, n as nat))),
            StreamEvent::Message(None) => EventView::Message(None),
            StreamEvent::PingTimer => EventView::PingTimer,
            StreamEvent::Failed(e) => EventView::Failed(e),
        }
    }
}

/// What the owner of the socket does after a step of the connection.
#[derive(Debug, PartialEq, Eq)]
pub struct StreamStep {
    /// The frames to write, in order.
    pub frames: Vec<Vec<u8>>,
    /// Whether the socket is then shut down and the connection ends.
    pub close: bool,
}

/// A step as a mathematical value.
pub struct StepView {
    pub frames: Seq<Seq<u8>>,
    pub close: bool,
}

impl View for StreamStep {
    type V = StepView;

    open spec fn view(&self) -> StepView {
        StepView { frames: spec_frame_views(self.frames@), close: self.close }
    }
}

/// What looking into a mailbox finds.
#[derive(Debug, PartialEq, Eq)]
pub enum StreamPoll {
    /// There is no such mailbox.
    Closed,
    /// The mailbox holds nothing.
    Empty,
    /// The oldest entry, which has left the mailbox.
    Request(StreamRequest),
}

/// A look into a mailbox as a mathematical value.
pub enum PollView {
    Closed,
    Empty,
    Request(RequestView),
}

impl View for StreamPoll {
    type V = PollView;

    open spec fn view(&self) -> PollView {
        match *self {
            StreamPoll::Closed => PollView::Closed,
            StreamPoll::Empty => PollView::Empty,
            StreamPoll::Request(r) => PollView::Request(r@),
        }
    }
}

} // verus!
