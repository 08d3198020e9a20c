//! What the engine tells the application: messages that arrived, and alerts.

use vstd::prelude::*;
use crate::addr::NodeAddr;
use crate::error::ProtocolError;
use crate::message::copy_bytes;
use crate::node_info::NodeInfo;
use crate::triangle::Triangle;

verus! {

/// How much an alert matters.
#[derive(Clone, Copy, Debug, PartialEq, Eq, Structural)]
pub enum AlertPackageLevel {
    DEBUG,
    ERROR,
    INFO,
    WARNING,
}

/// What an alert is about.
#[derive(Clone, Copy, Debug, PartialEq, Eq, Structural)]
pub enum Notice {
    /// A node was named that is worth connecting to.
    ConnectingToNode { addr: NodeAddr, src_ping: u16 },
    /// The peer set is full: the peer with the worst latency gives way.
    ChangingNodes { from: NodeAddr, to: NodeAddr },
    /// A round trip took longer than is tolerated.
    PingTooBig { addr: NodeAddr, ping: u64 },
    /// A bearing was derived for a peer.
    CalculatedAngle { addr: NodeAddr, triangle: Triangle },
    /// A pong arrived in time.
    ReceivedPong { delay: u16 },
    /// A ping arrived and is answered.
    ReceivedPing { from: NodeAddr, info: Option<NodeInfo> },
    /// A ping is on its way.
    SendingPing,
    /// The pong to the last ping has not come by the time the next ping is due.
    PingUnanswered { addr: NodeAddr },
    /// The mailbox of a connection is gone.
    MailboxClosed { addr: NodeAddr },
    /// The connection-init message went out.
    SentInit { addr: NodeAddr, server_addr: NodeAddr },
    /// This node joined a peer.
    Joined { addr: NodeAddr },
    /// An outgoing connection is in the peer table.
    Connected { delay: u16 },
    /// A peer joined this node.
    NewJoin { addr: NodeAddr },
    /// The new peer is told about another one.
    SendingNodeInfo { about: NodeAddr },
    /// The server socket is bound.
    Listening { addr: NodeAddr },
    /// An incoming connection could not be accepted.
    AcceptFailed { error: ProtocolError },
    /// A connection is torn down for a failure.
    ConnectionFailed { addr: NodeAddr, error: ProtocolError },
}

/// An alert for the application.
#[derive(Clone, Copy, Debug, PartialEq, Eq, Structural)]
pub struct AlertPackage {
    pub level: AlertPackageLevel,
    pub msg: Notice,
}

/// Application data that a peer sent.
#[derive(Debug, PartialEq, Eq)]
pub struct MessagePackage {
    pub from: NodeAddr,
    pub msg: Vec<u8>,
}

/// What the engine hands to the application.
#[derive(Debug, PartialEq, Eq)]
pub enum AppPackage {
    Message(MessagePackage),
    Alert(AlertPackage),
}

/// A package as a mathematical value.
pub enum PackageView {
    Message { from: NodeAddr, msg: Seq<u8> },
    Alert(AlertPackage),
}

impl View for AppPackage {
    type V = PackageView;

    open spec fn view(&self) -> PackageView {
        match *self {
            AppPackage::Message(m) => PackageView::Message { from: m.from, msg: m.msg@ },
            AppPackage::Alert(a) => PackageView::Alert(a),
        }
    }
}

impl DeepView for AppPackage {
    type V = PackageView;

    open spec fn deep_view(&self) -> PackageView {
        self@
    }
}

impl Clone for MessagePackage {
    fn clone(&self) -> (r: Self)
        ensures
            r.from == self.from,
            r.msg@ == self.msg@,
    {
        MessagePackage { from: self.from, msg: copy_bytes(&self.msg) }
    }
}

impl Clone for AppPackage {
    fn clone(&self) -> (r: Self)
        ensures
            r@ == self@,
    {
        match self {
            AppPackage::Message(m) => AppPackage::Message(m.clone()),
            AppPackage::Alert(a) => AppPackage::Alert(*a),
        }
    }
}

/// The alert, as a package, that tells of `msg` at `level`.
pub open spec fn spec_alert(level: AlertPackageLevel, msg: Notice) -> PackageView {
    PackageView::Alert(AlertPackage { level, msg })
}

/// Makes the alert that tells of `msg` at `level`.
pub fn alert(level: AlertPackageLevel, msg: Notice) -> (r: AppPackage)
    ensures
        r@ == spec_alert(level, msg),
{
    AppPackage::Alert(AlertPackage { level, msg })
}

impl AlertPackageLevel {
    /// The name of the level, in capitals.
    pub fn name(&self) -> (r: &'static str)
        ensures
            r@ == match *self {
                AlertPackageLevel::DEBUG => "DEBUG"@,
                AlertPackageLevel::ERROR => "ERROR"@,
                AlertPackageLevel::INFO => "INFO"@,
                AlertPackageLevel::WARNING => "WARNING"@,
            },
    {
        match self {
            AlertPackageLevel::DEBUG => "DEBUG",
            AlertPackageLevel::ERROR => "ERROR",
            AlertPackageLevel::INFO => "INFO",
            AlertPackageLevel::WARNING => "WARNING",
        }
    }
}

} // verus!
