//! The rules of a signalling link: one SCTP association, carried over UDP,
//! with all messages on one stream.
//!
//! The protocol machine and the socket are outside. What they report comes in
//! as plain events, and what is to be done with it is decided here:
//!
//! - The stream is opened by each side for itself, once the association is
//!   up, unless it is there already. Nothing is sent before.
//! - A complete user message on that stream is handed on as it is.
//! - A lost association, and one that never came up, ends the link. Nothing is
//!   reported after that.

use bytes::Bytes;
use vstd::prelude::*;
use vstd::string::StringExecFns;

use crate::octets::octets_of;

verus! {

/// The stream that every message travels on.
pub const DEFAULT_STREAM_ID: u16 = 0;

/// Space for one datagram.
pub const RECV_BUF_LEN: usize = 65536;

/// The longest user message.
pub const MAX_MESSAGE_LEN: usize = 65536;

/// Why a link operation failed.
#[derive(Debug, Clone)]
pub enum TransportError {
    Io(String),
    Connect(String),
    Sctp(String),
    /// The link is not up yet: wait for [`LinkEvent::Connected`].
    NotReady,
    /// The link is gone.
    Closed,
}

/// What a link reports to its user.
#[derive(Debug, Clone)]
pub enum LinkEvent {
    /// The association is up, the stream is open, and messages can be sent.
    Connected,
    /// A user message came in on the stream.
    Message(Bytes),
    /// The association is gone, or never came up. It is the last event.
    Lost { reason: String },
}

/// What the protocol machine reports.
#[derive(Debug, Clone)]
pub enum AssociationEvent {
    /// The handshake is complete, and the stream is open.
    Connected,
    Lost { reason: String },
    HandshakeFailed { reason: String },
    /// User messages that were read from the stream, in order.
    Read(Vec<Bytes>),
    /// Anything that needs no action.
    Other,
}

#[verifier::ext_equal]
pub enum LinkEventView {
    Connected,
    Message(Seq<u8>),
    Lost { reason: Seq<char> },
}

#[verifier::ext_equal]
pub enum AssociationEventView {
    Connected,
    Lost { reason: Seq<char> },
    HandshakeFailed { reason: Seq<char> },
    Read(Seq<Seq<u8>>),
    Other,
}

impl View for LinkEvent {
    type V = LinkEventView;

    open spec fn view(&self) -> LinkEventView {
        match *self {
            LinkEvent::Connected => LinkEventView::Connected,
            LinkEvent::Message(b) => LinkEventView::Message(octets_of(b)),
            LinkEvent::Lost { reason } => LinkEventView::Lost { reason: reason@ },
        }
    }
}

impl View for AssociationEvent {
    type V = AssociationEventView;

    open spec fn view(&self) -> AssociationEventView {
        match *self {
            AssociationEvent::Connected => AssociationEventView::Connected,
            AssociationEvent::Lost { reason } => AssociationEventView::Lost { reason: reason@ },
            AssociationEvent::HandshakeFailed { reason } => AssociationEventView::HandshakeFailed { reason: reason@ },
            AssociationEvent::Read(v) => AssociationEventView::Read(v@.map_values(|b: Bytes| octets_of(b))),
            AssociationEvent::Other => AssociationEventView::Other,
        }
    }
}

pub open spec fn link_events_view(s: Seq<LinkEvent>) -> Seq<LinkEventView> {
    s.map_values(|e: LinkEvent| e@)
}

/// What an event of the protocol machine is to the user of a link that is not
/// lost.
pub open spec fn told(e: AssociationEventView) -> Seq<LinkEventView> {
    match e {
        AssociationEventView::Connected => seq![LinkEventView::Connected],
        AssociationEventView::Lost { reason } => seq![LinkEventView::Lost { reason }],
        AssociationEventView::HandshakeFailed { reason } => seq![
            LinkEventView::Lost { reason: "handshake failed: "@ + reason },
        ],
        AssociationEventView::Read(messages) => messages.map_values(|m: Seq<u8>| LinkEventView::Message(m)),
        AssociationEventView::Other => Seq::empty(),
    }
}

/// What the user of a link is told of an event: nothing once it is lost.
pub open spec fn reported(s: LinkState, e: AssociationEventView) -> Seq<LinkEventView> {
    if s.lost {
        Seq::empty()
    } else {
        told(e)
    }
}

/// The state of a link after an event.
pub open spec fn after(s: LinkState, e: AssociationEventView) -> LinkState {
    if s.lost {
        s
    } else {
        match e {
            AssociationEventView::Connected => LinkState { stream_ready: true, ..s },
            AssociationEventView::Lost { .. } => LinkState { lost: true, ..s },
            AssociationEventView::HandshakeFailed { .. } => LinkState { lost: true, ..s },
            _ => s,
        }
    }
}

/// The state of a link that its rules depend on.
#[derive(Debug, Clone, Copy, PartialEq, Eq, Structural)]
pub struct LinkState {
    /// The stream is open.
    pub stream_ready: bool,
    /// The association is gone.
    pub lost: bool,
}

impl LinkState {
    /// A link whose handshake is not complete.
    pub fn new() -> (s: Self)
        ensures
            s == (LinkState { stream_ready: false, lost: false }),
    {
        LinkState { stream_ready: false, lost: false }
    }

    /// Takes an event of the protocol machine to what the user is told.
    pub fn on_association_event(&mut self, e: AssociationEvent) -> (out: Vec<LinkEvent>)
        ensures
            *final(self) == after(*old(self), e@),
            link_events_view(out@) == reported(*old(self), e@),
    {
        let ghost ev = e@;
        let mut out: Vec<LinkEvent> = Vec::new();
        if self.lost {
            assert(link_events_view(out@) =~= Seq::<LinkEventView>::empty());
            return out;
        }
        match e {
            AssociationEvent::Connected => {
                self.stream_ready = true;
                out.push(LinkEvent::Connected);
            },
            AssociationEvent::Lost { reason } => {
                self.lost = true;
                out.push(LinkEvent::Lost { reason });
            },
            AssociationEvent::HandshakeFailed { reason } => {
                self.lost = true;
                let mut text = "handshake failed: ".to_owned();
                text.append(reason.as_str());
                out.push(LinkEvent::Lost { reason: text });
            },
            AssociationEvent::Read(messages) => {
                let mut i: usize = 0;
                while i < messages.len()
                    invariant
                        i <= messages@.len(),
                        out@.len() == i,
                        ev == AssociationEventView::Read(messages@.map_values(|b: Bytes| octets_of(b))),
                        forall|j: int| 0 <= j < i ==> (#[trigger] out@[j])@ == LinkEventView::Message(octets_of(messages@[j])),
                    decreases messages@.len() - i,
                {
                    out.push(LinkEvent::Message(messages[i].clone()));
                    i += 1;
                }
            },
            AssociationEvent::Other => {},
        }
        assert(link_events_view(out@) =~= told(ev));
        out
    }

    /// Whether a message may be sent now.
    pub fn check_ready(&self) -> (r: Result<(), TransportError>)
        ensures
            r is Ok <==> self.stream_ready && !self.lost,
            r is Err ==> if self.lost {
                r->Err_0 is Closed
            } else {
                r->Err_0 is NotReady
            },
    {
        if self.lost {
            Err(TransportError::Closed)
        } else if self.stream_ready {
            Ok(())
        } else {
            Err(TransportError::NotReady)
        }
    }
}

// ── The driver of a link ──────────────────────────────────────────────────────

/// What wakes the driver up.
#[derive(Debug, Clone)]
pub enum DriverEvent {
    /// A datagram came in.
    Datagram,
    /// The socket failed.
    SocketError { text: String },
    /// A timer of the protocol machine ran out.
    Timeout,
    /// The user wants a message sent.
    Outbound,
    /// The user dropped the link.
    UserGone,
}

/// What the driver does about it.
#[derive(Debug, Clone)]
pub enum DriverAction {
    /// Give the datagram to the protocol machine.
    Feed,
    /// Tell the protocol machine the time.
    Tick,
    /// Write the message to the stream.
    Write,
    /// Tell the user that the link is not up.
    Refuse,
    /// Report the link as lost, and stop.
    Lose { reason: String },
    /// Stop.
    Stop,
}

#[verifier::ext_equal]
pub enum DriverEventView {
    Datagram,
    SocketError { text: Seq<char> },
    Timeout,
    Outbound,
    UserGone,
}

#[verifier::ext_equal]
pub enum DriverActionView {
    Feed,
    Tick,
    Write,
    Refuse,
    Lose { reason: Seq<char> },
    Stop,
}

impl View for DriverEvent {
    type V = DriverEventView;

    open spec fn view(&self) -> DriverEventView {
        match *self {
            DriverEvent::Datagram => DriverEventView::Datagram,
            DriverEvent::SocketError { text } => DriverEventView::SocketError { text: text@ },
            DriverEvent::Timeout => DriverEventView::Timeout,
            DriverEvent::Outbound => DriverEventView::Outbound,
            DriverEvent::UserGone => DriverEventView::UserGone,
        }
    }
}

impl View for DriverAction {
    type V = DriverActionView;

    open spec fn view(&self) -> DriverActionView {
        match *self {
            DriverAction::Feed => DriverActionView::Feed,
            DriverAction::Tick => DriverActionView::Tick,
            DriverAction::Write => DriverActionView::Write,
            DriverAction::Refuse => DriverActionView::Refuse,
            DriverAction::Lose { reason } => DriverActionView::Lose { reason: reason@ },
            DriverAction::Stop => DriverActionView::Stop,
        }
    }
}

/// What the driver does about an event. Once the link is lost it stops.
pub open spec fn driver_action(s: LinkState, e: DriverEventView) -> DriverActionView {
    match e {
        _ if s.lost => DriverActionView::Stop,
        DriverEventView::Datagram => DriverActionView::Feed,
        DriverEventView::SocketError { text } => DriverActionView::Lose { reason: "socket recv error: "@ + text },
        DriverEventView::Timeout => DriverActionView::Tick,
        DriverEventView::Outbound => if s.stream_ready {
            DriverActionView::Write
        } else {
            DriverActionView::Refuse
        },
        DriverEventView::UserGone => DriverActionView::Stop,
    }
}

/// Decides what the driver does about an event.
pub fn on_driver_event(state: &LinkState, e: DriverEvent) -> (a: DriverAction)
    ensures
        a@ == driver_action(*state, e@),
{
    if state.lost {
        return DriverAction::Stop;
    }
    match e {
        DriverEvent::Datagram => DriverAction::Feed,
        DriverEvent::SocketError { text } => {
            let mut reason = "socket recv error: ".to_owned();
            reason.append(text.as_str());
            DriverAction::Lose { reason }
        },
        DriverEvent::Timeout => DriverAction::Tick,
        DriverEvent::Outbound => match state.check_ready() {
            Ok(_) => DriverAction::Write,
            Err(_) => DriverAction::Refuse,
        },
        DriverEvent::UserGone => DriverAction::Stop,
    }
}

/// Nothing is written before the stream is open, nor once the link is lost.
/// Only the event that the association is up opens the stream, and it stays
/// open. A link that is lost stays lost.
pub proof fn nothing_is_sent_early(s: LinkState, e: AssociationEventView, d: DriverEventView)
    ensures
        !s.stream_ready || s.lost ==> driver_action(s, d) != DriverActionView::Write,
        !s.stream_ready && !(e is Connected) ==> !after(s, e).stream_ready,
        s.stream_ready ==> after(s, e).stream_ready,
        s.lost ==> after(s, e) == s && reported(s, e).len() == 0,
{
}

/// An event that the user is told of as the loss of the link is the last one:
/// whatever comes after it, nothing is reported.
pub proof fn nothing_is_reported_after_lost(s: LinkState, e: AssociationEventView, later: AssociationEventView, i: int)
    requires
        0 <= i < reported(s, e).len(),
        reported(s, e)[i] is Lost,
    ensures
        i == reported(s, e).len() - 1,
        after(s, e).lost,
        reported(after(s, e), later).len() == 0,
{
}

} // verus!
