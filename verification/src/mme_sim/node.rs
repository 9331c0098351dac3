//! The MME as a node of the network: it serves one link, and plays the gateway.

use bytes::Bytes;
use vstd::prelude::*;
use vstd::string::StringSliceAdditionalSpecFns;

use crate::mme::replies::{all_encodable, decoded_ids_fit};
use crate::mme::state_machine::{
    events_view, has_room_for, messages_view, s1ap_step, Mme, MmeView, UpfEvent, UpfEventView,
};
use crate::error::ProtoError;
use crate::hss::{hex_key, is_hex_key, provisioned, refused_key, KeyFormatError};
use crate::mme_sim::ue::{opt_event, TEST_IMSI};
use crate::s1ap::codec::{decode_s1ap_pdu, encode_s1ap_pdu};
use crate::s1ap::messages::{S1apMessage, S1apMessageView};
use crate::s1ap::wire;
use crate::octets::{bytes_as_slice, octets_of};
use crate::sessions::{SessionManager, SessionsView};
use crate::transport::{LinkEvent, LinkEventView};

verus! {

/// A short name of a message.
pub open spec fn summary_of(msg: S1apMessageView) -> &'static str {
    match msg {
        S1apMessageView::InitialUeMessage(_) => "InitialUeMessage",
        S1apMessageView::UplinkNasTransport(_) => "UplinkNasTransport",
        S1apMessageView::DownlinkNasTransport(_) => "DownlinkNasTransport",
        S1apMessageView::InitialContextSetupRequest(_) => "InitialContextSetupRequest",
        S1apMessageView::InitialContextSetupResponse(_) => "InitialContextSetupResponse",
        S1apMessageView::UeContextReleaseCommand { .. } => "UeContextReleaseCommand",
        S1apMessageView::UeContextReleaseComplete { .. } => "UeContextReleaseComplete",
        _ => "(other S1AP message)",
    }
}

/// A short name of a message, for the log.
pub fn s1ap_summary(msg: &S1apMessage) -> (s: &'static str)
    ensures
        s == summary_of(msg@),
{
    match msg {
        S1apMessage::InitialUeMessage(_) => "InitialUeMessage",
        S1apMessage::UplinkNasTransport(_) => "UplinkNasTransport",
        S1apMessage::DownlinkNasTransport(_) => "DownlinkNasTransport",
        S1apMessage::InitialContextSetupRequest(_) => "InitialContextSetupRequest",
        S1apMessage::InitialContextSetupResponse(_) => "InitialContextSetupResponse",
        S1apMessage::UeContextReleaseCommand { .. } => "UeContextReleaseCommand",
        S1apMessage::UeContextReleaseComplete(_) => "UeContextReleaseComplete",
        _ => "(other S1AP message)",
    }
}

pub struct MmeNode {
    pub mme: Mme,
    pub sessions: SessionManager,
}

#[verifier::ext_equal]
pub struct MmeNodeView {
    pub mme: MmeView,
    pub sessions: SessionsView,
}

impl View for MmeNode {
    type V = MmeNodeView;

    open spec fn view(&self) -> MmeNodeView {
        MmeNodeView { mme: self.mme@, sessions: self.sessions@ }
    }
}

/// The node before any message.
pub open spec fn fresh_node(upf_ip: Seq<u8>, k: Seq<u8>, opc: Seq<u8>) -> MmeNodeView {
    MmeNodeView {
        mme: MmeView {
            phase3_upf: Some(upf_ip),
            hss: Map::empty().insert(TEST_IMSI, provisioned(k, opc)),
            ..MmeView::fresh()
        },
        sessions: SessionsView::empty(),
    }
}

/// What a link event leads to.
#[derive(Debug)]
pub enum MmeOutput {
    /// The association is up.
    Established,
    /// Octets that are no S1AP message; they are dropped.
    BadPdu(ProtoError),
    /// A message was processed. The replies are sent in order; where `failed`
    /// is set, the reply after the last one could not be encoded.
    Processed {
        summary: &'static str,
        events: Vec<UpfEvent>,
        replies: Vec<Bytes>,
        failed: Option<ProtoError>,
    },
    /// The link is gone.
    Lost { reason: String },
    /// The link has ended.
    Closed,
}

#[verifier::ext_equal]
pub enum MmeOutputView {
    Established,
    BadPdu(ProtoError),
    Processed {
        summary: &'static str,
        events: Seq<UpfEventView>,
        replies: Seq<Seq<u8>>,
        failed: Option<ProtoError>,
    },
    Lost { reason: Seq<char> },
    Closed,
}

pub open spec fn octet_strings(s: Seq<Bytes>) -> Seq<Seq<u8>> {
    s.map_values(|b: Bytes| octets_of(b))
}

impl View for MmeOutput {
    type V = MmeOutputView;

    open spec fn view(&self) -> MmeOutputView {
        match *self {
            MmeOutput::Established => MmeOutputView::Established,
            MmeOutput::BadPdu(e) => MmeOutputView::BadPdu(e),
            MmeOutput::Processed { summary, events, replies, failed } => MmeOutputView::Processed {
                summary,
                events: events_view(events@),
                replies: octet_strings(replies@),
                failed,
            },
            MmeOutput::Lost { reason } => MmeOutputView::Lost { reason: reason@ },
            MmeOutput::Closed => MmeOutputView::Closed,
        }
    }
}

/// Messages up to the first that cannot be encoded, as octets.
pub open spec fn encoded(messages: Seq<S1apMessageView>) -> Seq<Seq<u8>>
    decreases messages.len(),
{
    if messages.len() == 0 || !wire::encodable(messages[0]) {
        Seq::empty()
    } else {
        seq![wire::octets(messages[0])] + encoded(messages.subrange(1, messages.len() as int))
    }
}

/// One of the messages releases a UE.
pub open spec fn has_release_command(messages: Seq<S1apMessageView>) -> bool {
    exists|i: int| 0 <= i < messages.len() && (#[trigger] messages[i]) is UeContextReleaseCommand
}

/// Why the first message that cannot be encoded cannot.
pub open spec fn encode_failure(messages: Seq<S1apMessageView>) -> Option<ProtoError>
    decreases messages.len(),
{
    if messages.len() == 0 {
        None
    } else if wire::encodable(messages[0]) {
        encode_failure(messages.subrange(1, messages.len() as int))
    } else if wire::supported(messages[0]) {
        Some(ProtoError::MalformedS1ap { reason: wire::REASON_NOT_ENCODABLE })
    } else {
        Some(ProtoError::MalformedS1ap { reason: wire::REASON_UNSUPPORTED_MESSAGE })
    }
}

/// Where every message but a release command can be encoded, encoding fails
/// exactly where there is a release command.
proof fn lemma_what_fails(messages: Seq<S1apMessageView>)
    requires
        all_encodable(messages),
    ensures
        encode_failure(messages) is Some <==> has_release_command(messages),
    decreases messages.len(),
{
    if messages.len() > 0 {
        let rest = messages.subrange(1, messages.len() as int);
        assert forall|i: int| 0 <= i < rest.len() implies (#[trigger] rest[i]) is UeContextReleaseCommand
            || wire::encodable(rest[i]) by {
            assert(rest[i] == messages[i + 1]);
        }
        lemma_what_fails(rest);
        if has_release_command(messages) && !(messages[0] is UeContextReleaseCommand) {
            let i = choose|i: int| 0 <= i < messages.len() && (#[trigger] messages[i]) is UeContextReleaseCommand;
            assert(rest[i - 1] is UeContextReleaseCommand);
        }
        if has_release_command(rest) {
            let i = choose|i: int| 0 <= i < rest.len() && (#[trigger] rest[i]) is UeContextReleaseCommand;
            assert(messages[i + 1] is UeContextReleaseCommand);
        }
    }
}

fn encode_all(messages: &Vec<S1apMessage>) -> (r: (Vec<Bytes>, Option<ProtoError>))
    ensures
        octet_strings(r.0@) == encoded(messages_view(messages@)),
        r.1 == encode_failure(messages_view(messages@)),
{
    let ghost all = messages_view(messages@);
    let mut out: Vec<Bytes> = Vec::new();
    let mut i: usize = 0;
    assert(all.subrange(0, all.len() as int) =~= all);
    assert(octet_strings(out@) =~= Seq::<Seq<u8>>::empty());
    assert(octet_strings(out@) + encoded(all) =~= encoded(all));
    while i < messages.len()
        invariant
            i <= messages@.len() == all.len(),
            all == messages_view(messages@),
            octet_strings(out@) + encoded(all.subrange(i as int, all.len() as int)) == encoded(all),
            encode_failure(all.subrange(i as int, all.len() as int)) == encode_failure(all),
        decreases messages@.len() - i,
    {
        let ghost rest = all.subrange(i as int, all.len() as int);
        assert(rest[0] == messages@[i as int]@);
        assert(rest.subrange(1, rest.len() as int) =~= all.subrange(i + 1, all.len() as int));
        match encode_s1ap_pdu(&messages[i]) {
            Ok(b) => {
                let ghost before = octet_strings(out@);
                out.push(b);
                assert(octet_strings(out@) =~= before + seq![octets_of(b)]);
                assert(octet_strings(out@) + encoded(rest.subrange(1, rest.len() as int)) =~= before + encoded(rest));
            },
            Err(e) => {
                assert(octet_strings(out@) =~= encoded(all));
                return (out, Some(e));
            },
        }
        i += 1;
    }
    assert(octet_strings(out@) =~= encoded(all));
    (out, None)
}

/// What a link event does to the node, and what it leads to.
pub open spec fn node_step(node: MmeNodeView, event: Option<LinkEventView>, rand: Seq<u8>) -> (
    MmeNodeView,
    MmeOutputView,
) {
    match event {
        None => (node, MmeOutputView::Closed),
        Some(LinkEventView::Connected) => (node, MmeOutputView::Established),
        Some(LinkEventView::Lost { reason }) => (node, MmeOutputView::Lost { reason }),
        Some(LinkEventView::Message(b)) => match wire::message(b) {
            Err(e) => (node, MmeOutputView::BadPdu(e)),
            Ok(msg) => {
                let step = s1ap_step(node.mme, msg, rand);
                (
                    MmeNodeView { mme: step.mme, sessions: node.sessions.apply_all_upf(step.events) },
                    MmeOutputView::Processed {
                        summary: summary_of(msg),
                        events: step.events,
                        replies: encoded(step.messages),
                        failed: encode_failure(step.messages),
                    },
                )
            },
        },
    }
}

/// The messages that answer the message in a link event.
pub open spec fn answers(mme: MmeView, event: Option<LinkEventView>, rand: Seq<u8>) -> Seq<S1apMessageView> {
    match event {
        Some(LinkEventView::Message(b)) => match wire::message(b) {
            Ok(msg) => s1ap_step(mme, msg, rand).messages,
            Err(_) => Seq::empty(),
        },
        _ => Seq::empty(),
    }
}

/// The message in a link event finds the identifiers that it needs.
pub open spec fn event_has_room(mme: MmeView, event: Option<LinkEventView>) -> bool {
    match event {
        Some(LinkEventView::Message(b)) => match wire::message(b) {
            Ok(msg) => has_room_for(mme, msg),
            Err(_) => true,
        },
        _ => true,
    }
}

impl MmeNode {
    /// A node whose gateway is at `upf_ip`, with one subscriber. The secrets
    /// are given in hexadecimal; where one of them is refused, K first, there
    /// is no node.
    pub fn new(upf_ip: [u8; 4], k: &str, opc: &str) -> (r: Result<MmeNode, KeyFormatError>)
        ensures
            is_hex_key(k.spec_bytes()) && is_hex_key(opc.spec_bytes()) <==> r is Ok,
            r is Ok ==> r->Ok_0@ == fresh_node(
                upf_ip@,
                hex_key(k.spec_bytes()),
                hex_key(opc.spec_bytes()),
            ) && r->Ok_0@.mme.world.wf(),
            r is Err ==> refused_key(
                if is_hex_key(k.spec_bytes()) {
                    opc.spec_bytes()
                } else {
                    k.spec_bytes()
                },
                r->Err_0,
            ),
    {
        let mut mme = Mme::new().with_phase3(upf_ip);
        match mme.hss_mut().provision_hex(TEST_IMSI, k, opc) {
            Ok(_) => {},
            Err(e) => return Err(e),
        }
        Ok(MmeNode { mme, sessions: SessionManager::new() })
    }

    /// Whether there is room for every message.
    pub fn has_room(&self) -> (b: bool)
        ensures
            b ==> forall|event: Option<LinkEventView>| #[trigger] event_has_room(self@.mme, event),
            b == (!self@.mme.world.full() && self@.mme.teids.available()),
    {
        self.mme.has_room()
    }

    fn apply_events(&mut self, events: &Vec<UpfEvent>)
        ensures
            final(self)@ == (MmeNodeView {
                sessions: (old(self)@).sessions.apply_all_upf(events_view(events@)),
                ..old(self)@
            }),
    {
        let ghost all = events_view(events@);
        let ghost start = self.sessions@;
        let mut i: usize = 0;
        assert(all.take(0) =~= Seq::<UpfEventView>::empty());
        while i < events.len()
            invariant
                i <= events@.len() == all.len(),
                all == events_view(events@),
                self.mme == old(self).mme,
                self.sessions@ == start.apply_all_upf(all.take(i as int)),
            decreases events@.len() - i,
        {
            self.sessions.apply_upf_event(&events[i]);
            assert(all.take(i + 1).drop_last() =~= all.take(i as int));
            assert(all.take(i + 1).last() == events@[i as int]@);
            i += 1;
        }
        assert(all.take(i as int) =~= all);
    }

    /// Processes a link event; `None` is the end of the link. `rand` is the
    /// challenge, in case one goes out.
    pub fn on_link_event(&mut self, event: Option<LinkEvent>, rand: [u8; 16]) -> (out: MmeOutput)
        requires
            old(self)@.mme.world.wf(),
            event_has_room(old(self)@.mme, opt_event(event)),
        ensures
            final(self)@ == node_step(old(self)@, opt_event(event), rand@).0,
            out@ == node_step(old(self)@, opt_event(event), rand@).1,
            out is Processed ==> (out->failed is Some <==> has_release_command(
                answers(old(self)@.mme, opt_event(event), rand@),
            )),
            final(self)@.mme.world.wf(),
    {
        match event {
            None => MmeOutput::Closed,
            Some(LinkEvent::Connected) => MmeOutput::Established,
            Some(LinkEvent::Lost { reason }) => MmeOutput::Lost { reason },
            Some(LinkEvent::Message(b)) => match decode_s1ap_pdu(bytes_as_slice(&b)) {
                Err(e) => MmeOutput::BadPdu(e),
                Ok(msg) => {
                    let summary = s1ap_summary(&msg);
                    let (messages, events) = self.mme.process_s1ap(msg, rand);
                    self.apply_events(&events);
                    let (replies, failed) = encode_all(&messages);
                    proof {
                        decoded_ids_fit(octets_of(b));
                        lemma_what_fails(messages_view(messages@));
                    }
                    MmeOutput::Processed { summary, events, replies, failed }
                },
            },
        }
    }
}

} // verus!
