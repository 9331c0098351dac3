//! The AMF as a node of the network: it serves one link, and plays the UPF.

use bytes::Bytes;
use vstd::prelude::*;
use vstd::string::StringSliceAdditionalSpecFns;

use crate::amf::replies::all_encodable;
use crate::amf::state_machine::{
    events_view, has_room_for, messages_view, ngap_step, Amf, AmfView, N3Event, N3EventView,
};
use crate::error::ProtoError;
use crate::hss::{hex_key, is_hex_key, key_from_hex, provisioned, refused_key, KeyFormatError, SubscriberView};
use crate::midn_sim::gnb::{opt_event, TEST_IMSI};
use crate::ngap::codec::{decode_ngap_pdu, encode_ngap_pdu};
use crate::ngap::messages::{NgapMessage, NgapMessageView};
use crate::ngap::wire;
use crate::octets::{bytes_as_slice, octets_of};
use crate::sessions::{SessionManager, SessionsView};
use crate::transport::{LinkEvent, LinkEventView};

verus! {

/// A short name of a message.
pub open spec fn summary_of(msg: NgapMessageView) -> &'static str {
    match msg {
        NgapMessageView::InitialUeMessage(_) => "InitialUeMessage",
        NgapMessageView::UplinkNasTransport(_) => "UplinkNasTransport",
        NgapMessageView::DownlinkNasTransport(_) => "DownlinkNasTransport",
        NgapMessageView::InitialContextSetupRequest(_) => "InitialContextSetupRequest",
        NgapMessageView::InitialContextSetupResponse(_) => "InitialContextSetupResponse",
        NgapMessageView::UeContextReleaseCommand { .. } => "UeContextReleaseCommand",
        NgapMessageView::UeContextReleaseComplete(_) => "UeContextReleaseComplete",
        _ => "(other NGAP message)",
    }
}

/// A short name of a message, for the log.
pub fn ngap_summary(msg: &NgapMessage) -> (s: &'static str)
    ensures
        s == summary_of(msg@),
{
    match msg {
        NgapMessage::InitialUeMessage(_) => "InitialUeMessage",
        NgapMessage::UplinkNasTransport(_) => "UplinkNasTransport",
        NgapMessage::DownlinkNasTransport(_) => "DownlinkNasTransport",
        NgapMessage::InitialContextSetupRequest(_) => "InitialContextSetupRequest",
        NgapMessage::InitialContextSetupResponse(_) => "InitialContextSetupResponse",
        NgapMessage::UeContextReleaseCommand { .. } => "UeContextReleaseCommand",
        NgapMessage::UeContextReleaseComplete(_) => "UeContextReleaseComplete",
        _ => "(other NGAP message)",
    }
}

pub struct AmfNode {
    pub amf: Amf,
    pub sessions: SessionManager,
}

#[verifier::ext_equal]
pub struct AmfNodeView {
    pub amf: AmfView,
    pub sessions: SessionsView,
}

impl View for AmfNode {
    type V = AmfNodeView;

    open spec fn view(&self) -> AmfNodeView {
        AmfNodeView { amf: self.amf@, sessions: self.sessions@ }
    }
}

/// The subscribers of `n` UEs, all with the same secrets.
pub open spec fn subscribers(n: nat, k: Seq<u8>, opc: Seq<u8>) -> Map<u64, SubscriberView>
    decreases n,
{
    if n == 0 {
        Map::empty()
    } else {
        subscribers((n - 1) as nat, k, opc).insert((TEST_IMSI + (n - 1)) as u64, provisioned(k, opc))
    }
}

/// Every UE has a subscription with SQN 0, and nobody else has one.
pub proof fn every_ue_is_a_subscriber(n: nat, k: Seq<u8>, opc: Seq<u8>, imsi: u64)
    requires
        n <= u32::MAX,
    ensures
        subscribers(n, k, opc).contains_key(imsi) <==> TEST_IMSI <= imsi < TEST_IMSI + n,
        TEST_IMSI <= imsi < TEST_IMSI + n ==> subscribers(n, k, opc)[imsi] == provisioned(k, opc),
    decreases n,
{
    if n > 0 {
        every_ue_is_a_subscriber((n - 1) as nat, k, opc, imsi);
    }
}

/// The node before any message.
pub open spec fn fresh_node(upf_ip: Seq<u8>, n_ues: u32, k: Seq<u8>, opc: Seq<u8>) -> AmfNodeView {
    AmfNodeView {
        amf: AmfView { phase_b_upf: Some(upf_ip), hss: subscribers(n_ues as nat, k, opc), ..AmfView::fresh() },
        sessions: SessionsView::empty(),
    }
}

/// What a link event leads to.
#[derive(Debug)]
pub enum AmfOutput {
    /// The association is up.
    Established,
    /// Octets that are no NGAP message; they are dropped.
    BadPdu(ProtoError),
    /// A message was processed. The replies are sent in order; where `failed`
    /// is set, the reply after the last one could not be encoded.
    Processed {
        summary: &'static str,
        events: Vec<N3Event>,
        replies: Vec<Bytes>,
        failed: Option<ProtoError>,
    },
    /// The link is gone.
    Lost { reason: String },
    /// The link has ended.
    Closed,
}

#[verifier::ext_equal]
pub enum AmfOutputView {
    Established,
    BadPdu(ProtoError),
    Processed {
        summary: &'static str,
        events: Seq<N3EventView>,
        replies: Seq<Seq<u8>>,
        failed: Option<ProtoError>,
    },
    Lost { reason: Seq<char> },
    Closed,
}

pub open spec fn octet_strings(s: Seq<Bytes>) -> Seq<Seq<u8>> {
    s.map_values(|b: Bytes| octets_of(b))
}

impl View for AmfOutput {
    type V = AmfOutputView;

    open spec fn view(&self) -> AmfOutputView {
        match *self {
            AmfOutput::Established => AmfOutputView::Established,
            AmfOutput::BadPdu(e) => AmfOutputView::BadPdu(e),
            AmfOutput::Processed { summary, events, replies, failed } => AmfOutputView::Processed {
                summary,
                events: events_view(events@),
                replies: octet_strings(replies@),
                failed,
            },
            AmfOutput::Lost { reason } => AmfOutputView::Lost { reason: reason@ },
            AmfOutput::Closed => AmfOutputView::Closed,
        }
    }
}

/// Messages up to the first that cannot be encoded, as octets.
pub open spec fn encoded(messages: Seq<NgapMessageView>) -> Seq<Seq<u8>>
    decreases messages.len(),
{
    if messages.len() == 0 || !wire::encodable(messages[0]) {
        Seq::empty()
    } else {
        seq![wire::octets(messages[0])] + encoded(messages.subrange(1, messages.len() as int))
    }
}

/// Why the first message that cannot be encoded cannot.
pub open spec fn encode_failure(messages: Seq<NgapMessageView>) -> Option<ProtoError>
    decreases messages.len(),
{
    if messages.len() == 0 {
        None
    } else if wire::encodable(messages[0]) {
        encode_failure(messages.subrange(1, messages.len() as int))
    } else if wire::supported(messages[0]) {
        Some(ProtoError::MalformedNgap { reason: wire::REASON_NOT_ENCODABLE })
    } else {
        Some(ProtoError::MalformedNgap { reason: wire::REASON_UNSUPPORTED_MESSAGE })
    }
}

/// Where every message can be encoded, every one is.
proof fn lemma_nothing_fails(messages: Seq<NgapMessageView>)
    requires
        all_encodable(messages),
    ensures
        encode_failure(messages) is None,
    decreases messages.len(),
{
    if messages.len() > 0 {
        let rest = messages.subrange(1, messages.len() as int);
        assert forall|i: int| 0 <= i < rest.len() implies wire::encodable(#[trigger] rest[i]) by {
            assert(rest[i] == messages[i + 1]);
        }
        lemma_nothing_fails(rest);
    }
}

fn encode_all(messages: &Vec<NgapMessage>) -> (r: (Vec<Bytes>, Option<ProtoError>))
    ensures
        octet_strings(r.0@) == encoded(messages_view(messages@)),
        r.1 == encode_failure(messages_view(messages@)),
{
    let ghost all = messages_view(messages@);
    let mut out: Vec<Bytes> = Vec::new();
    let mut i: usize = 0;
    assert(all.subrange(0, all.len() as int) =~= all);
    assert(octet_strings(out@) =~= Seq::<Seq<u8>>::empty());
    assert(octet_strings(out@) + encoded(all) =~= encoded(all));
    while i < messages.len()
        invariant
            i <= messages@.len() == all.len(),
            all == messages_view(messages@),
            octet_strings(out@) + encoded(all.subrange(i as int, all.len() as int)) == encoded(all),
            encode_failure(all.subrange(i as int, all.len() as int)) == encode_failure(all),
        decreases messages@.len() - i,
    {
        let ghost rest = all.subrange(i as int, all.len() as int);
        assert(rest[0] == messages@[i as int]@);
        assert(rest.subrange(1, rest.len() as int) =~= all.subrange(i + 1, all.len() as int));
        match encode_ngap_pdu(&messages[i]) {
            Ok(b) => {
                let ghost before = octet_strings(out@);
                out.push(b);
                assert(octet_strings(out@) =~= before + seq![octets_of(b)]);
                assert(octet_strings(out@) + encoded(rest.subrange(1, rest.len() as int)) =~= before + encoded(rest));
            },
            Err(e) => {
                assert(octet_strings(out@) =~= encoded(all));
                return (out, Some(e));
            },
        }
        i += 1;
    }
    assert(octet_strings(out@) =~= encoded(all));
    (out, None)
}

/// What a link event does to the node, and what it leads to.
pub open spec fn node_step(node: AmfNodeView, event: Option<LinkEventView>, rand: Seq<u8>) -> (
    AmfNodeView,
    AmfOutputView,
) {
    match event {
        None => (node, AmfOutputView::Closed),
        Some(LinkEventView::Connected) => (node, AmfOutputView::Established),
        Some(LinkEventView::Lost { reason }) => (node, AmfOutputView::Lost { reason }),
        Some(LinkEventView::Message(b)) => match wire::message(b) {
            Err(e) => (node, AmfOutputView::BadPdu(e)),
            Ok(msg) => {
                let step = ngap_step(node.amf, msg, rand);
                (
                    AmfNodeView { amf: step.amf, sessions: node.sessions.apply_all_n3(step.events) },
                    AmfOutputView::Processed {
                        summary: summary_of(msg),
                        events: step.events,
                        replies: encoded(step.messages),
                        failed: encode_failure(step.messages),
                    },
                )
            },
        },
    }
}

/// The message in a link event finds the identifiers that it needs.
pub open spec fn event_has_room(amf: AmfView, event: Option<LinkEventView>) -> bool {
    match event {
        Some(LinkEventView::Message(b)) => match wire::message(b) {
            Ok(msg) => has_room_for(amf, msg),
            Err(_) => true,
        },
        _ => true,
    }
}

impl AmfNode {
    /// A node whose UPF is at `upf_ip`, with a subscriber for each of `n_ues`
    /// UEs. The secrets are given in hexadecimal; where one of them is
    /// refused, K first, there is no node.
    pub fn new(upf_ip: [u8; 4], n_ues: u32, k: &str, opc: &str) -> (r: Result<AmfNode, KeyFormatError>)
        ensures
            is_hex_key(k.spec_bytes()) && is_hex_key(opc.spec_bytes()) <==> r is Ok,
            r is Ok ==> r->Ok_0@ == fresh_node(
                upf_ip@,
                n_ues,
                hex_key(k.spec_bytes()),
                hex_key(opc.spec_bytes()),
            ) && r->Ok_0@.amf.world.wf(),
            r is Err ==> refused_key(
                if is_hex_key(k.spec_bytes()) {
                    opc.spec_bytes()
                } else {
                    k.spec_bytes()
                },
                r->Err_0,
            ),
    {
        let k = match key_from_hex(k) {
            Ok(key) => key,
            Err(e) => return Err(e),
        };
        let opc = match key_from_hex(opc) {
            Ok(key) => key,
            Err(e) => return Err(e),
        };
        let mut amf = Amf::new().with_phase_b(upf_ip);
        let ghost fresh = amf@;
        let mut i: u32 = 0;
        assert(amf@ =~= (AmfView { hss: subscribers(0, k@, opc@), ..fresh }));
        while i < n_ues
            invariant
                i <= n_ues,
                amf@ == (AmfView { hss: subscribers(i as nat, k@, opc@), ..fresh }),
            decreases n_ues - i,
        {
            amf.hss_mut().provision(TEST_IMSI + i as u64, k, opc);
            i += 1;
        }
        Ok(AmfNode { amf, sessions: SessionManager::new() })
    }

    /// Whether there is room for every message.
    pub fn has_room(&self) -> (b: bool)
        ensures
            b ==> forall|event: Option<LinkEventView>| #[trigger] event_has_room(self@.amf, event),
            b == (!self@.amf.world.full() && self@.amf.teids.available()),
    {
        self.amf.has_room()
    }

    fn apply_events(&mut self, events: &Vec<N3Event>)
        ensures
            final(self)@ == (AmfNodeView {
                sessions: (old(self)@).sessions.apply_all_n3(events_view(events@)),
                ..old(self)@
            }),
    {
        let ghost all = events_view(events@);
        let ghost start = self.sessions@;
        let mut i: usize = 0;
        assert(all.take(0) =~= Seq::<N3EventView>::empty());
        while i < events.len()
            invariant
                i <= events@.len() == all.len(),
                all == events_view(events@),
                self.amf == old(self).amf,
                self.sessions@ == start.apply_all_n3(all.take(i as int)),
            decreases events@.len() - i,
        {
            self.sessions.apply_n3_event(&events[i]);
            assert(all.take(i + 1).drop_last() =~= all.take(i as int));
            assert(all.take(i + 1).last() == events@[i as int]@);
            i += 1;
        }
        assert(all.take(i as int) =~= all);
    }

    /// Processes a link event; `None` is the end of the link. `rand` is the
    /// challenge, in case one goes out.
    pub fn on_link_event(&mut self, event: Option<LinkEvent>, rand: [u8; 16]) -> (out: AmfOutput)
        requires
            old(self)@.amf.world.wf(),
            event_has_room(old(self)@.amf, opt_event(event)),
        ensures
            final(self)@ == node_step(old(self)@, opt_event(event), rand@).0,
            out@ == node_step(old(self)@, opt_event(event), rand@).1,
            out is Processed ==> out->failed is None,
            final(self)@.amf.world.wf(),
    {
        match event {
            None => AmfOutput::Closed,
            Some(LinkEvent::Connected) => AmfOutput::Established,
            Some(LinkEvent::Lost { reason }) => AmfOutput::Lost { reason },
            Some(LinkEvent::Message(b)) => match decode_ngap_pdu(bytes_as_slice(&b)) {
                Err(e) => AmfOutput::BadPdu(e),
                Ok(msg) => {
                    let summary = ngap_summary(&msg);
                    let (messages, events) = self.amf.process_ngap(msg, rand);
                    self.apply_events(&events);
                    let (replies, failed) = encode_all(&messages);
                    proof {
                        lemma_nothing_fails(messages_view(messages@));
                    }
                    AmfOutput::Processed { summary, events, replies, failed }
                },
            },
        }
    }
}

} // verus!
