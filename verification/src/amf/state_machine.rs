//! [`Amf`]: the state of the AMF, and what each NGAP message does to it.

use vstd::prelude::*;

use crate::amf::deregistration::{deregistration_step, handle_deregistration_request};
use crate::amf::registration::{
    auth_step, handle_auth_response, handle_identity_response, handle_registration_complete,
    handle_security_mode_complete, identity_step, nothing, one_event, registration_step, security_mode_step,
    start_registration, starts_registration, takes_teid, upf_view,
};
use crate::amf::replies::{all_encodable, every_reply_is_encodable, keys_are_whole};
use crate::ecs::{live_count, ImsiRegistry, TunnelView, World, WorldView};
use crate::hss::{Hss, SubscriberView};
use crate::nas::ie::low_nibble;
use crate::nas5gs::codec::{
    decode_nas5gs, decode_protected, nas5gs_pdu, unsealed_uplink, Nas5gsPdu, Nas5gsPduView, NAS5GS_SHT_PLAIN,
};
use crate::ngap::messages::{
    InitialContextSetupResponseView, NgapInitialContextSetupResponse, NgapMessage, NgapMessageView,
    NgapUeContextReleaseComplete, NgapUplinkNasTransport, UplinkNasTransportView,
};
use crate::octets::{bytes_as_slice, octets_to_u32, octets_u32, to_vec};
use crate::teid::{TeidAllocator, TeidView};

verus! {

/// The first uplink TEID of an AMF.
pub const AMF_TEID_BASE: u32 = 0x0002_0000;

/// What the user plane is to do.
#[derive(Debug, Clone, Copy)]
pub enum N3Event {
    /// Route packets of a new PDU session.
    CreateSession {
        ul_teid: u32,
        entity_id: u32,
        imsi: u64,
        pdu_session_id: u8,
        qfi: u8,
        ue_ip: [u8; 4],
        gnb_addr: [u8; 4],
    },
    /// Send downlink packets of a session to this gNodeB, under this TEID.
    UpdateBearer { ul_teid: u32, dl_teid: u32, gnb_addr: [u8; 4] },
    /// Forget a session.
    RemoveSession { ul_teid: u32 },
}

#[verifier::ext_equal]
pub enum N3EventView {
    CreateSession {
        ul_teid: u32,
        entity_id: u32,
        imsi: u64,
        pdu_session_id: u8,
        qfi: u8,
        ue_ip: Seq<u8>,
        gnb_addr: Seq<u8>,
    },
    UpdateBearer { ul_teid: u32, dl_teid: u32, gnb_addr: Seq<u8> },
    RemoveSession { ul_teid: u32 },
}

impl View for N3Event {
    type V = N3EventView;

    open spec fn view(&self) -> N3EventView {
        match *self {
            N3Event::CreateSession { ul_teid, entity_id, imsi, pdu_session_id, qfi, ue_ip, gnb_addr } =>
                N3EventView::CreateSession {
                ul_teid,
                entity_id,
                imsi,
                pdu_session_id,
                qfi,
                ue_ip: ue_ip@,
                gnb_addr: gnb_addr@,
            },
            N3Event::UpdateBearer { ul_teid, dl_teid, gnb_addr } => N3EventView::UpdateBearer {
                ul_teid,
                dl_teid,
                gnb_addr: gnb_addr@,
            },
            N3Event::RemoveSession { ul_teid } => N3EventView::RemoveSession { ul_teid },
        }
    }
}

pub open spec fn messages_view(s: Seq<NgapMessage>) -> Seq<NgapMessageView> {
    s.map_values(|m: NgapMessage| m@)
}

pub open spec fn events_view(s: Seq<N3Event>) -> Seq<N3EventView> {
    s.map_values(|e: N3Event| e@)
}

/// The AMF: UE contexts, subscriber database, and uplink TEIDs.
///
/// It is in phase A, where no user plane is involved, unless it was given the
/// address of a UPF.
pub struct Amf {
    world: World,
    registry: ImsiRegistry,
    pub hss: Hss,
    phase_b_upf: Option<[u8; 4]>,
    teid_allocator: TeidAllocator,
}

#[verifier::ext_equal]
pub struct AmfView {
    pub world: WorldView,
    pub registry: Map<u64, u32>,
    pub hss: Map<u64, SubscriberView>,
    pub phase_b_upf: Option<Seq<u8>>,
    pub teids: TeidView,
}

impl View for Amf {
    type V = AmfView;

    closed spec fn view(&self) -> AmfView {
        AmfView {
            world: self.world@,
            registry: self.registry@,
            hss: self.hss@,
            phase_b_upf: upf_view(self.phase_b_upf),
            teids: self.teid_allocator@,
        }
    }
}

/// What a message leads to.
#[verifier::ext_equal]
pub struct AmfStep {
    pub amf: AmfView,
    pub messages: Seq<NgapMessageView>,
    pub events: Seq<N3EventView>,
}

impl AmfView {
    /// A new AMF in phase A.
    pub open spec fn fresh() -> AmfView {
        AmfView {
            world: WorldView::empty(),
            registry: Map::empty(),
            hss: Map::empty(),
            phase_b_upf: None,
            teids: TeidView::fresh(AMF_TEID_BASE),
        }
    }

    /// Nothing happens.
    pub open spec fn idle(self) -> AmfStep {
        AmfStep { amf: self, messages: Seq::empty(), events: Seq::empty() }
    }
}

// ── UplinkNasTransport ────────────────────────────────────────────────────────

/// The security header type of a NAS PDU: the low nibble of its second octet.
pub open spec fn security_header_type(nas_pdu: Seq<u8>) -> u8 {
    if nas_pdu.len() > 1 {
        (nas_pdu[1] % 16) as u8
    } else {
        NAS5GS_SHT_PLAIN
    }
}

/// The plain PDU that an uplink NAS PDU holds, and the world once it is
/// opened. A protected one needs a security context, and its MAC-I must
/// verify.
pub open spec fn opened_uplink(w: WorldView, id: u32, nas_pdu: Seq<u8>) -> (WorldView, Option<Seq<u8>>) {
    if security_header_type(nas_pdu) == NAS5GS_SHT_PLAIN {
        (w, Some(nas_pdu))
    } else {
        match w.nas_security5g(id) {
            None => (w, None),
            Some(ctx) => {
                let (plain, after) = unsealed_uplink(ctx, nas_pdu);
                (w.with_nas_security5g(id, after), plain)
            },
        }
    }
}

/// What a plain uplink PDU leads to.
pub open spec fn plain_step(amf: AmfView, ran_ue_ngap_id: u32, id: u32, plain: Seq<u8>, rand: Seq<u8>) -> AmfStep {
    match nas5gs_pdu(plain) {
        Ok(Nas5gsPduView::IdentityResponse { .. }) => {
            let step = identity_step(amf.world, amf.registry, amf.hss, ran_ue_ngap_id, id, plain, rand);
            AmfStep {
                amf: AmfView { world: step.world, registry: step.registry, hss: step.hss, ..amf },
                messages: step.messages,
                events: Seq::empty(),
            }
        },
        Ok(Nas5gsPduView::AuthenticationResponse { .. }) => {
            let (world, messages) = auth_step(amf.world, ran_ue_ngap_id, id, plain);
            AmfStep { amf: AmfView { world, ..amf }, messages, events: Seq::empty() }
        },
        Ok(Nas5gsPduView::SecurityModeComplete) => {
            let step = security_mode_step(amf.world, amf.teids, amf.phase_b_upf, ran_ue_ngap_id, id);
            AmfStep {
                amf: AmfView { world: step.world, teids: step.teids, ..amf },
                messages: step.messages,
                events: step.events,
            }
        },
        Ok(Nas5gsPduView::DeregistrationRequest { .. }) => {
            let (world, messages) = deregistration_step(amf.world, ran_ue_ngap_id, id, plain);
            AmfStep { amf: AmfView { world, ..amf }, messages, events: Seq::empty() }
        },
        _ => amf.idle(),
    }
}

pub open spec fn uplink_step(amf: AmfView, m: UplinkNasTransportView, rand: Seq<u8>) -> AmfStep {
    let (world, plain) = opened_uplink(amf.world, m.amf_ue_ngap_id, m.nas_pdu);
    let opened = AmfView { world, ..amf };
    match plain {
        Some(plain) => plain_step(opened, m.ran_ue_ngap_id, m.amf_ue_ngap_id, plain, rand),
        None => opened.idle(),
    }
}

// ── Context setup and release ─────────────────────────────────────────────────

/// The gNodeB has set up a context: its first PDU session completes the
/// tunnel of the entity, and the UPF is told.
pub open spec fn context_setup_step(amf: AmfView, m: InitialContextSetupResponseView) -> AmfStep {
    let id = m.amf_ue_ngap_id;
    match amf.world.tunnel(id) {
        Some(t) if m.pdu_sessions_setup.len() > 0 => {
            let session = m.pdu_sessions_setup[0];
            let dl_teid = octets_u32(session.gtp_teid);
            let gnb_addr = session.transport_layer_addr;
            AmfStep {
                amf: AmfView {
                    world: amf.world.with_tunnel(id, TunnelView { dl_teid, enb_addr: gnb_addr, ..t }),
                    ..amf
                },
                messages: Seq::empty(),
                events: seq![N3EventView::UpdateBearer { ul_teid: t.ul_teid, dl_teid, gnb_addr }],
            }
        },
        _ => amf.idle(),
    }
}

/// The gNodeB has released a context: the IMSI is forgotten, the entity goes,
/// and a TEID that it had is given back. Nothing happens for an entity that
/// is gone already.
pub open spec fn release_step(amf: AmfView, id: u32) -> AmfStep {
    let registry = match amf.world.identity(id) {
        Some(identity) => amf.registry.remove(identity.imsi),
        None => amf.registry,
    };
    let world = amf.world.despawn(id);
    match amf.world.tunnel(id) {
        Some(t) => AmfStep {
            amf: AmfView { world, registry, teids: amf.teids.release(t.ul_teid), ..amf },
            messages: Seq::empty(),
            events: seq![N3EventView::RemoveSession { ul_teid: t.ul_teid }],
        },
        None => AmfView { world, registry, ..amf }.idle(),
    }
}

/// What an NGAP message leads to. `rand` is the challenge, in case one goes
/// out.
#[verifier::opaque]
pub open spec fn ngap_step(amf: AmfView, msg: NgapMessageView, rand: Seq<u8>) -> AmfStep {
    match msg {
        NgapMessageView::InitialUeMessage(m) => {
            let (world, messages) = registration_step(amf.world, m.ran_ue_ngap_id, m.nas_pdu, m.tai);
            AmfStep { amf: AmfView { world, ..amf }, messages, events: Seq::empty() }
        },
        NgapMessageView::UplinkNasTransport(m) => uplink_step(amf, m, rand),
        NgapMessageView::InitialContextSetupResponse(m) => context_setup_step(amf, m),
        NgapMessageView::UeContextReleaseComplete(m) => release_step(amf, m.amf_ue_ngap_id),
        _ => amf.idle(),
    }
}

/// A plain uplink PDU finds the TEID that it needs, if any.
pub open spec fn plain_has_room(amf: AmfView, id: u32, plain: Seq<u8>) -> bool {
    nas5gs_pdu(plain) == Ok::<Nas5gsPduView, crate::error::ProtoError>(Nas5gsPduView::SecurityModeComplete)
        && takes_teid(amf.world, id, amf.phase_b_upf) ==> amf.teids.available()
}

/// A message finds the identifiers that it needs, if any: an entity for a
/// registration that starts, a TEID for a session that is set up.
pub open spec fn has_room_for(amf: AmfView, msg: NgapMessageView) -> bool {
    match msg {
        NgapMessageView::InitialUeMessage(m) => starts_registration(m.nas_pdu) ==> !amf.world.full(),
        NgapMessageView::UplinkNasTransport(m) => {
            let (world, plain) = opened_uplink(amf.world, m.amf_ue_ngap_id, m.nas_pdu);
            plain is Some ==> plain_has_room(AmfView { world, ..amf }, m.amf_ue_ngap_id, plain->0)
        },
        _ => true,
    }
}

impl Amf {
    /// An AMF without subscribers, in phase A.
    pub fn new() -> (amf: Self)
        ensures
            amf@ == AmfView::fresh(),
            amf@.world.wf(),
    {
        Amf {
            world: World::new(),
            registry: ImsiRegistry::new(),
            hss: Hss::new(),
            phase_b_upf: None,
            teid_allocator: TeidAllocator::new(AMF_TEID_BASE),
        }
    }

    /// Switches to phase B: registrations come with a PDU session through the
    /// UPF at `upf_addr`.
    pub fn with_phase_b(self, upf_addr: [u8; 4]) -> (amf: Self)
        ensures
            amf@ == (AmfView { phase_b_upf: Some(upf_addr@), ..self@ }),
    {
        let mut amf = self;
        amf.phase_b_upf = Some(upf_addr);
        amf
    }

    /// The subscriber database.
    pub fn hss_mut(&mut self) -> (hss: &mut Hss)
        ensures
            hss@ == (old(self)@).hss,
            final(self)@ == (AmfView { hss: final(hss)@, ..old(self)@ }),
    {
        &mut self.hss
    }

    /// The UE contexts.
    pub fn world(&self) -> (world: &World)
        ensures
            world@ == self@.world,
    {
        &self.world
    }

    pub fn alloc_ul_teid(&mut self) -> (teid: u32)
        requires
            old(self)@.teids.available(),
        ensures
            teid == (old(self)@).teids.first(),
            final(self)@ == (AmfView { teids: (old(self)@).teids.taken(), ..old(self)@ }),
    {
        self.teid_allocator.allocate()
    }

    pub fn release_ul_teid(&mut self, teid: u32)
        ensures
            final(self)@ == (AmfView { teids: (old(self)@).teids.release(teid), ..old(self)@ }),
    {
        self.teid_allocator.release(teid);
    }

    /// How many TEIDs were given back and wait to be given out again.
    pub fn free_teid_count(&self) -> (n: usize)
        ensures
            n == self@.teids.free.len(),
    {
        self.teid_allocator.free_count()
    }

    /// How many UE contexts there are.
    pub fn subscriber_count(&self) -> (n: usize)
        ensures
            n == live_count(self@.world.slots),
    {
        self.world.subscriber_count()
    }

    /// Whether there are an entity identifier and a TEID to give out. Then
    /// there is room for every message.
    pub fn has_room(&self) -> (b: bool)
        ensures
            b == (!self@.world.full() && self@.teids.available()),
            b ==> forall|msg: NgapMessageView| #[trigger] has_room_for(self@, msg),
    {
        !self.world.is_full() && self.teid_allocator.is_available()
    }

    /// Processes an NGAP message: what goes back to the gNodeB, and what the
    /// user plane is to do. `rand` is the challenge, in case one goes out; it
    /// should be unpredictable.
    pub fn process_ngap(&mut self, msg: NgapMessage, rand: [u8; 16]) -> (r: (Vec<NgapMessage>, Vec<N3Event>))
        requires
            old(self)@.world.wf(),
            has_room_for(old(self)@, msg@),
        ensures
            ({
                let step = ngap_step(old(self)@, msg@, rand@);
                &&& final(self)@ == step.amf
                &&& messages_view(r.0@) == step.messages
                &&& events_view(r.1@) == step.events
            }),
            all_encodable(messages_view(r.0@)),
            final(self)@.world.wf(),
    {
        let ghost m = msg@;
        let r = self.take_message(msg, rand);
        proof {
            assert(keys_are_whole(messages_view(r.0@))) by {
                assert forall|i: int|
                    0 <= i < r.0@.len() && (#[trigger] messages_view(r.0@)[i]) is InitialContextSetupRequest implies (
                messages_view(r.0@)[i]->InitialContextSetupRequest_0).security_key.len() == 32 by {
                    assert(r.0@[i] is InitialContextSetupRequest);
                }
            }
            every_reply_is_encodable(old(self)@, m, rand@);
        }
        r
    }

    fn take_message(&mut self, msg: NgapMessage, rand: [u8; 16]) -> (r: (Vec<NgapMessage>, Vec<N3Event>))
        requires
            old(self)@.world.wf(),
            has_room_for(old(self)@, msg@),
        ensures
            ({
                let step = ngap_step(old(self)@, msg@, rand@);
                &&& final(self)@ == step.amf
                &&& messages_view(r.0@) == step.messages
                &&& events_view(r.1@) == step.events
            }),
            final(self)@.world.wf(),
    {
        proof {
            reveal(ngap_step);
        }
        match msg {
            NgapMessage::InitialUeMessage(m) => start_registration(
                &mut self.world,
                m.ran_ue_ngap_id,
                bytes_as_slice(&m.nas_pdu),
                m.tai,
            ),
            NgapMessage::UplinkNasTransport(m) => self.handle_uplink_nas(m, rand),
            NgapMessage::InitialContextSetupResponse(m) => self.handle_ics_response(m),
            NgapMessage::UeContextReleaseComplete(m) => self.handle_release_complete(m),
            _ => nothing(),
        }
    }

    /// Opens the NAS PDU of an UplinkNasTransport, and goes by its type.
    fn handle_uplink_nas(&mut self, m: NgapUplinkNasTransport, rand: [u8; 16]) -> (r: (
        Vec<NgapMessage>,
        Vec<N3Event>,
    ))
        requires
            old(self)@.world.wf(),
            has_room_for(old(self)@, NgapMessageView::UplinkNasTransport(m@)),
        ensures
            ({
                let step = uplink_step(old(self)@, m@, rand@);
                &&& final(self)@ == step.amf
                &&& messages_view(r.0@) == step.messages
                &&& events_view(r.1@) == step.events
            }),
            final(self)@.world.wf(),
    {
        let nas_pdu = bytes_as_slice(&m.nas_pdu);
        let sht = if nas_pdu.len() > 1 {
            low_nibble(nas_pdu[1])
        } else {
            NAS5GS_SHT_PLAIN
        };
        let plain: Vec<u8> = if sht == NAS5GS_SHT_PLAIN {
            to_vec(nas_pdu)
        } else {
            let ctx = match self.world.nas_security5g_mut(m.amf_ue_ngap_id) {
                Some(c) => c,
                None => return nothing(),
            };
            match decode_protected(ctx, nas_pdu) {
                Some(inner) => inner,
                None => return nothing(),
            }
        };
        self.handle_plain_nas(m.ran_ue_ngap_id, m.amf_ue_ngap_id, plain.as_slice(), rand)
    }

    /// Takes a plain uplink PDU to its step of the procedures.
    fn handle_plain_nas(&mut self, ran_ue_ngap_id: u32, amf_ue_ngap_id: u32, plain: &[u8], rand: [u8; 16]) -> (r: (
        Vec<NgapMessage>,
        Vec<N3Event>,
    ))
        requires
            old(self)@.world.wf(),
            plain_has_room(old(self)@, amf_ue_ngap_id, plain@),
        ensures
            ({
                let step = plain_step(old(self)@, ran_ue_ngap_id, amf_ue_ngap_id, plain@, rand@);
                &&& final(self)@ == step.amf
                &&& messages_view(r.0@) == step.messages
                &&& events_view(r.1@) == step.events
            }),
            final(self)@.world.wf(),
    {
        match decode_nas5gs(plain) {
            Ok(Nas5gsPdu::IdentityResponse(_)) => handle_identity_response(
                &mut self.world,
                &mut self.registry,
                &mut self.hss,
                ran_ue_ngap_id,
                amf_ue_ngap_id,
                plain,
                rand,
            ),
            Ok(Nas5gsPdu::AuthenticationResponse(_)) => handle_auth_response(
                &mut self.world,
                ran_ue_ngap_id,
                amf_ue_ngap_id,
                plain,
            ),
            Ok(Nas5gsPdu::SecurityModeComplete) => handle_security_mode_complete(
                &mut self.world,
                ran_ue_ngap_id,
                amf_ue_ngap_id,
                self.phase_b_upf,
                &mut self.teid_allocator,
            ),
            Ok(Nas5gsPdu::RegistrationComplete) => handle_registration_complete(&mut self.world, amf_ue_ngap_id),
            Ok(Nas5gsPdu::DeregistrationRequest { .. }) => {
                let responses = handle_deregistration_request(
                    &mut self.world,
                    ran_ue_ngap_id,
                    amf_ue_ngap_id,
                    plain,
                );
                let (_, events) = nothing();
                (responses, events)
            },
            _ => nothing(),
        }
    }

    fn handle_ics_response(&mut self, m: NgapInitialContextSetupResponse) -> (r: (Vec<NgapMessage>, Vec<N3Event>))
        requires
            old(self)@.world.wf(),
        ensures
            ({
                let step = context_setup_step(old(self)@, m@);
                &&& final(self)@ == step.amf
                &&& messages_view(r.0@) == step.messages
                &&& events_view(r.1@) == step.events
            }),
            final(self)@.world.wf(),
    {
        if m.pdu_sessions_setup.len() == 0 {
            return nothing();
        }
        let session = &m.pdu_sessions_setup[0];
        let dl_teid = octets_to_u32(&session.gtp_teid);
        let gnb_addr = session.transport_layer_addr;
        if let Some(t) = self.world.tunnel_mut(m.amf_ue_ngap_id) {
            let ul_teid = t.ul_teid;
            t.dl_teid = dl_teid;
            t.enb_addr = gnb_addr;
            return one_event(N3Event::UpdateBearer { ul_teid, dl_teid, gnb_addr });
        }
        nothing()
    }

    fn handle_release_complete(&mut self, m: NgapUeContextReleaseComplete) -> (r: (Vec<NgapMessage>, Vec<N3Event>))
        requires
            old(self)@.world.wf(),
        ensures
            ({
                let step = release_step(old(self)@, m.amf_ue_ngap_id);
                &&& final(self)@ == step.amf
                &&& messages_view(r.0@) == step.messages
                &&& events_view(r.1@) == step.events
            }),
            final(self)@.world.wf(),
    {
        let entity = m.amf_ue_ngap_id;
        let ul_teid = match self.world.tunnel(entity) {
            Some(t) => Some(t.ul_teid),
            None => None,
        };
        if let Some(identity) = self.world.identity(entity) {
            let imsi = identity.imsi;
            self.registry.deregister(imsi);
        }
        self.world.despawn(entity);
        match ul_teid {
            Some(t) => {
                self.teid_allocator.release(t);
                one_event(N3Event::RemoveSession { ul_teid: t })
            },
            None => nothing(),
        }
    }
}

impl Default for Amf {
    fn default() -> (amf: Self)
        ensures
            amf@ == AmfView::fresh(),
            amf@.world.wf(),
    {
        Amf::new()
    }
}

} // verus!
