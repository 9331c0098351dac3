//! [`Mme`]: the state of the MME, and what each S1AP message does to it.

use vstd::prelude::*;

use crate::ecs::{lemma_address_len, live_count, ImsiRegistry, TunnelView, World, WorldView};
use crate::hss::{Hss, SubscriberView};
use crate::mme::attach::{
    attach_step, auth_step, handle_attach_complete, handle_auth_response, handle_security_mode_complete, nothing,
    one_event, security_mode_step, start_attach, starts_attach, takes_teid, upf_view,
};
use crate::mme::detach::{detach_step, handle_detach_request};
use crate::mme::replies::{all_encodable, enb_id_fits, every_reply_is_encodable, keys_are_whole};
use crate::nas::codec::{decode_nas, decode_protected, nas_pdu, NasPdu, NasPduView, SHT_PLAIN};
use crate::nas::ie::high_nibble;
use crate::nas::security::NAS_BEARER;
use crate::octets::{bytes_as_slice, octets_to_u32, octets_u32, to_vec};
use crate::s1ap::messages::{
    InitialContextSetupResponse, InitialContextSetupResponseView, S1apMessage, S1apMessageView,
    UeContextReleaseComplete, UplinkNasTransport, UplinkNasTransportView,
};
use crate::teid::{TeidAllocator, TeidView};

verus! {

/// The first uplink TEID of an MME.
pub const MME_TEID_BASE: u32 = 0x0001_0000;

/// What the user plane is to do.
#[derive(Debug, Clone, Copy)]
pub enum UpfEvent {
    /// Route packets of a new bearer.
    CreateSession { ul_teid: u32, entity_id: u32, imsi: u64, qci: u8, ue_ip: [u8; 4], enb_addr: [u8; 4] },
    /// Send downlink packets of a bearer to this eNodeB, under this TEID.
    UpdateBearer { ul_teid: u32, dl_teid: u32, enb_addr: [u8; 4] },
    /// Forget a bearer.
    RemoveSession { ul_teid: u32 },
}

#[verifier::ext_equal]
pub enum UpfEventView {
    CreateSession { ul_teid: u32, entity_id: u32, imsi: u64, qci: u8, ue_ip: Seq<u8>, enb_addr: Seq<u8> },
    UpdateBearer { ul_teid: u32, dl_teid: u32, enb_addr: Seq<u8> },
    RemoveSession { ul_teid: u32 },
}

impl View for UpfEvent {
    type V = UpfEventView;

    open spec fn view(&self) -> UpfEventView {
        match *self {
            UpfEvent::CreateSession { ul_teid, entity_id, imsi, qci, ue_ip, enb_addr } => UpfEventView::CreateSession {
                ul_teid,
                entity_id,
                imsi,
                qci,
                ue_ip: ue_ip@,
                enb_addr: enb_addr@,
            },
            UpfEvent::UpdateBearer { ul_teid, dl_teid, enb_addr } => UpfEventView::UpdateBearer {
                ul_teid,
                dl_teid,
                enb_addr: enb_addr@,
            },
            UpfEvent::RemoveSession { ul_teid } => UpfEventView::RemoveSession { ul_teid },
        }
    }
}

pub open spec fn messages_view(s: Seq<S1apMessage>) -> Seq<S1apMessageView> {
    s.map_values(|m: S1apMessage| m@)
}

pub open spec fn events_view(s: Seq<UpfEvent>) -> Seq<UpfEventView> {
    s.map_values(|e: UpfEvent| e@)
}

/// The MME: UE contexts, subscriber database, and uplink TEIDs.
///
/// It is in phase 2, where no user plane is involved, unless it was given the
/// address of a gateway.
pub struct Mme {
    world: World,
    registry: ImsiRegistry,
    pub hss: Hss,
    phase3_upf: Option<[u8; 4]>,
    teid_allocator: TeidAllocator,
}

#[verifier::ext_equal]
pub struct MmeView {
    pub world: WorldView,
    pub registry: Map<u64, u32>,
    pub hss: Map<u64, SubscriberView>,
    pub phase3_upf: Option<Seq<u8>>,
    pub teids: TeidView,
}

impl View for Mme {
    type V = MmeView;

    closed spec fn view(&self) -> MmeView {
        MmeView {
            world: self.world@,
            registry: self.registry@,
            hss: self.hss@,
            phase3_upf: upf_view(self.phase3_upf),
            teids: self.teid_allocator@,
        }
    }
}

/// What a message leads to.
#[verifier::ext_equal]
pub struct MmeStep {
    pub mme: MmeView,
    pub messages: Seq<S1apMessageView>,
    pub events: Seq<UpfEventView>,
}

impl MmeView {
    /// A new MME in phase 2.
    pub open spec fn fresh() -> MmeView {
        MmeView {
            world: WorldView::empty(),
            registry: Map::empty(),
            hss: Map::empty(),
            phase3_upf: None,
            teids: TeidView::fresh(MME_TEID_BASE),
        }
    }

    /// Nothing happens.
    pub open spec fn idle(self) -> MmeStep {
        MmeStep { mme: self, messages: Seq::empty(), events: Seq::empty() }
    }
}

// ── UplinkNasTransport ────────────────────────────────────────────────────────

/// The security header type of a NAS PDU: the high nibble of its first octet.
pub open spec fn security_header_type(pdu: Seq<u8>) -> u8 {
    if pdu.len() > 0 {
        (pdu[0] / 16) as u8
    } else {
        SHT_PLAIN
    }
}

/// The plain PDU that an uplink NAS PDU holds, and the world once it is
/// opened. A protected one needs a security context, and its MAC-I must
/// verify.
pub open spec fn opened_uplink(w: WorldView, id: u32, pdu: Seq<u8>) -> (WorldView, Option<Seq<u8>>) {
    if security_header_type(pdu) == SHT_PLAIN {
        (w, Some(pdu))
    } else {
        match w.nas_security(id) {
            None => (w, None),
            Some(ctx) => {
                let (plain, after) = ctx.unsealed_uplink(pdu, NAS_BEARER);
                (w.with_nas_security(id, after), plain)
            },
        }
    }
}

/// What a plain uplink PDU leads to.
pub open spec fn plain_step(mme: MmeView, enb_ue_s1ap_id: u32, id: u32, plain: Seq<u8>) -> MmeStep {
    match nas_pdu(plain) {
        Ok(NasPduView::AuthenticationResponse { .. }) => {
            let (world, messages) = auth_step(mme.world, enb_ue_s1ap_id, id, plain);
            MmeStep { mme: MmeView { world, ..mme }, messages, events: Seq::empty() }
        },
        Ok(NasPduView::SecurityModeComplete) => {
            let step = security_mode_step(mme.world, mme.teids, mme.phase3_upf, enb_ue_s1ap_id, id);
            MmeStep {
                mme: MmeView { world: step.world, teids: step.teids, ..mme },
                messages: step.messages,
                events: step.events,
            }
        },
        Ok(NasPduView::DetachRequest { .. }) => {
            let (world, messages) = detach_step(mme.world, enb_ue_s1ap_id, id, plain);
            MmeStep { mme: MmeView { world, ..mme }, messages, events: Seq::empty() }
        },
        _ => mme.idle(),
    }
}

pub open spec fn uplink_step(mme: MmeView, m: UplinkNasTransportView) -> MmeStep {
    let (world, plain) = opened_uplink(mme.world, m.mme_ue_s1ap_id, m.nas_pdu);
    let opened = MmeView { world, ..mme };
    match plain {
        Some(plain) => plain_step(opened, m.enb_ue_s1ap_id, m.mme_ue_s1ap_id, plain),
        None => opened.idle(),
    }
}

// ── Context setup and release ─────────────────────────────────────────────────

/// The eNodeB has set up a context: its first E-RAB completes the tunnel of
/// the entity, and the gateway is told.
pub open spec fn context_setup_step(mme: MmeView, m: InitialContextSetupResponseView) -> MmeStep {
    let id = m.mme_ue_s1ap_id;
    match mme.world.tunnel(id) {
        Some(t) if m.e_rabs_setup.len() > 0 => {
            let erab = m.e_rabs_setup[0];
            let dl_teid = octets_u32(erab.gtp_teid);
            let enb_addr = erab.transport_layer_addr;
            MmeStep {
                mme: MmeView { world: mme.world.with_tunnel(id, TunnelView { dl_teid, enb_addr, ..t }), ..mme },
                messages: Seq::empty(),
                events: seq![UpfEventView::UpdateBearer { ul_teid: t.ul_teid, dl_teid, enb_addr }],
            }
        },
        _ => mme.idle(),
    }
}

/// The eNodeB has released a context: the IMSI is forgotten, the entity goes,
/// and a TEID that it had is given back. Nothing happens for an entity that
/// is gone already.
pub open spec fn release_step(mme: MmeView, id: u32) -> MmeStep {
    let registry = match mme.world.identity(id) {
        Some(identity) => mme.registry.remove(identity.imsi),
        None => mme.registry,
    };
    let world = mme.world.despawn(id);
    match mme.world.tunnel(id) {
        Some(t) => MmeStep {
            mme: MmeView { world, registry, teids: mme.teids.release(t.ul_teid), ..mme },
            messages: Seq::empty(),
            events: seq![UpfEventView::RemoveSession { ul_teid: t.ul_teid }],
        },
        None => MmeView { world, registry, ..mme }.idle(),
    }
}

/// What an S1AP message leads to. `rand` is the challenge, in case one goes
/// out.
#[verifier::opaque]
pub open spec fn s1ap_step(mme: MmeView, msg: S1apMessageView, rand: Seq<u8>) -> MmeStep {
    match msg {
        S1apMessageView::InitialUeMessage(m) => {
            let step = attach_step(mme.world, mme.registry, mme.hss, m.enb_ue_s1ap_id, m.nas_pdu, m.tai, rand);
            MmeStep {
                mme: MmeView { world: step.world, registry: step.registry, hss: step.hss, ..mme },
                messages: step.messages,
                events: Seq::empty(),
            }
        },
        S1apMessageView::UplinkNasTransport(m) => uplink_step(mme, m),
        S1apMessageView::InitialContextSetupResponse(m) => context_setup_step(mme, m),
        S1apMessageView::UeContextReleaseComplete { mme_ue_s1ap_id, .. } => release_step(mme, mme_ue_s1ap_id),
        _ => mme.idle(),
    }
}

/// A plain uplink PDU finds the TEID that it needs, if any.
pub open spec fn plain_has_room(mme: MmeView, id: u32, plain: Seq<u8>) -> bool {
    nas_pdu(plain) == Ok::<NasPduView, crate::error::ProtoError>(NasPduView::SecurityModeComplete) && takes_teid(
        mme.world,
        id,
        mme.phase3_upf,
    ) ==> mme.teids.available()
}

/// A message finds the identifiers that it needs, if any: an entity for an
/// attach that starts, a TEID for a bearer that is set up.
pub open spec fn has_room_for(mme: MmeView, msg: S1apMessageView) -> bool {
    match msg {
        S1apMessageView::InitialUeMessage(m) => starts_attach(mme.hss, m.nas_pdu) ==> !mme.world.full(),
        S1apMessageView::UplinkNasTransport(m) => {
            let (world, plain) = opened_uplink(mme.world, m.mme_ue_s1ap_id, m.nas_pdu);
            plain is Some ==> plain_has_room(MmeView { world, ..mme }, m.mme_ue_s1ap_id, plain->0)
        },
        _ => true,
    }
}

impl Mme {
    /// An MME without subscribers, in phase 2.
    pub fn new() -> (mme: Self)
        ensures
            mme@ == MmeView::fresh(),
            mme@.world.wf(),
    {
        Mme {
            world: World::new(),
            registry: ImsiRegistry::new(),
            hss: Hss::new(),
            phase3_upf: None,
            teid_allocator: TeidAllocator::new(MME_TEID_BASE),
        }
    }

    /// Switches to phase 3: an attach comes with an EPS bearer through the
    /// gateway at `upf_addr`.
    pub fn with_phase3(self, upf_addr: [u8; 4]) -> (mme: Self)
        ensures
            mme@ == (MmeView { phase3_upf: Some(upf_addr@), ..self@ }),
    {
        let mut mme = self;
        mme.phase3_upf = Some(upf_addr);
        mme
    }

    /// The subscriber database.
    pub fn hss_mut(&mut self) -> (hss: &mut Hss)
        ensures
            hss@ == (old(self)@).hss,
            final(self)@ == (MmeView { hss: final(hss)@, ..old(self)@ }),
    {
        &mut self.hss
    }

    /// The UE contexts.
    pub fn world(&self) -> (world: &World)
        ensures
            world@ == self@.world,
    {
        &self.world
    }

    /// How many TEIDs were given back and wait to be given out again.
    pub fn free_teid_count(&self) -> (n: usize)
        ensures
            n == self@.teids.free.len(),
    {
        self.teid_allocator.free_count()
    }

    /// How many UE contexts there are.
    pub fn subscriber_count(&self) -> (n: usize)
        ensures
            n == live_count(self@.world.slots),
    {
        self.world.subscriber_count()
    }

    /// Whether there are an entity identifier and a TEID to give out. Then
    /// there is room for every message.
    pub fn has_room(&self) -> (b: bool)
        ensures
            b == (!self@.world.full() && self@.teids.available()),
            b ==> forall|msg: S1apMessageView| #[trigger] has_room_for(self@, msg),
    {
        !self.world.is_full() && self.teid_allocator.is_available()
    }

    /// Processes an S1AP message: what goes back to the eNodeB, and what the
    /// user plane is to do. `rand` is the challenge, in case one goes out; it
    /// should be unpredictable.
    pub fn process_s1ap(&mut self, msg: S1apMessage, rand: [u8; 16]) -> (r: (Vec<S1apMessage>, Vec<UpfEvent>))
        requires
            old(self)@.world.wf(),
            has_room_for(old(self)@, msg@),
        ensures
            ({
                let step = s1ap_step(old(self)@, msg@, rand@);
                &&& final(self)@ == step.mme
                &&& messages_view(r.0@) == step.messages
                &&& events_view(r.1@) == step.events
            }),
            enb_id_fits(msg@) ==> all_encodable(messages_view(r.0@)),
            final(self)@.world.wf(),
    {
        let ghost m = msg@;
        let r = self.take_message(msg, rand);
        proof {
            assert(keys_are_whole(messages_view(r.0@))) by {
                assert forall|i: int|
                    0 <= i < r.0@.len() && (#[trigger] messages_view(r.0@)[i]) is InitialContextSetupRequest implies (
                messages_view(r.0@)[i]->InitialContextSetupRequest_0).security_key.len() == 32 by {
                    assert(r.0@[i] is InitialContextSetupRequest);
                }
            }
            if enb_id_fits(m) {
                lemma_address_len(old(self).world);
                every_reply_is_encodable(old(self)@, m, rand@);
            }
        }
        r
    }

    fn take_message(&mut self, msg: S1apMessage, rand: [u8; 16]) -> (r: (Vec<S1apMessage>, Vec<UpfEvent>))
        requires
            old(self)@.world.wf(),
            has_room_for(old(self)@, msg@),
        ensures
            ({
                let step = s1ap_step(old(self)@, msg@, rand@);
                &&& final(self)@ == step.mme
                &&& messages_view(r.0@) == step.messages
                &&& events_view(r.1@) == step.events
            }),
            final(self)@.world.wf(),
    {
        proof {
            reveal(s1ap_step);
        }
        match msg {
            S1apMessage::InitialUeMessage(m) => start_attach(
                &mut self.world,
                &mut self.registry,
                &mut self.hss,
                m.enb_ue_s1ap_id,
                bytes_as_slice(&m.nas_pdu),
                m.tai,
                rand,
            ),
            S1apMessage::UplinkNasTransport(m) => self.handle_uplink_nas(m),
            S1apMessage::InitialContextSetupResponse(m) => self.handle_icsrsp(m),
            S1apMessage::UeContextReleaseComplete(m) => self.handle_release_complete(m),
            _ => nothing(),
        }
    }

    /// Opens the NAS PDU of an UplinkNasTransport, and goes by its type.
    fn handle_uplink_nas(&mut self, m: UplinkNasTransport) -> (r: (Vec<S1apMessage>, Vec<UpfEvent>))
        requires
            old(self)@.world.wf(),
            has_room_for(old(self)@, S1apMessageView::UplinkNasTransport(m@)),
        ensures
            ({
                let step = uplink_step(old(self)@, m@);
                &&& final(self)@ == step.mme
                &&& messages_view(r.0@) == step.messages
                &&& events_view(r.1@) == step.events
            }),
            final(self)@.world.wf(),
    {
        let nas_pdu = bytes_as_slice(&m.nas_pdu);
        let sht = if nas_pdu.len() > 0 {
            high_nibble(nas_pdu[0])
        } else {
            SHT_PLAIN
        };
        let plain: Vec<u8> = if sht == SHT_PLAIN {
            to_vec(nas_pdu)
        } else {
            let ctx = match self.world.nas_security_mut(m.mme_ue_s1ap_id) {
                Some(c) => c,
                None => return nothing(),
            };
            match decode_protected(ctx, nas_pdu, NAS_BEARER) {
                Some(inner) => inner,
                None => return nothing(),
            }
        };
        self.handle_plain_nas(m.enb_ue_s1ap_id, m.mme_ue_s1ap_id, plain.as_slice())
    }

    /// Takes a plain uplink PDU to its step of the procedures.
    fn handle_plain_nas(&mut self, enb_ue_s1ap_id: u32, mme_ue_s1ap_id: u32, plain: &[u8]) -> (r: (
        Vec<S1apMessage>,
        Vec<UpfEvent>,
    ))
        requires
            old(self)@.world.wf(),
            plain_has_room(old(self)@, mme_ue_s1ap_id, plain@),
        ensures
            ({
                let step = plain_step(old(self)@, enb_ue_s1ap_id, mme_ue_s1ap_id, plain@);
                &&& final(self)@ == step.mme
                &&& messages_view(r.0@) == step.messages
                &&& events_view(r.1@) == step.events
            }),
            final(self)@.world.wf(),
    {
        match decode_nas(plain) {
            Ok(NasPdu::AuthenticationResponse(_)) => handle_auth_response(
                &mut self.world,
                enb_ue_s1ap_id,
                mme_ue_s1ap_id,
                plain,
            ),
            Ok(NasPdu::SecurityModeComplete) => handle_security_mode_complete(
                &mut self.world,
                enb_ue_s1ap_id,
                mme_ue_s1ap_id,
                self.phase3_upf,
                &mut self.teid_allocator,
            ),
            Ok(NasPdu::AttachComplete) => handle_attach_complete(&mut self.world, mme_ue_s1ap_id),
            Ok(NasPdu::DetachRequest(_)) => {
                let responses = handle_detach_request(&mut self.world, enb_ue_s1ap_id, mme_ue_s1ap_id, plain);
                let (_, events) = nothing();
                (responses, events)
            },
            _ => nothing(),
        }
    }

    fn handle_icsrsp(&mut self, m: InitialContextSetupResponse) -> (r: (Vec<S1apMessage>, Vec<UpfEvent>))
        requires
            old(self)@.world.wf(),
        ensures
            ({
                let step = context_setup_step(old(self)@, m@);
                &&& final(self)@ == step.mme
                &&& messages_view(r.0@) == step.messages
                &&& events_view(r.1@) == step.events
            }),
            final(self)@.world.wf(),
    {
        if m.e_rabs_setup.len() == 0 {
            return nothing();
        }
        let erab = &m.e_rabs_setup[0];
        let dl_teid = octets_to_u32(&erab.gtp_teid);
        let enb_addr = erab.transport_layer_addr;
        if let Some(t) = self.world.tunnel_mut(m.mme_ue_s1ap_id) {
            let ul_teid = t.ul_teid;
            t.dl_teid = dl_teid;
            t.enb_addr = enb_addr;
            return one_event(UpfEvent::UpdateBearer { ul_teid, dl_teid, enb_addr });
        }
        nothing()
    }

    fn handle_release_complete(&mut self, m: UeContextReleaseComplete) -> (r: (Vec<S1apMessage>, Vec<UpfEvent>))
        requires
            old(self)@.world.wf(),
        ensures
            ({
                let step = release_step(old(self)@, m.mme_ue_s1ap_id);
                &&& final(self)@ == step.mme
                &&& messages_view(r.0@) == step.messages
                &&& events_view(r.1@) == step.events
            }),
            final(self)@.world.wf(),
    {
        let entity = m.mme_ue_s1ap_id;
        let ul_teid = match self.world.tunnel(entity) {
            Some(t) => Some(t.ul_teid),
            None => None,
        };
        if let Some(identity) = self.world.identity(entity) {
            let imsi = identity.imsi;
            self.registry.deregister(imsi);
        }
        self.world.despawn(entity);
        match ul_teid {
            Some(t) => {
                self.teid_allocator.release(t);
                one_event(UpfEvent::RemoveSession { ul_teid: t })
            },
            None => nothing(),
        }
    }
}

} // verus!
