//! The attach procedure (TS 23.401, 5.3.2).
//!
//! | Step | Message                            | Handler                         |
//! |------|------------------------------------|---------------------------------|
//! | 1    | InitialUeMessage(AttachRequest)    | `start_attach`                  |
//! | 2    | UplinkNas(AuthenticationResponse)  | `handle_auth_response`          |
//! | 3    | UplinkNas(SecurityModeComplete)    | `handle_security_mode_complete` |
//! | 4    | UplinkNas(AttachComplete)          | `handle_attach_complete`        |
//!
//! A message that does not fit is dropped without a reply. AttachAccept goes
//! out in a DownlinkNasTransport (phase 2), or with a default EPS bearer in an
//! InitialContextSetupRequest (phase 3).

use vstd::prelude::*;

use crate::crypto::ct_eq;
use crate::ecs::{
    zeros, AuthFailReason, AuthState, IdentityComponent, IdentityView, ImsiRegistry, SecurityContext, SecurityView,
    TunnelComponent, TunnelView, World, WorldView,
};
use crate::hss::{after_vector, amf_field, auth_info, Hss, SubscriberView, MILENAGE_AMF_FIELD};
use crate::kdf::{derive_kasme, kasme};
use crate::milenage::{autn_octets, mask_sqn, masked_sqn};
use crate::mme::state_machine::{events_view, messages_view, UpfEvent, UpfEventView};
use crate::nas::codec::{
    attach_accept_octets, auth_request_octets, decode_nas, encode_attach_accept, encode_auth_request, encode_protected,
    encode_sec_mode_cmd, nas_pdu, sec_mode_cmd_octets, NasPdu, NasPduView, SHT_INTEGRITY_CIPHERED,
};
use crate::nas::ie::{NasEeaAlgorithm, NasEiaAlgorithm};
use crate::nas::security::{
    nas_key, NasSecurityContext, NasSecurityContextView, ALGO_DISTINGUISHER_NAS_ENC, ALGO_DISTINGUISHER_NAS_INT,
    NAS_BEARER,
};
use crate::octets::{bytes_as_slice, u32_octets, u32_to_octets};
use crate::s1ap::messages::{
    DownlinkNasTransport, DownlinkNasTransportView, ErabToSetup, ErabToSetupView, InitialContextSetupRequest,
    InitialContextSetupRequestView, S1apMessage, S1apMessageView,
};
use crate::teid::{TeidAllocator, TeidView};

verus! {

/// The ciphering algorithm that is always selected.
pub const SELECTED_EEA: NasEeaAlgorithm = NasEeaAlgorithm::Eea2;

/// The integrity algorithm that is always selected.
pub const SELECTED_EIA: NasEiaAlgorithm = NasEiaAlgorithm::Eia2;

/// The UE security capabilities that are replayed to every UE.
pub const REPLAYED_UE_SECURITY_CAP: [u8; 2] = [0x20, 0x40];

/// Attach result: EPS only.
pub const ATTACH_RESULT_EPS: u8 = 1;

/// The periodic tracking area update timer: deactivated.
pub const T3412_DEACTIVATED: u8 = 0xE0;

/// The E-RAB that comes with every attach in phase 3.
pub const DEFAULT_ERAB_ID: u8 = 5;

/// The QoS class of that bearer: best effort.
pub const DEFAULT_QCI: u8 = 9;

/// Aggregate maximum bit rate of every UE, in either direction.
pub const DEFAULT_AMBR: u64 = 50_000_000;

pub open spec fn downlink(mme_ue_s1ap_id: u32, enb_ue_s1ap_id: u32, nas_pdu: Seq<u8>) -> S1apMessageView {
    S1apMessageView::DownlinkNasTransport(DownlinkNasTransportView { mme_ue_s1ap_id, enb_ue_s1ap_id, nas_pdu })
}

/// The UE security capabilities, as octets.
pub open spec fn replayed_cap() -> Seq<u8> {
    seq![0x20u8, 0x40]
}

// ── Step 1: AttachRequest ─────────────────────────────────────────────────────

/// The IMSI in an AttachRequest.
pub open spec fn imsi_in(pdu: Seq<u8>) -> Option<u64> {
    match nas_pdu(pdu) {
        Ok(NasPduView::AttachRequest { imsi, .. }) => imsi,
        _ => None,
    }
}

/// An AttachRequest of a subscriber.
pub open spec fn starts_attach(hss: Map<u64, SubscriberView>, pdu: Seq<u8>) -> bool {
    imsi_in(pdu) is Some && hss.contains_key(imsi_in(pdu)->0)
}

/// The key material of an entity whose challenge is out.
pub open spec fn challenged(s: SubscriberView, rand: Seq<u8>, plmn: Seq<u8>) -> SecurityView {
    let info = auth_info(s, rand);
    SecurityView {
        pending_rand: rand,
        pending_xres: info.vector.res,
        ck: info.vector.ck,
        ik: info.vector.ik,
        ak: info.vector.ak,
        plmn,
        sqn_used: info.sqn_used,
    }
}

/// The AuthenticationRequest for a subscriber and a challenge.
pub open spec fn challenge_octets(s: SubscriberView, rand: Seq<u8>) -> Seq<u8> {
    let info = auth_info(s, rand);
    auth_request_octets(
        0,
        rand,
        autn_octets(info.sqn_used, info.vector.ak, amf_field(), info.vector.mac_a),
    )
}

#[verifier::ext_equal]
pub struct AttachStep {
    pub world: WorldView,
    pub registry: Map<u64, u32>,
    pub hss: Map<u64, SubscriberView>,
    pub messages: Seq<S1apMessageView>,
}

/// The world after step 1: a new entity, whose challenge is out.
pub open spec fn attach_world(
    w: WorldView,
    s: SubscriberView,
    imsi: u64,
    enb_ue_s1ap_id: u32,
    tai: Seq<u8>,
    rand: Seq<u8>,
) -> WorldView {
    let id = w.next_id();
    w.spawn().with_identity(id, IdentityView { imsi, enb_ue_s1ap_id, ue_ip: zeros(4) }).with_security(
        id,
        challenged(s, rand, tai.subrange(0, 3)),
    ).with_auth(id, AuthState::ChallengeIssued)
}

/// Step 1.
pub open spec fn attach_step(
    w: WorldView,
    registry: Map<u64, u32>,
    hss: Map<u64, SubscriberView>,
    enb_ue_s1ap_id: u32,
    pdu: Seq<u8>,
    tai: Seq<u8>,
    rand: Seq<u8>,
) -> AttachStep {
    if starts_attach(hss, pdu) {
        let imsi = imsi_in(pdu)->0;
        AttachStep {
            world: attach_world(w, hss[imsi], imsi, enb_ue_s1ap_id, tai, rand),
            registry: registry.insert(imsi, w.next_id()),
            hss: after_vector(hss, imsi),
            messages: seq![downlink(w.next_id(), enb_ue_s1ap_id, challenge_octets(hss[imsi], rand))],
        }
    } else {
        AttachStep { world: w, registry, hss, messages: Seq::empty() }
    }
}

/// An AttachRequest of a known subscriber creates an entity, and the
/// subscriber is challenged with `rand`. The first three octets of `tai` are
/// the serving network. An attach without an IMSI is not supported.
pub fn start_attach(
    world: &mut World,
    registry: &mut ImsiRegistry,
    hss: &mut Hss,
    enb_ue_s1ap_id: u32,
    nas_pdu: &[u8],
    tai: [u8; 5],
    rand: [u8; 16],
) -> (r: (Vec<S1apMessage>, Vec<UpfEvent>))
    requires
        old(world)@.wf(),
        starts_attach(old(hss)@, nas_pdu@) ==> !old(world)@.full(),
    ensures
        ({
            let step = attach_step(
                old(world)@,
                old(registry)@,
                old(hss)@,
                enb_ue_s1ap_id,
                nas_pdu@,
                tai@,
                rand@,
            );
            &&& final(world)@ == step.world
            &&& final(registry)@ == step.registry
            &&& final(hss)@ == step.hss
            &&& messages_view(r.0@) == step.messages
        }),
        final(world)@.wf(),
        events_view(r.1@) == Seq::<UpfEventView>::empty(),
{
    let plmn: [u8; 3] = [tai[0], tai[1], tai[2]];
    assert(plmn@ =~= tai@.subrange(0, 3));
    let imsi = match decode_nas(nas_pdu) {
        Ok(NasPdu::AttachRequest(inner)) => match inner.imsi {
            Some(imsi) => imsi,
            None => return nothing(),
        },
        _ => return nothing(),
    };
    let info = match hss.generate_auth_vector(imsi, rand) {
        Some(info) => info,
        None => return nothing(),
    };
    let amf: [u8; 2] = MILENAGE_AMF_FIELD;
    assert(amf@ =~= amf_field());
    let autn = info.vector.autn(&info.sqn_used, &amf);
    let mme_ue_s1ap_id = world.spawn();
    registry.register(imsi, mme_ue_s1ap_id);
    let identity = IdentityComponent { imsi, enb_ue_s1ap_id, ue_ip: [0; 4] };
    assert(identity.ue_ip@ =~= zeros(4));
    world.insert_identity(mme_ue_s1ap_id, identity);
    world.insert_security(
        mme_ue_s1ap_id,
        SecurityContext {
            pending_rand: info.rand,
            pending_xres: info.vector.res,
            ck: info.vector.ck,
            ik: info.vector.ik,
            ak: info.vector.ak,
            plmn,
            sqn_used: info.sqn_used,
        },
    );
    world.set_auth_state(mme_ue_s1ap_id, AuthState::ChallengeIssued);
    let nas = encode_auth_request(0, &info.rand, &autn);
    one_message(
        S1apMessage::DownlinkNasTransport(DownlinkNasTransport { mme_ue_s1ap_id, enb_ue_s1ap_id, nas_pdu: nas }),
    )
}

/// No messages and no events.
pub(crate) fn nothing() -> (r: (Vec<S1apMessage>, Vec<UpfEvent>))
    ensures
        messages_view(r.0@) == Seq::<S1apMessageView>::empty(),
        events_view(r.1@) == Seq::<UpfEventView>::empty(),
{
    let messages: Vec<S1apMessage> = Vec::new();
    let events: Vec<UpfEvent> = Vec::new();
    assert(messages_view(messages@) =~= Seq::<S1apMessageView>::empty());
    assert(events_view(events@) =~= Seq::<UpfEventView>::empty());
    (messages, events)
}

/// One message and no events.
pub(crate) fn one_message(m: S1apMessage) -> (r: (Vec<S1apMessage>, Vec<UpfEvent>))
    ensures
        messages_view(r.0@) == seq![m@],
        events_view(r.1@) == Seq::<UpfEventView>::empty(),
{
    let (mut messages, events) = nothing();
    messages.push(m);
    assert(messages_view(messages@) =~= seq![m@]);
    (messages, events)
}

/// No messages and one event.
pub(crate) fn one_event(e: UpfEvent) -> (r: (Vec<S1apMessage>, Vec<UpfEvent>))
    ensures
        messages_view(r.0@) == Seq::<S1apMessageView>::empty(),
        events_view(r.1@) == seq![e@],
{
    let (messages, mut events) = nothing();
    events.push(e);
    assert(events_view(events@) =~= seq![e@]);
    (messages, events)
}

// ── Step 2: AuthenticationResponse ────────────────────────────────────────────

/// The RES in an AuthenticationResponse.
pub open spec fn res_in(pdu: Seq<u8>) -> Option<Seq<u8>> {
    match nas_pdu(pdu) {
        Ok(NasPduView::AuthenticationResponse { res }) => Some(res),
        _ => None,
    }
}

/// Step 2. The pending challenge is wiped whatever the response was.
pub open spec fn auth_step(w: WorldView, enb_ue_s1ap_id: u32, id: u32, pdu: Seq<u8>) -> (
    WorldView,
    Seq<S1apMessageView>,
) {
    match (res_in(pdu), w.security(id)) {
        (Some(res), Some(sec)) => {
            let cleared = w.with_security(id, sec.challenge_cleared());
            if res == sec.pending_xres {
                (
                    cleared.with_auth(id, AuthState::Authenticated),
                    seq![
                        downlink(
                            id,
                            enb_ue_s1ap_id,
                            sec_mode_cmd_octets(SELECTED_EEA, SELECTED_EIA, 0, replayed_cap()),
                        ),
                    ],
                )
            } else {
                (cleared.with_auth(id, AuthState::Failed(AuthFailReason::ResMismatch)), Seq::empty())
            }
        },
        _ => (w, Seq::empty()),
    }
}

/// RES is compared with the expected one. Where they agree, a
/// SecurityModeCommand goes out, still in the plain.
pub fn handle_auth_response(world: &mut World, enb_ue_s1ap_id: u32, mme_ue_s1ap_id: u32, nas_pdu: &[u8]) -> (r: (
    Vec<S1apMessage>,
    Vec<UpfEvent>,
))
    requires
        old(world)@.wf(),
    ensures
        final(world)@ == auth_step(old(world)@, enb_ue_s1ap_id, mme_ue_s1ap_id, nas_pdu@).0,
        final(world)@.wf(),
        messages_view(r.0@) == auth_step(old(world)@, enb_ue_s1ap_id, mme_ue_s1ap_id, nas_pdu@).1,
        events_view(r.1@) == Seq::<UpfEventView>::empty(),
{
    let res = match decode_nas(nas_pdu) {
        Ok(NasPdu::AuthenticationResponse(inner)) => inner.res,
        _ => return nothing(),
    };
    let xres = match world.security(mme_ue_s1ap_id) {
        Some(sec) => sec.pending_xres,
        None => return nothing(),
    };
    let matched = ct_eq(res.as_slice(), xres.as_slice());
    if let Some(sec) = world.security_mut(mme_ue_s1ap_id) {
        sec.clear_pending_challenge();
    }
    if !matched {
        world.set_auth_state(mme_ue_s1ap_id, AuthState::Failed(AuthFailReason::ResMismatch));
        return nothing();
    }
    world.set_auth_state(mme_ue_s1ap_id, AuthState::Authenticated);
    let cap: [u8; 2] = REPLAYED_UE_SECURITY_CAP;
    assert(cap@ =~= replayed_cap());
    let nas = encode_sec_mode_cmd(SELECTED_EEA, SELECTED_EIA, 0, cap.as_slice());
    one_message(
        S1apMessage::DownlinkNasTransport(DownlinkNasTransport { mme_ue_s1ap_id, enb_ue_s1ap_id, nas_pdu: nas }),
    )
}

// ── Step 3: SecurityModeComplete ──────────────────────────────────────────────

/// The Kasme of a subscriber, from the key material of its entity.
pub open spec fn kasme_of(sec: SecurityView) -> Seq<u8> {
    kasme(sec.ck, sec.ik, sec.plmn, masked_sqn(sec.sqn_used, sec.ak))
}

/// The NAS security context that Kasme gives, before any message.
pub open spec fn activated(kasme: Seq<u8>) -> NasSecurityContextView {
    NasSecurityContextView {
        k_nas_enc: nas_key(kasme, ALGO_DISTINGUISHER_NAS_ENC, SELECTED_EEA.spec_id()),
        k_nas_int: nas_key(kasme, ALGO_DISTINGUISHER_NAS_INT, SELECTED_EIA.spec_id()),
        eea: SELECTED_EEA,
        eia: SELECTED_EIA,
        dl_count: 0,
        ul_count: 0,
    }
}

/// The plain AttachAccept for a UE address.
pub open spec fn accept_octets(ue_ip: Seq<u8>) -> Seq<u8> {
    attach_accept_octets(ATTACH_RESULT_EPS, T3412_DEACTIVATED, Seq::empty(), Some(ue_ip), None)
}

/// The AttachAccept as it goes out: the first message under the new security
/// context.
pub open spec fn accept_envelope(kasme: Seq<u8>, ue_ip: Seq<u8>) -> Seq<u8> {
    activated(kasme).sealed_downlink(SHT_INTEGRITY_CIPHERED, NAS_BEARER, accept_octets(ue_ip))
}

/// The security context once AttachAccept is out.
pub open spec fn after_accept(kasme: Seq<u8>) -> NasSecurityContextView {
    activated(kasme).with_dl_count(1)
}

#[verifier::ext_equal]
pub struct SecurityModeStep {
    pub world: WorldView,
    pub teids: TeidView,
    pub messages: Seq<S1apMessageView>,
    pub events: Seq<UpfEventView>,
}

/// Whether step 3 takes a TEID.
pub open spec fn takes_teid(w: WorldView, id: u32, phase3_upf: Option<Seq<u8>>) -> bool {
    phase3_upf is Some && w.identity(id) is Some && w.security(id) is Some
}

/// The InitialContextSetupRequest of phase 3.
pub open spec fn context_setup(
    id: u32,
    enb_ue_s1ap_id: u32,
    ul_teid: u32,
    upf_addr: Seq<u8>,
    kasme: Seq<u8>,
    ue_ip: Seq<u8>,
) -> S1apMessageView {
    S1apMessageView::InitialContextSetupRequest(
        InitialContextSetupRequestView {
            mme_ue_s1ap_id: id,
            enb_ue_s1ap_id,
            e_rabs: seq![
                ErabToSetupView {
                    erab_id: DEFAULT_ERAB_ID,
                    qci: DEFAULT_QCI,
                    gtp_teid: u32_octets(ul_teid),
                    transport_layer_addr: upf_addr,
                },
            ],
            nas_pdu: Some(accept_envelope(kasme, ue_ip)),
            ue_ambr: (DEFAULT_AMBR, DEFAULT_AMBR),
            security_key: kasme,
        },
    )
}

/// Step 3.
pub open spec fn security_mode_step(
    w: WorldView,
    teids: TeidView,
    phase3_upf: Option<Seq<u8>>,
    enb_ue_s1ap_id: u32,
    id: u32,
) -> SecurityModeStep {
    match (w.identity(id), w.security(id)) {
        (Some(identity), Some(sec)) => {
            let key = kasme_of(sec);
            let secured = w.with_security(id, sec.keys_cleared()).with_nas_security(id, after_accept(key));
            match phase3_upf {
                Some(upf_addr) => SecurityModeStep {
                    world: secured.with_tunnel(
                        id,
                        TunnelView { ul_teid: teids.first(), dl_teid: 0, enb_addr: zeros(4) },
                    ),
                    teids: teids.taken(),
                    messages: seq![
                        context_setup(id, enb_ue_s1ap_id, teids.first(), upf_addr, key, identity.ue_ip),
                    ],
                    events: seq![
                        UpfEventView::CreateSession {
                            ul_teid: teids.first(),
                            entity_id: id,
                            imsi: identity.imsi,
                            qci: DEFAULT_QCI,
                            ue_ip: identity.ue_ip,
                            enb_addr: zeros(4),
                        },
                    ],
                },
                None => SecurityModeStep {
                    world: secured,
                    teids,
                    messages: seq![downlink(id, enb_ue_s1ap_id, accept_envelope(key, identity.ue_ip))],
                    events: Seq::empty(),
                },
            }
        },
        _ => SecurityModeStep { world: w, teids, messages: Seq::empty(), events: Seq::empty() },
    }
}

/// The octets of an optional address.
pub open spec fn upf_view(a: Option<[u8; 4]>) -> Option<Seq<u8>> {
    match a {
        Some(x) => Some(x@),
        None => None,
    }
}

/// Kasme is derived, NAS security starts, and a ciphered AttachAccept goes
/// out. In phase 3 it goes out with an EPS bearer: a TEID is taken, the
/// gateway is told, and Kasme serves as the access stratum key.
pub fn handle_security_mode_complete(
    world: &mut World,
    enb_ue_s1ap_id: u32,
    mme_ue_s1ap_id: u32,
    phase3_upf: Option<[u8; 4]>,
    teid_allocator: &mut TeidAllocator,
) -> (r: (Vec<S1apMessage>, Vec<UpfEvent>))
    requires
        old(world)@.wf(),
        takes_teid(old(world)@, mme_ue_s1ap_id, upf_view(phase3_upf)) ==> old(teid_allocator)@.available(),
    ensures
        ({
            let step = security_mode_step(
                old(world)@,
                old(teid_allocator)@,
                upf_view(phase3_upf),
                enb_ue_s1ap_id,
                mme_ue_s1ap_id,
            );
            &&& final(world)@ == step.world
            &&& final(teid_allocator)@ == step.teids
            &&& messages_view(r.0@) == step.messages
            &&& events_view(r.1@) == step.events
        }),
        final(world)@.wf(),
{
    let identity = match world.identity(mme_ue_s1ap_id) {
        Some(i) => *i,
        None => return nothing(),
    };
    let sec = match world.security(mme_ue_s1ap_id) {
        Some(sec) => *sec,
        None => return nothing(),
    };
    let kasme = derive_kasme(&sec.ck, &sec.ik, &sec.plmn, &mask_sqn(&sec.sqn_used, &sec.ak));
    if let Some(sec) = world.security_mut(mme_ue_s1ap_id) {
        sec.clear_post_kasme();
    }
    let mut nas_security = NasSecurityContext::new(&kasme, SELECTED_EEA, SELECTED_EIA);
    assert(nas_security@ =~= activated(kasme@));
    let no_tais: [[u8; 5]; 0] = [];
    assert(no_tais@ =~= Seq::<[u8; 5]>::empty());
    let accept_plain = encode_attach_accept(
        ATTACH_RESULT_EPS,
        T3412_DEACTIVATED,
        no_tais.as_slice(),
        Some(identity.ue_ip),
        None,
    );
    let accept_nas = encode_protected(
        &mut nas_security,
        SHT_INTEGRITY_CIPHERED,
        NAS_BEARER,
        bytes_as_slice(&accept_plain),
    );
    world.set_nas_security(mme_ue_s1ap_id, nas_security);
    match phase3_upf {
        Some(upf_addr) => {
            let ul_teid = teid_allocator.allocate();
            let tunnel = TunnelComponent { ul_teid, dl_teid: 0, enb_addr: [0; 4] };
            assert(tunnel.enb_addr@ =~= zeros(4));
            world.set_tunnel(mme_ue_s1ap_id, tunnel);
            let erab = ErabToSetup {
                erab_id: DEFAULT_ERAB_ID,
                qci: DEFAULT_QCI,
                gtp_teid: u32_to_octets(ul_teid),
                transport_layer_addr: upf_addr,
            };
            let icsr = S1apMessage::InitialContextSetupRequest(
                InitialContextSetupRequest {
                    mme_ue_s1ap_id,
                    enb_ue_s1ap_id,
                    e_rabs: vec![erab],
                    nas_pdu: Some(accept_nas),
                    ue_ambr: (DEFAULT_AMBR, DEFAULT_AMBR),
                    security_key: kasme,
                },
            );
            assert(icsr@ =~= context_setup(
                mme_ue_s1ap_id,
                enb_ue_s1ap_id,
                ul_teid,
                upf_addr@,
                kasme@,
                identity.ue_ip@,
            ));
            let event = UpfEvent::CreateSession {
                ul_teid,
                entity_id: mme_ue_s1ap_id,
                imsi: identity.imsi,
                qci: DEFAULT_QCI,
                ue_ip: identity.ue_ip,
                enb_addr: [0; 4],
            };
            let (messages, _) = one_message(icsr);
            let (_, events) = one_event(event);
            (messages, events)
        },
        None => one_message(
            S1apMessage::DownlinkNasTransport(
                DownlinkNasTransport { mme_ue_s1ap_id, enb_ue_s1ap_id, nas_pdu: accept_nas },
            ),
        ),
    }
}

// ── Step 4: AttachComplete ────────────────────────────────────────────────────

/// The UE confirms; there is no reply.
pub fn handle_attach_complete(world: &mut World, mme_ue_s1ap_id: u32) -> (r: (Vec<S1apMessage>, Vec<UpfEvent>))
    ensures
        final(world)@ == old(world)@,
        messages_view(r.0@) == Seq::<S1apMessageView>::empty(),
        events_view(r.1@) == Seq::<UpfEventView>::empty(),
{
    nothing()
}

} // verus!
