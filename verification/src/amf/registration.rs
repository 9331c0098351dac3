//! The registration procedure (TS 23.502, 4.2.2).
//!
//! | Step | Message                            | Handler                         |
//! |------|------------------------------------|---------------------------------|
//! | 1    | InitialUeMessage(RegistrationReq)  | `start_registration`            |
//! | 2    | UplinkNas(IdentityResponse)        | `handle_identity_response`      |
//! | 3    | UplinkNas(AuthenticationResponse)  | `handle_auth_response`          |
//! | 4    | UplinkNas(SecurityModeComplete)    | `handle_security_mode_complete` |
//! | 5    | UplinkNas(RegistrationComplete)    | `handle_registration_complete`  |
//!
//! The AMF plays AUSF and UDM too: it holds the subscriber database, computes
//! XRES* and compares RES* with it, and derives the whole key chain. A
//! message that does not fit is dropped without a reply.
//!
//! RegistrationAccept goes out in a DownlinkNasTransport (phase A), or with a
//! default PDU session in an InitialContextSetupRequest (phase B).

use vstd::prelude::*;

use crate::amf::state_machine::{events_view, messages_view, N3Event, N3EventView};
use crate::ecs::{
    zeros, AkaView, AuthFailReason, AuthState, IdentityComponent, IdentityView, ImsiRegistry, Nas5gsAkaContext,
    TunnelComponent, TunnelView, World, WorldView,
};
use crate::hss::{after_vector, amf_field, auth_info, Hss, SubscriberView, MILENAGE_AMF_FIELD};
use crate::kdf::{
    derive_kamf, derive_kausf, derive_kseaf, derive_res_star, kamf, kausf, kseaf, network_name, res_star,
    serving_network_name, supi_from_imsi, supi_text,
};
use crate::milenage::{autn_octets, mask_sqn, masked_sqn};
use crate::nas::security::NasSecurityContextView;
use crate::nas5gs::codec::{
    auth_request_octets, decode_nas5gs, encode_auth_request, encode_identity_request, encode_protected,
    encode_registration_accept, encode_sec_mode_cmd, identity_request_octets, nas5gs_pdu, registration_accept_octets,
    sealed_downlink, sec_mode_cmd_octets, Nas5gsPdu, Nas5gsPduView, Suci, SuciView, IDTYPE_5G_GUTI, IDTYPE_SUCI,
    NAS5GS_SHT_INTEGRITY_CIPHERED,
};
use crate::nas5gs::security::{fresh_context, Nas5gsSecurityContext};
use crate::ngap::messages::{
    DownlinkNasTransportView, InitialContextSetupRequestView, NgapDownlinkNasTransport,
    NgapInitialContextSetupRequest, NgapMessage, NgapMessageView, PduSessionToSetup, PduSessionToSetupView,
};
use crate::octets::{bytes_as_slice, u32_octets, u32_round_trip, u32_to_octets};
use crate::teid::{TeidAllocator, TeidView};

verus! {

/// The ciphering algorithm that is always selected: 128-NEA2.
pub const SELECTED_NAS_CIPHER_ALG: u8 = 2;

/// The integrity algorithm that is always selected: 128-NIA2.
pub const SELECTED_NAS_INTEGRITY_ALG: u8 = 2;

/// The ABBA parameter without any feature to bind.
pub const DEFAULT_ABBA: [u8; 2] = [0x00, 0x00];

/// The UE security capabilities that are replayed to every UE.
pub const REPLAYED_UE_SECURITY_CAP: u16 = 0x2040;

/// Registration result: 3GPP access.
pub const REGISTRATION_RESULT_3GPP: u8 = 1;

/// The PDU session that comes with every registration in phase B.
pub const DEFAULT_PDU_SESSION_ID: u8 = 1;

/// The QoS flow of that session.
pub const DEFAULT_QFI: u8 = 1;

/// Aggregate maximum bit rate of every UE, in either direction.
pub const DEFAULT_AMBR: u64 = 50_000_000;

/// Why a registration step is not taken.
#[derive(Debug, Clone, Copy, PartialEq, Eq, Structural)]
pub enum RegistrationError {
    /// No subscriber with this IMSI.
    UnknownSubscriber(u64),
    /// No registration is in progress for this entity.
    NoContext(u32),
    ResStarVerifyFailed,
    NasDecode,
    /// The SUCI is concealed under a scheme other than the null scheme.
    ProtectedSuciNotSupported,
}

// ── Identities ────────────────────────────────────────────────────────────────

/// The IMSI that a null-scheme SUCI carries: its MSIN, as a big-endian
/// number. `None` for any other scheme.
pub open spec fn suci_imsi(s: SuciView) -> Option<u64> {
    if s.protection_scheme != 0 {
        None
    } else {
        Some(
            (s.msin[0] * 0x1_0000_0000 + s.msin[1] * 0x100_0000 + s.msin[2] * 0x1_0000 + s.msin[3] * 0x100
                + s.msin[4]) as u64,
        )
    }
}

/// The five low-order octets of an IMSI, big-endian.
pub open spec fn imsi_msin(imsi: u64) -> Seq<u8> {
    seq![
        (imsi / 0x1_0000_0000 % 256) as u8,
        (imsi / 0x100_0000 % 256) as u8,
        (imsi / 0x1_0000 % 256) as u8,
        (imsi / 0x100 % 256) as u8,
        (imsi % 256) as u8,
    ]
}

/// The null-scheme SUCI of an IMSI.
pub open spec fn imsi_suci(imsi: u64) -> SuciView {
    SuciView {
        mcc: zeros(3),
        mnc: zeros(3),
        routing_indicator: 0,
        protection_scheme: 0,
        home_network_pki: 0,
        msin: imsi_msin(imsi),
    }
}

/// An IMSI below 2^40 is recovered from its SUCI. A larger one does not fit
/// the MSIN, and is taken for another.
pub proof fn suci_round_trip(imsi: u64)
    requires
        imsi < 0x100_0000_0000,
    ensures
        suci_imsi(imsi_suci(imsi)) == Some(imsi),
{
    assert(imsi / 0x1_0000_0000 % 256 * 0x1_0000_0000 + imsi / 0x100_0000 % 256 * 0x100_0000 + imsi / 0x1_0000 % 256
        * 0x1_0000 + imsi / 0x100 % 256 * 0x100 + imsi % 256 == imsi) by (bit_vector)
        requires
            imsi < 0x100_0000_0000,
    ;
}

pub fn resolve_suci_to_imsi(suci: &Suci) -> (imsi: Option<u64>)
    ensures
        imsi == suci_imsi(suci@),
{
    if suci.protection_scheme != 0 {
        return None;
    }
    let m = &suci.msin;
    Some(
        m[0] as u64 * 0x1_0000_0000 + m[1] as u64 * 0x100_0000 + m[2] as u64 * 0x1_0000 + m[3] as u64 * 0x100
            + m[4] as u64,
    )
}

/// The null-scheme SUCI of an IMSI.
pub fn suci_for_imsi(imsi: u64) -> (s: Suci)
    ensures
        s@ == imsi_suci(imsi),
{
    let msin: [u8; 5] = [
        (imsi / 0x1_0000_0000 % 256) as u8,
        (imsi / 0x100_0000 % 256) as u8,
        (imsi / 0x1_0000 % 256) as u8,
        (imsi / 0x100 % 256) as u8,
        (imsi % 256) as u8,
    ];
    assert(msin@ =~= imsi_msin(imsi));
    Suci { mcc: [0; 3], mnc: [0; 3], routing_indicator: 0, protection_scheme: 0, home_network_pki: 0, msin }
}

/// Compares two octet strings without an early exit.
pub fn ct_eq_16(a: &[u8; 16], b: &[u8; 16]) -> (eq: bool)
    ensures
        eq == (a@ == b@),
{
    let mut diff: u8 = 0;
    let mut i: usize = 0;
    while i < 16
        invariant
            i <= 16,
            diff == 0 <==> (forall|j: int| 0 <= j < i ==> a@[j] == b@[j]),
        decreases 16 - i,
    {
        let x: u8 = a[i];
        let y: u8 = b[i];
        assert(diff | (x ^ y) == 0 <==> diff == 0 && x == y) by (bit_vector);
        diff = diff | (x ^ y);
        i += 1;
    }
    assert(diff == 0 ==> a@ =~= b@);
    diff == 0
}

/// The 5G-GUTI that an entity is given: the type of identity, and the entity
/// identifier in the last four octets.
pub open spec fn guti_octets(id: u32) -> Seq<u8> {
    seq![IDTYPE_5G_GUTI] + zeros(6) + u32_octets(id)
}

/// Different entities are given different GUTIs.
pub proof fn gutis_are_separate(a: u32, b: u32)
    requires
        guti_octets(a) == guti_octets(b),
    ensures
        a == b,
{
    assert(guti_octets(a).subrange(7, 11) =~= u32_octets(a));
    assert(guti_octets(b).subrange(7, 11) =~= u32_octets(b));
    u32_round_trip(a);
    u32_round_trip(b);
}

pub fn placeholder_guti(amf_ue_ngap_id: u32) -> (guti: [u8; 11])
    ensures
        guti@ == guti_octets(amf_ue_ngap_id),
{
    let o = u32_to_octets(amf_ue_ngap_id);
    let guti: [u8; 11] = [IDTYPE_5G_GUTI, 0, 0, 0, 0, 0, 0, o[0], o[1], o[2], o[3]];
    assert(guti@ =~= guti_octets(amf_ue_ngap_id));
    guti
}

/// The address of an entity's PDU session, by which downlink packets are
/// routed: the identifier counted on from 10.45.0.0, each of the upper two
/// octets by itself.
pub open spec fn session_ip(id: u32) -> Seq<u8> {
    seq![
        ((10 + id / 0x100_0000) % 256) as u8,
        ((45 + id / 0x1_0000 % 256) % 256) as u8,
        (id / 256 % 256) as u8,
        (id % 256) as u8,
    ]
}

/// Different entities have different addresses.
pub proof fn session_ips_are_separate(a: u32, b: u32)
    requires
        session_ip(a) == session_ip(b),
    ensures
        a == b,
{
    let (x, y) = (session_ip(a), session_ip(b));
    assert(x[0] == y[0] && x[1] == y[1] && x[2] == y[2] && x[3] == y[3]);
    assert(a / 0x100_0000 == b / 0x100_0000);
    assert(a / 0x1_0000 % 256 == b / 0x1_0000 % 256);
}

/// The addresses of the first 65536 entities are 10.45.0.0/16.
pub proof fn first_session_ips(id: u32)
    requires
        id < 0x1_0000,
    ensures
        session_ip(id) == seq![10u8, 45, (id / 256) as u8, (id % 256) as u8],
{
}

// ── Step 1: RegistrationRequest ───────────────────────────────────────────────

/// A DownlinkNasTransport.
pub open spec fn downlink(amf_ue_ngap_id: u32, ran_ue_ngap_id: u32, nas_pdu: Seq<u8>) -> NgapMessageView {
    NgapMessageView::DownlinkNasTransport(DownlinkNasTransportView { amf_ue_ngap_id, ran_ue_ngap_id, nas_pdu })
}

/// A RegistrationRequest of a UE that has no GUTI yet.
pub open spec fn starts_registration(nas_pdu: Seq<u8>) -> bool {
    match nas5gs_pdu(nas_pdu) {
        Ok(Nas5gsPduView::RegistrationRequest { guti, .. }) => guti is None,
        _ => false,
    }
}

/// The world after step 1: a new entity of unknown identity, which remembers
/// the serving network.
pub open spec fn registration_world(w: WorldView, ran_ue_ngap_id: u32, tai: Seq<u8>) -> WorldView {
    let id = w.next_id();
    w.spawn().with_identity(
        id,
        IdentityView { imsi: 0, enb_ue_s1ap_id: ran_ue_ngap_id, ue_ip: zeros(4) },
    ).with_security5g(id, AkaView { plmn: tai.subrange(0, 3), ..AkaView::empty() })
}

/// Step 1: the world, and the messages that go out.
pub open spec fn registration_step(w: WorldView, ran_ue_ngap_id: u32, nas_pdu: Seq<u8>, tai: Seq<u8>) -> (
    WorldView,
    Seq<NgapMessageView>,
) {
    if starts_registration(nas_pdu) {
        (
            registration_world(w, ran_ue_ngap_id, tai),
            seq![downlink(w.next_id(), ran_ue_ngap_id, identity_request_octets(IDTYPE_SUCI))],
        )
    } else {
        (w, Seq::empty())
    }
}

/// A RegistrationRequest without a GUTI creates an entity, and its identity is
/// asked for. The first three octets of `tai` are the serving network. A
/// request with a GUTI is not supported.
pub fn start_registration(world: &mut World, ran_ue_ngap_id: u32, nas_pdu: &[u8], tai: [u8; 6]) -> (r: (
    Vec<NgapMessage>,
    Vec<N3Event>,
))
    requires
        old(world)@.wf(),
        starts_registration(nas_pdu@) ==> !old(world)@.full(),
    ensures
        final(world)@ == registration_step(old(world)@, ran_ue_ngap_id, nas_pdu@, tai@).0,
        final(world)@.wf(),
        messages_view(r.0@) == registration_step(old(world)@, ran_ue_ngap_id, nas_pdu@, tai@).1,
        events_view(r.1@) == Seq::<N3EventView>::empty(),
{
    let plmn: [u8; 3] = [tai[0], tai[1], tai[2]];
    assert(plmn@ =~= tai@.subrange(0, 3));
    let guti = match decode_nas5gs(nas_pdu) {
        Ok(Nas5gsPdu::RegistrationRequest(inner)) => inner.guti,
        _ => return nothing(),
    };
    if guti.is_some() {
        return nothing();
    }
    let amf_ue_ngap_id = world.spawn();
    let identity = IdentityComponent { imsi: 0, enb_ue_s1ap_id: ran_ue_ngap_id, ue_ip: [0; 4] };
    assert(identity.ue_ip@ =~= zeros(4));
    world.insert_identity(amf_ue_ngap_id, identity);
    let mut aka = Nas5gsAkaContext::new_empty();
    aka.plmn = plmn;
    world.insert_security5g(amf_ue_ngap_id, aka);
    let nas = encode_identity_request(IDTYPE_SUCI);
    one_message(
        NgapMessage::DownlinkNasTransport(NgapDownlinkNasTransport { amf_ue_ngap_id, ran_ue_ngap_id, nas_pdu: nas }),
    )
}

/// No messages and no events.
pub(crate) fn nothing() -> (r: (Vec<NgapMessage>, Vec<N3Event>))
    ensures
        messages_view(r.0@) == Seq::<NgapMessageView>::empty(),
        events_view(r.1@) == Seq::<N3EventView>::empty(),
{
    let messages: Vec<NgapMessage> = Vec::new();
    let events: Vec<N3Event> = Vec::new();
    assert(messages_view(messages@) =~= Seq::<NgapMessageView>::empty());
    assert(events_view(events@) =~= Seq::<N3EventView>::empty());
    (messages, events)
}

/// One message and no events.
pub(crate) fn one_message(m: NgapMessage) -> (r: (Vec<NgapMessage>, Vec<N3Event>))
    ensures
        messages_view(r.0@) == seq![m@],
        events_view(r.1@) == Seq::<N3EventView>::empty(),
{
    let (mut messages, events) = nothing();
    messages.push(m);
    assert(messages_view(messages@) =~= seq![m@]);
    (messages, events)
}

/// No messages and one event.
pub(crate) fn one_event(e: N3Event) -> (r: (Vec<NgapMessage>, Vec<N3Event>))
    ensures
        messages_view(r.0@) == Seq::<NgapMessageView>::empty(),
        events_view(r.1@) == seq![e@],
{
    let (messages, mut events) = nothing();
    events.push(e);
    assert(events_view(events@) =~= seq![e@]);
    (messages, events)
}

// ── Step 2: IdentityResponse ──────────────────────────────────────────────────

/// The SUCI in an IdentityResponse.
pub open spec fn suci_in(nas_pdu: Seq<u8>) -> Option<SuciView> {
    match nas5gs_pdu(nas_pdu) {
        Ok(Nas5gsPduView::IdentityResponse { suci }) => suci,
        _ => None,
    }
}

/// The IMSI that an IdentityResponse gives away.
pub open spec fn imsi_in(nas_pdu: Seq<u8>) -> Option<u64> {
    match suci_in(nas_pdu) {
        Some(suci) => suci_imsi(suci),
        None => None,
    }
}

#[verifier::ext_equal]
pub struct IdentityStep {
    pub world: WorldView,
    pub registry: Map<u64, u32>,
    pub hss: Map<u64, SubscriberView>,
    pub messages: Seq<NgapMessageView>,
}

/// The 5G-AKA context of an entity whose challenge is out.
pub open spec fn challenged(s: SubscriberView, rand: Seq<u8>, plmn: Seq<u8>) -> AkaView {
    let info = auth_info(s, rand);
    AkaView {
        pending_rand: rand,
        pending_xres_star: res_star(info.vector.ck, info.vector.ik, network_name(plmn), rand, info.vector.res),
        ck: info.vector.ck,
        ik: info.vector.ik,
        ak: info.vector.ak,
        plmn,
        sqn_used: info.sqn_used,
    }
}

/// The AuthenticationRequest for a subscriber and a challenge.
pub open spec fn challenge_octets(s: SubscriberView, rand: Seq<u8>) -> Seq<u8> {
    let info = auth_info(s, rand);
    auth_request_octets(
        0,
        rand,
        autn_octets(info.sqn_used, info.vector.ak, amf_field(), info.vector.mac_a),
    )
}

/// Step 2. The vector is counted as used even where no registration is in
/// progress.
pub open spec fn identity_step(
    w: WorldView,
    registry: Map<u64, u32>,
    hss: Map<u64, SubscriberView>,
    ran_ue_ngap_id: u32,
    id: u32,
    nas_pdu: Seq<u8>,
    rand: Seq<u8>,
) -> IdentityStep {
    match imsi_in(nas_pdu) {
        Some(imsi) if hss.contains_key(imsi) => match w.security5g(id) {
            Some(aka) => IdentityStep {
                world: w.with_identity(
                    id,
                    IdentityView { imsi, enb_ue_s1ap_id: ran_ue_ngap_id, ue_ip: zeros(4) },
                ).with_security5g(id, challenged(hss[imsi], rand, aka.plmn)).with_auth(id, AuthState::ChallengeIssued),
                registry: registry.insert(imsi, id),
                hss: after_vector(hss, imsi),
                messages: seq![downlink(id, ran_ue_ngap_id, challenge_octets(hss[imsi], rand))],
            },
            None => IdentityStep { world: w, registry, hss: after_vector(hss, imsi), messages: Seq::empty() },
        },
        _ => IdentityStep { world: w, registry, hss, messages: Seq::empty() },
    }
}

/// The SUCI is resolved, the subscriber challenged with `rand`, and XRES*
/// kept for the comparison.
pub fn handle_identity_response(
    world: &mut World,
    registry: &mut ImsiRegistry,
    hss: &mut Hss,
    ran_ue_ngap_id: u32,
    amf_ue_ngap_id: u32,
    nas_pdu: &[u8],
    rand: [u8; 16],
) -> (r: (Vec<NgapMessage>, Vec<N3Event>))
    requires
        old(world)@.wf(),
    ensures
        ({
            let step = identity_step(
                old(world)@,
                old(registry)@,
                old(hss)@,
                ran_ue_ngap_id,
                amf_ue_ngap_id,
                nas_pdu@,
                rand@,
            );
            &&& final(world)@ == step.world
            &&& final(registry)@ == step.registry
            &&& final(hss)@ == step.hss
            &&& messages_view(r.0@) == step.messages
        }),
        final(world)@.wf(),
        events_view(r.1@) == Seq::<N3EventView>::empty(),
{
    let suci = match decode_nas5gs(nas_pdu) {
        Ok(Nas5gsPdu::IdentityResponse(inner)) => match inner.suci {
            Some(suci) => suci,
            None => return nothing(),
        },
        _ => return nothing(),
    };
    let imsi = match resolve_suci_to_imsi(&suci) {
        Some(imsi) => imsi,
        None => return nothing(),
    };
    let info = match hss.generate_auth_vector(imsi, rand) {
        Some(info) => info,
        None => return nothing(),
    };
    let plmn = match world.security5g(amf_ue_ngap_id) {
        Some(aka) => aka.plmn,
        None => return nothing(),
    };
    let amf: [u8; 2] = MILENAGE_AMF_FIELD;
    assert(amf@ =~= amf_field());
    let autn = info.vector.autn(&info.sqn_used, &amf);
    let snn = serving_network_name(&plmn);
    let xres_star = derive_res_star(
        &info.vector.ck,
        &info.vector.ik,
        snn.as_slice(),
        &info.rand,
        &info.vector.res,
    );
    registry.register(imsi, amf_ue_ngap_id);
    let identity = IdentityComponent { imsi, enb_ue_s1ap_id: ran_ue_ngap_id, ue_ip: [0; 4] };
    assert(identity.ue_ip@ =~= zeros(4));
    world.insert_identity(amf_ue_ngap_id, identity);
    world.insert_security5g(
        amf_ue_ngap_id,
        Nas5gsAkaContext {
            pending_rand: info.rand,
            pending_xres_star: xres_star,
            ck: info.vector.ck,
            ik: info.vector.ik,
            ak: info.vector.ak,
            plmn,
            sqn_used: info.sqn_used,
        },
    );
    world.set_auth_state(amf_ue_ngap_id, AuthState::ChallengeIssued);
    let nas = encode_auth_request(0, &info.rand, &autn);
    one_message(
        NgapMessage::DownlinkNasTransport(NgapDownlinkNasTransport { amf_ue_ngap_id, ran_ue_ngap_id, nas_pdu: nas }),
    )
}

// ── Step 3: AuthenticationResponse ────────────────────────────────────────────

/// The RES* in an AuthenticationResponse.
pub open spec fn res_star_in(nas_pdu: Seq<u8>) -> Option<Seq<u8>> {
    match nas5gs_pdu(nas_pdu) {
        Ok(Nas5gsPduView::AuthenticationResponse { res_star }) => Some(res_star),
        _ => None,
    }
}

/// Step 3. The pending challenge is wiped whatever the response was.
pub open spec fn auth_step(w: WorldView, ran_ue_ngap_id: u32, id: u32, nas_pdu: Seq<u8>) -> (
    WorldView,
    Seq<NgapMessageView>,
) {
    match (res_star_in(nas_pdu), w.security5g(id)) {
        (Some(res), Some(aka)) => {
            let cleared = w.with_security5g(id, aka.challenge_cleared());
            if res == aka.pending_xres_star {
                (
                    cleared.with_auth(id, AuthState::Authenticated),
                    seq![
                        downlink(
                            id,
                            ran_ue_ngap_id,
                            sec_mode_cmd_octets(
                                SELECTED_NAS_CIPHER_ALG,
                                SELECTED_NAS_INTEGRITY_ALG,
                                REPLAYED_UE_SECURITY_CAP,
                            ),
                        ),
                    ],
                )
            } else {
                (cleared.with_auth(id, AuthState::Failed(AuthFailReason::ResMismatch)), Seq::empty())
            }
        },
        _ => (w, Seq::empty()),
    }
}

/// RES* is compared with XRES*. Where they agree, a SecurityModeCommand goes
/// out, still in the plain.
pub fn handle_auth_response(world: &mut World, ran_ue_ngap_id: u32, amf_ue_ngap_id: u32, nas_pdu: &[u8]) -> (r: (
    Vec<NgapMessage>,
    Vec<N3Event>,
))
    requires
        old(world)@.wf(),
    ensures
        final(world)@ == auth_step(old(world)@, ran_ue_ngap_id, amf_ue_ngap_id, nas_pdu@).0,
        final(world)@.wf(),
        messages_view(r.0@) == auth_step(old(world)@, ran_ue_ngap_id, amf_ue_ngap_id, nas_pdu@).1,
        events_view(r.1@) == Seq::<N3EventView>::empty(),
{
    let res_star = match decode_nas5gs(nas_pdu) {
        Ok(Nas5gsPdu::AuthenticationResponse(inner)) => inner.res_star,
        _ => return nothing(),
    };
    let xres_star = match world.security5g(amf_ue_ngap_id) {
        Some(aka) => aka.pending_xres_star,
        None => return nothing(),
    };
    let matched = ct_eq_16(&xres_star, &res_star);
    if let Some(aka) = world.security5g_mut(amf_ue_ngap_id) {
        aka.clear_pending_challenge();
    }
    if !matched {
        world.set_auth_state(amf_ue_ngap_id, AuthState::Failed(AuthFailReason::ResMismatch));
        return nothing();
    }
    world.set_auth_state(amf_ue_ngap_id, AuthState::Authenticated);
    let nas = encode_sec_mode_cmd(SELECTED_NAS_CIPHER_ALG, SELECTED_NAS_INTEGRITY_ALG, REPLAYED_UE_SECURITY_CAP);
    one_message(
        NgapMessage::DownlinkNasTransport(NgapDownlinkNasTransport { amf_ue_ngap_id, ran_ue_ngap_id, nas_pdu: nas }),
    )
}

// ── Step 4: SecurityModeComplete ──────────────────────────────────────────────

/// The KAMF of a subscriber, from the 5G-AKA context.
pub open spec fn kamf_of(aka: AkaView, imsi: u64) -> Seq<u8> {
    let snn = network_name(aka.plmn);
    kamf(
        kseaf(kausf(aka.ck, aka.ik, snn, masked_sqn(aka.sqn_used, aka.ak)), snn),
        supi_text(imsi),
        seq![0u8, 0],
    )
}

/// The NAS security context that KAMF gives, before any message.
pub open spec fn activated(kamf: Seq<u8>) -> NasSecurityContextView {
    fresh_context(kamf, SELECTED_NAS_CIPHER_ALG, SELECTED_NAS_INTEGRITY_ALG)
}

/// The plain RegistrationAccept of an entity.
pub open spec fn accept_octets(id: u32) -> Seq<u8> {
    registration_accept_octets(REGISTRATION_RESULT_3GPP, guti_octets(id), Seq::empty())
}

/// The RegistrationAccept as it goes out: the first message under the new
/// security context.
pub open spec fn accept_envelope(kamf: Seq<u8>, id: u32) -> Seq<u8> {
    sealed_downlink(activated(kamf), NAS5GS_SHT_INTEGRITY_CIPHERED, accept_octets(id))
}

/// The security context once RegistrationAccept is out.
pub open spec fn after_accept(kamf: Seq<u8>) -> NasSecurityContextView {
    activated(kamf).with_dl_count(1)
}

#[verifier::ext_equal]
pub struct SecurityModeStep {
    pub world: WorldView,
    pub teids: TeidView,
    pub messages: Seq<NgapMessageView>,
    pub events: Seq<N3EventView>,
}

/// Whether step 4 takes a TEID.
pub open spec fn takes_teid(w: WorldView, id: u32, phase_b_upf: Option<Seq<u8>>) -> bool {
    phase_b_upf is Some && w.identity(id) is Some && w.security5g(id) is Some
}

/// The InitialContextSetupRequest of phase B.
pub open spec fn context_setup(
    id: u32,
    ran_ue_ngap_id: u32,
    ul_teid: u32,
    upf_addr: Seq<u8>,
    kamf: Seq<u8>,
) -> NgapMessageView {
    NgapMessageView::InitialContextSetupRequest(
        InitialContextSetupRequestView {
            amf_ue_ngap_id: id,
            ran_ue_ngap_id,
            pdu_sessions: seq![
                PduSessionToSetupView {
                    pdu_session_id: DEFAULT_PDU_SESSION_ID,
                    qfi: DEFAULT_QFI,
                    gtp_teid: u32_octets(ul_teid),
                    transport_layer_addr: upf_addr,
                },
            ],
            nas_pdu: Some(accept_envelope(kamf, id)),
            ue_ambr: (DEFAULT_AMBR, DEFAULT_AMBR),
            security_key: kamf,
        },
    )
}

/// Step 4.
pub open spec fn security_mode_step(
    w: WorldView,
    teids: TeidView,
    phase_b_upf: Option<Seq<u8>>,
    ran_ue_ngap_id: u32,
    id: u32,
) -> SecurityModeStep {
    match (w.identity(id), w.security5g(id)) {
        (Some(identity), Some(aka)) => {
            let key = kamf_of(aka, identity.imsi);
            let secured = w.with_security5g(id, aka.keys_cleared()).with_nas_security5g(id, after_accept(key));
            match phase_b_upf {
                Some(upf_addr) => SecurityModeStep {
                    world: secured.with_tunnel(
                        id,
                        TunnelView { ul_teid: teids.first(), dl_teid: 0, enb_addr: zeros(4) },
                    ),
                    teids: teids.taken(),
                    messages: seq![context_setup(id, ran_ue_ngap_id, teids.first(), upf_addr, key)],
                    events: seq![
                        N3EventView::CreateSession {
                            ul_teid: teids.first(),
                            entity_id: id,
                            imsi: identity.imsi,
                            pdu_session_id: DEFAULT_PDU_SESSION_ID,
                            qfi: DEFAULT_QFI,
                            ue_ip: session_ip(id),
                            gnb_addr: zeros(4),
                        },
                    ],
                },
                None => SecurityModeStep {
                    world: secured,
                    teids,
                    messages: seq![downlink(id, ran_ue_ngap_id, accept_envelope(key, id))],
                    events: Seq::empty(),
                },
            }
        },
        _ => SecurityModeStep { world: w, teids, messages: Seq::empty(), events: Seq::empty() },
    }
}

/// The key chain is derived down to KAMF, NAS security starts, and a ciphered
/// RegistrationAccept goes out. In phase B it goes out with a PDU session: a
/// TEID is taken, the UPF is told, and KAMF serves as the access stratum key.
pub fn handle_security_mode_complete(
    world: &mut World,
    ran_ue_ngap_id: u32,
    amf_ue_ngap_id: u32,
    phase_b_upf: Option<[u8; 4]>,
    teid_allocator: &mut TeidAllocator,
) -> (r: (Vec<NgapMessage>, Vec<N3Event>))
    requires
        old(world)@.wf(),
        takes_teid(old(world)@, amf_ue_ngap_id, upf_view(phase_b_upf)) ==> old(teid_allocator)@.available(),
    ensures
        ({
            let step = security_mode_step(
                old(world)@,
                old(teid_allocator)@,
                upf_view(phase_b_upf),
                ran_ue_ngap_id,
                amf_ue_ngap_id,
            );
            &&& final(world)@ == step.world
            &&& final(teid_allocator)@ == step.teids
            &&& messages_view(r.0@) == step.messages
            &&& events_view(r.1@) == step.events
        }),
        final(world)@.wf(),
{
    let imsi = match world.identity(amf_ue_ngap_id) {
        Some(i) => i.imsi,
        None => return nothing(),
    };
    let aka = match world.security5g(amf_ue_ngap_id) {
        Some(aka) => *aka,
        None => return nothing(),
    };
    let kamf = derive_key_chain(&aka, imsi);
    if let Some(aka) = world.security5g_mut(amf_ue_ngap_id) {
        aka.clear_post_kamf();
    }
    let mut nas_security = Nas5gsSecurityContext::new(&kamf, SELECTED_NAS_CIPHER_ALG, SELECTED_NAS_INTEGRITY_ALG);
    let guti = placeholder_guti(amf_ue_ngap_id);
    let no_tais: [[u8; 6]; 0] = [];
    assert(no_tais@ =~= Seq::<[u8; 6]>::empty());
    let accept_plain = encode_registration_accept(REGISTRATION_RESULT_3GPP, &guti, no_tais.as_slice());
    let accept_nas = encode_protected(
        &mut nas_security,
        NAS5GS_SHT_INTEGRITY_CIPHERED,
        bytes_as_slice(&accept_plain),
    );
    world.set_nas_security5g(amf_ue_ngap_id, nas_security);
    match phase_b_upf {
        Some(upf_addr) => {
            let ul_teid = teid_allocator.allocate();
            let tunnel = TunnelComponent { ul_teid, dl_teid: 0, enb_addr: [0; 4] };
            assert(tunnel.enb_addr@ =~= zeros(4));
            world.set_tunnel(amf_ue_ngap_id, tunnel);
            let session = PduSessionToSetup {
                pdu_session_id: DEFAULT_PDU_SESSION_ID,
                qfi: DEFAULT_QFI,
                gtp_teid: u32_to_octets(ul_teid),
                transport_layer_addr: upf_addr,
            };
            let icsr = NgapMessage::InitialContextSetupRequest(
                NgapInitialContextSetupRequest {
                    amf_ue_ngap_id,
                    ran_ue_ngap_id,
                    pdu_sessions: vec![session],
                    nas_pdu: Some(accept_nas),
                    ue_ambr: (DEFAULT_AMBR, DEFAULT_AMBR),
                    security_key: kamf,
                },
            );
            assert(icsr@ =~= context_setup(amf_ue_ngap_id, ran_ue_ngap_id, ul_teid, upf_addr@, kamf@));
            let ue_ip: [u8; 4] = [
                ((10 + amf_ue_ngap_id / 0x100_0000) % 256) as u8,
                ((45 + amf_ue_ngap_id / 0x1_0000 % 256) % 256) as u8,
                (amf_ue_ngap_id / 256 % 256) as u8,
                (amf_ue_ngap_id % 256) as u8,
            ];
            assert(ue_ip@ =~= session_ip(amf_ue_ngap_id));
            let event = N3Event::CreateSession {
                ul_teid,
                entity_id: amf_ue_ngap_id,
                imsi,
                pdu_session_id: DEFAULT_PDU_SESSION_ID,
                qfi: DEFAULT_QFI,
                ue_ip,
                gnb_addr: [0; 4],
            };
            let (messages, _) = one_message(icsr);
            let (_, events) = one_event(event);
            (messages, events)
        },
        None => one_message(
            NgapMessage::DownlinkNasTransport(
                NgapDownlinkNasTransport { amf_ue_ngap_id, ran_ue_ngap_id, nas_pdu: accept_nas },
            ),
        ),
    }
}

/// The octets of an optional address.
pub open spec fn upf_view(a: Option<[u8; 4]>) -> Option<Seq<u8>> {
    match a {
        Some(x) => Some(x@),
        None => None,
    }
}

/// KAUSF, KSEAF, KAMF.
pub fn derive_key_chain(aka: &Nas5gsAkaContext, imsi: u64) -> (kamf: [u8; 32])
    ensures
        kamf@ == kamf_of(aka@, imsi),
{
    let sqn_xor_ak = mask_sqn(&aka.sqn_used, &aka.ak);
    let snn = serving_network_name(&aka.plmn);
    let kausf = derive_kausf(&aka.ck, &aka.ik, snn.as_slice(), &sqn_xor_ak);
    let kseaf = derive_kseaf(&kausf, snn.as_slice());
    let supi = supi_from_imsi(imsi);
    let abba: [u8; 2] = DEFAULT_ABBA;
    assert(abba@ =~= seq![0u8, 0]);
    derive_kamf(&kseaf, supi.as_slice(), &abba)
}

// ── Step 5: RegistrationComplete ──────────────────────────────────────────────

/// The UE confirms; there is no reply.
pub fn handle_registration_complete(world: &mut World, amf_ue_ngap_id: u32) -> (r: (Vec<NgapMessage>, Vec<N3Event>))
    ensures
        final(world)@ == old(world)@,
        messages_view(r.0@) == Seq::<NgapMessageView>::empty(),
        events_view(r.1@) == Seq::<N3EventView>::empty(),
{
    nothing()
}

} // verus!
