//! Laws of the AMF as a whole: what every message keeps, what a registration
//! and a release achieve, and what has no effect.

use vstd::prelude::*;

use crate::amf::deregistration::{deregistration_step, farewell_octets, release_command};
use crate::amf::registration::{
    accept_envelope, accept_octets, activated, after_accept, auth_step, challenge_octets, challenged, context_setup,
    downlink, guti_octets, imsi_in, imsi_suci, kamf_of, registration_world, res_star_in, security_mode_step,
    session_ip, session_ips_are_separate, starts_registration, suci_round_trip, takes_teid, DEFAULT_PDU_SESSION_ID, DEFAULT_QFI,
    REGISTRATION_RESULT_3GPP, REPLAYED_UE_SECURITY_CAP, SELECTED_NAS_CIPHER_ALG, SELECTED_NAS_INTEGRITY_ALG,
};
use crate::amf::state_machine::{
    has_room_for, ngap_step, opened_uplink, plain_has_room, plain_step, release_step, security_header_type, AmfStep, AmfView,
    N3EventView,
};
use crate::ecs::{
    despawn_removes_one, put_keeps_wf, spawn_is_fresh, zeros, AkaView, AuthFailReason, AuthState, IdentityView,
    WorldView,
};
use crate::error::ProtoError;
use crate::hss::{auth_info, sqn_octets, SubscriberView};
use crate::kdf::{kamf, kausf, kseaf, network_name, res_star, supi_text};
use crate::milenage;
use crate::nas::security::NasSecurityContextView;
use crate::nas5gs::codec::{
    auth_response_octets, header, identity_request_octets, identity_response_octets, nas5gs_pdu,
    registration_request_octets, sec_mode_cmd_octets, unsealed_downlink, Nas5gsPduView, IDTYPE_SUCI,
    MT5G_DEREGISTRATION_ACCEPT, MT5G_SECURITY_MODE_COMPLETE, NAS5GS_SHT_INTEGRITY_CIPHERED, NAS5GS_SHT_PLAIN,
};
use crate::nas5gs::laws::{
    auth_request_round_trip, auth_response_round_trip, bare_messages_round_trip, downlink_round_trip,
    identity_response_round_trip, registration_accept_round_trip, registration_request_round_trip,
};
use crate::ngap::messages::{
    InitialUeMessageView, NgapMessageView, UeContextReleaseCompleteView, UplinkNasTransportView,
};
use crate::octets::u32_octets;
use crate::teid::{allocated_teid_is_new, TeidView};
use crate::tunnels::{
    new_tunnel_stays_sound, released_tunnel_stays_sound, same_teids_but, teid_of, tunnels_are_sound,
    unchanged_tunnels_stay_sound,
};

verus! {

// ── Soundness ─────────────────────────────────────────────────────────────────

/// What holds of an AMF between messages.
pub open spec fn sound(amf: AmfView) -> bool {
    &&& amf.world.wf()
    &&& amf.teids.wf()
    &&& tunnels_are_sound(amf.world, amf.teids)
}

/// A new AMF is sound.
pub proof fn new_amf_is_sound()
    ensures
        sound(AmfView::fresh()),
{
}

proof fn lemma_registration_sound(amf: AmfView, m: InitialUeMessageView, rand: Seq<u8>)
    requires
        sound(amf),
        has_room_for(amf, NgapMessageView::InitialUeMessage(m)),
    ensures
        sound(ngap_step(amf, NgapMessageView::InitialUeMessage(m), rand).amf),
{
    reveal(ngap_step);
    if starts_registration(m.nas_pdu) {
        let w = amf.world;
        let id = w.next_id();
        let v = registration_world(w, m.ran_ue_ngap_id, m.tai);
        spawn_is_fresh(w, id);
        put_keeps_wf(w.spawn(), id);
        let i = IdentityView { imsi: 0, enb_ue_s1ap_id: m.ran_ue_ngap_id, ue_ip: zeros(4) };
        put_keeps_wf(w.spawn().with_identity(id, i), id);
        assert forall|other: u32| other != id implies #[trigger] teid_of(v, other) == teid_of(w, other) by {
            spawn_is_fresh(w, other);
        }
        unchanged_tunnels_stay_sound(w, v, id, amf.teids);
    }
}

proof fn lemma_security_mode_sound(amf: AmfView, ran: u32, id: u32)
    requires
        sound(amf),
        takes_teid(amf.world, id, amf.phase_b_upf) ==> amf.teids.available(),
    ensures
        ({
            let step = security_mode_step(amf.world, amf.teids, amf.phase_b_upf, ran, id);
            step.world.wf() && step.teids.wf() && tunnels_are_sound(step.world, step.teids)
        }),
{
    let w = amf.world;
    let step = security_mode_step(w, amf.teids, amf.phase_b_upf, ran, id);
    if w.identity(id) is Some && w.security5g(id) is Some {
        let aka = w.security5g(id)->0;
        let w1 = w.with_security5g(id, aka.keys_cleared());
        let w2 = w1.with_nas_security5g(id, after_accept(kamf_of(aka, w.identity(id)->0.imsi)));
        put_keeps_wf(w, id);
        put_keeps_wf(w1, id);
        put_keeps_wf(w2, id);
        assert(same_teids_but(w, step.world, id));
        if amf.phase_b_upf is Some {
            new_tunnel_stays_sound(w, step.world, id, amf.teids);
        } else {
            unchanged_tunnels_stay_sound(w, step.world, id, amf.teids);
        }
    }
}

proof fn lemma_plain_sound(amf: AmfView, ran: u32, id: u32, plain: Seq<u8>, rand: Seq<u8>)
    requires
        sound(amf),
        plain_has_room(amf, id, plain),
    ensures
        sound(plain_step(amf, ran, id, plain, rand).amf),
{
    let w = amf.world;
    let v = plain_step(amf, ran, id, plain, rand).amf.world;
    put_keeps_wf(w, id);
    match nas5gs_pdu(plain) {
        Ok(Nas5gsPduView::SecurityModeComplete) => {
            lemma_security_mode_sound(amf, ran, id);
        },
        Ok(Nas5gsPduView::IdentityResponse { .. }) => {
            if let Some(imsi) = imsi_in(plain) {
                if amf.hss.contains_key(imsi) && w.security5g(id) is Some {
                    let i = IdentityView { imsi, enb_ue_s1ap_id: ran, ue_ip: zeros(4) };
                    let w1 = w.with_identity(id, i);
                    let w2 = w1.with_security5g(id, challenged(amf.hss[imsi], rand, w.security5g(id)->0.plmn));
                    put_keeps_wf(w1, id);
                    put_keeps_wf(w2, id);
                }
            }
            assert(same_teids_but(w, v, id));
            unchanged_tunnels_stay_sound(w, v, id, amf.teids);
        },
        Ok(Nas5gsPduView::AuthenticationResponse { .. }) => {
            if w.security5g(id) is Some {
                put_keeps_wf(w.with_security5g(id, w.security5g(id)->0.challenge_cleared()), id);
            }
            assert(same_teids_but(w, v, id));
            unchanged_tunnels_stay_sound(w, v, id, amf.teids);
        },
        _ => {
            assert(same_teids_but(w, v, id));
            unchanged_tunnels_stay_sound(w, v, id, amf.teids);
        },
    }
}

/// To open an uplink PDU keeps an AMF sound.
pub proof fn lemma_opened_sound(amf: AmfView, id: u32, nas_pdu: Seq<u8>)
    requires
        sound(amf),
    ensures
        sound(AmfView { world: opened_uplink(amf.world, id, nas_pdu).0, ..amf }),
{
    let world = opened_uplink(amf.world, id, nas_pdu).0;
    put_keeps_wf(amf.world, id);
    assert(same_teids_but(amf.world, world, id));
    unchanged_tunnels_stay_sound(amf.world, world, id, amf.teids);
}

proof fn lemma_uplink_sound(amf: AmfView, m: UplinkNasTransportView, rand: Seq<u8>)
    requires
        sound(amf),
        has_room_for(amf, NgapMessageView::UplinkNasTransport(m)),
    ensures
        sound(ngap_step(amf, NgapMessageView::UplinkNasTransport(m), rand).amf),
{
    reveal(ngap_step);
    let id = m.amf_ue_ngap_id;
    let (world, plain) = opened_uplink(amf.world, id, m.nas_pdu);
    lemma_opened_sound(amf, id, m.nas_pdu);
    if plain is Some {
        lemma_plain_sound(AmfView { world, ..amf }, m.ran_ue_ngap_id, id, plain->0, rand);
    }
}

proof fn lemma_release_sound(amf: AmfView, id: u32)
    requires
        sound(amf),
    ensures
        sound(release_step(amf, id).amf),
{
    let w = amf.world;
    let v = w.despawn(id);
    despawn_removes_one(w, id, id);
    assert forall|other: u32| other != id implies #[trigger] teid_of(v, other) == teid_of(w, other) by {
        despawn_removes_one(w, id, other);
    }
    if w.tunnel(id) is Some {
        released_tunnel_stays_sound(w, v, id, amf.teids);
    } else {
        unchanged_tunnels_stay_sound(w, v, id, amf.teids);
    }
}

/// Every message keeps an AMF sound: no tunnel ever shares its TEID, and no
/// TEID of a live tunnel is ever given out again.
pub proof fn every_message_keeps_soundness(amf: AmfView, msg: NgapMessageView, rand: Seq<u8>)
    requires
        sound(amf),
        has_room_for(amf, msg),
    ensures
        sound(ngap_step(amf, msg, rand).amf),
{
    reveal(ngap_step);
    match msg {
        NgapMessageView::InitialUeMessage(m) => {
            lemma_registration_sound(amf, m, rand);
        },
        NgapMessageView::UplinkNasTransport(m) => {
            lemma_uplink_sound(amf, m, rand);
        },
        NgapMessageView::InitialContextSetupResponse(m) => {
            let v = ngap_step(amf, msg, rand).amf.world;
            put_keeps_wf(amf.world, m.amf_ue_ngap_id);
            assert(same_teids_but(amf.world, v, m.amf_ue_ngap_id));
            unchanged_tunnels_stay_sound(amf.world, v, m.amf_ue_ngap_id, amf.teids);
        },
        NgapMessageView::UeContextReleaseComplete(m) => {
            lemma_release_sound(amf, m.amf_ue_ngap_id);
        },
        _ => {},
    }
}

/// A session that is set up gets a TEID that no live tunnel has.
pub proof fn new_session_has_its_own_teid(amf: AmfView, ran: u32, id: u32, other: u32)
    requires
        sound(amf),
        amf.teids.available(),
        amf.phase_b_upf is Some,
        amf.world.identity(id) is Some,
        amf.world.security5g(id) is Some,
        other != id,
    ensures
        ({
            let step = security_mode_step(amf.world, amf.teids, amf.phase_b_upf, ran, id);
            teid_of(step.world, id) is Some && teid_of(step.world, id) != teid_of(step.world, other)
        }),
{
    let step = security_mode_step(amf.world, amf.teids, amf.phase_b_upf, ran, id);
    allocated_teid_is_new(amf.teids, amf.teids.first());
    assert(teid_of(step.world, other) == teid_of(amf.world, other));
}

/// Sessions that are set up for two UEs, one after the other, share neither
/// address nor TEID.
pub proof fn sessions_of_two_ues_differ(
    w: WorldView,
    teids: TeidView,
    upf_addr: Seq<u8>,
    ran_a: u32,
    a: u32,
    ran_b: u32,
    b: u32,
)
    requires
        teids.wf(),
        teids.available(),
        teids.taken().available(),
        a != b,
        w.identity(a) is Some,
        w.security5g(a) is Some,
        w.identity(b) is Some,
        w.security5g(b) is Some,
    ensures
        ({
            let first = security_mode_step(w, teids, Some(upf_addr), ran_a, a);
            let second = security_mode_step(first.world, first.teids, Some(upf_addr), ran_b, b);
            &&& first.events.len() == 1 && first.events[0] is CreateSession
            &&& second.events.len() == 1 && second.events[0] is CreateSession
            &&& first.events[0]->CreateSession_ue_ip != second.events[0]->CreateSession_ue_ip
            &&& first.events[0]->CreateSession_ul_teid != second.events[0]->CreateSession_ul_teid
        }),
{
    allocated_teid_is_new(teids, teids.first());
    allocated_teid_is_new(teids.taken(), teids.first());
    if session_ip(a) == session_ip(b) {
        session_ips_are_separate(a, b);
    }
}

/// Both phases send the same RegistrationAccept, and start the same NAS
/// security. Without a UPF it goes out alone, no tunnel is set and no TEID is
/// taken. With one it goes out with a session whose TEID is that of the new
/// tunnel and of the session that the UPF is told of.
pub proof fn phases_send_the_same_accept(
    w: WorldView,
    teids: TeidView,
    upf_addr: Seq<u8>,
    ran: u32,
    id: u32,
    other: u32,
)
    requires
        w.identity(id) is Some,
        w.security5g(id) is Some,
    ensures
        ({
            let key = kamf_of(w.security5g(id)->0, w.identity(id)->0.imsi);
            let accept = accept_envelope(key, id);
            let a = security_mode_step(w, teids, None, ran, id);
            let b = security_mode_step(w, teids, Some(upf_addr), ran, id);
            let setup = b.messages[0]->InitialContextSetupRequest_0;
            &&& a.messages == seq![downlink(id, ran, accept)]
            &&& a.events.len() == 0
            &&& a.teids == teids
            &&& a.world.tunnel(other) == w.tunnel(other)
            &&& b.messages.len() == 1 && b.messages[0] is InitialContextSetupRequest
            &&& setup.amf_ue_ngap_id == id && setup.ran_ue_ngap_id == ran
            &&& setup.nas_pdu == Some(accept)
            &&& setup.security_key == key
            &&& setup.pdu_sessions.len() == 1
            &&& setup.pdu_sessions[0].gtp_teid == u32_octets(teids.first())
            &&& setup.pdu_sessions[0].transport_layer_addr == upf_addr
            &&& b.events.len() == 1 && b.events[0] is CreateSession
            &&& b.events[0]->CreateSession_ul_teid == teids.first()
            &&& b.teids == teids.taken()
            &&& teid_of(b.world, id) == Some(teids.first())
            &&& other != id ==> b.world.tunnel(other) == w.tunnel(other)
            &&& a.world.nas_security5g(id) == Some(after_accept(key))
            &&& b.world.nas_security5g(id) == Some(after_accept(key))
        }),
{
}

// ── Authentication ────────────────────────────────────────────────────────────

/// An entity is authenticated by an AuthenticationResponse exactly when RES*
/// is the expected one; else it has failed, and nothing goes out. Either way
/// the pending challenge is wiped.
pub proof fn only_the_expected_response_authenticates(w: WorldView, ran: u32, id: u32, nas_pdu: Seq<u8>)
    requires
        res_star_in(nas_pdu) is Some,
        w.security5g(id) is Some,
    ensures
        ({
            let (after, messages) = auth_step(w, ran, id, nas_pdu);
            let expected = res_star_in(nas_pdu)->0 == w.security5g(id)->0.pending_xres_star;
            &&& after.is_live(id)
            &&& expected ==> after.entity(id)->0.auth == AuthState::Authenticated && messages.len() == 1
            &&& !expected ==> after.entity(id)->0.auth == AuthState::Failed(AuthFailReason::ResMismatch)
                && messages.len() == 0
            &&& after.security5g(id) == Some(w.security5g(id)->0.challenge_cleared())
        }),
{
}

// ── Registration ──────────────────────────────────────────────────────────────

/// The RES* that a SIM with these secrets computes.
pub open spec fn sim_res_star(k: Seq<u8>, opc: Seq<u8>, plmn: Seq<u8>, rand: Seq<u8>) -> Seq<u8> {
    res_star(
        milenage::ck(k, opc, rand),
        milenage::ik(k, opc, rand),
        network_name(plmn),
        rand,
        milenage::res(k, opc, rand),
    )
}

/// The KAMF that a SIM with these secrets derives.
pub open spec fn sim_kamf(k: Seq<u8>, opc: Seq<u8>, plmn: Seq<u8>, rand: Seq<u8>, sqn: Seq<u8>, imsi: u64) -> Seq<u8> {
    let snn = network_name(plmn);
    let ausf = kausf(
        milenage::ck(k, opc, rand),
        milenage::ik(k, opc, rand),
        snn,
        milenage::masked_sqn(sqn, milenage::ak(k, opc, rand)),
    );
    kamf(kseaf(ausf, snn), supi_text(imsi), seq![0u8, 0])
}

/// An uplink NAS PDU of a UE.
pub open spec fn uplink(id: u32, ran: u32, nas_pdu: Seq<u8>, tai: Seq<u8>, nr_cgi: Seq<u8>) -> NgapMessageView {
    NgapMessageView::UplinkNasTransport(
        UplinkNasTransportView { amf_ue_ngap_id: id, ran_ue_ngap_id: ran, nas_pdu, tai, nr_cgi },
    )
}

/// A plain uplink PDU goes straight to its step.
pub proof fn plain_uplinks_are_processed(
    amf: AmfView,
    id: u32,
    ran: u32,
    nas: Seq<u8>,
    tai: Seq<u8>,
    nr_cgi: Seq<u8>,
    rand: Seq<u8>,
)
    requires
        nas.len() > 1,
        nas[1] == NAS5GS_SHT_PLAIN,
    ensures
        ngap_step(amf, uplink(id, ran, nas, tai, nr_cgi), rand) == plain_step(amf, ran, id, nas, rand),
{
    reveal(ngap_step);
    assert(AmfView { world: amf.world, ..amf } == amf);
}

/// The AMF after the first step, for a UE in the network of `tai`.
proof fn lemma_step_1(amf: AmfView, m: InitialUeMessageView, reg_type: u8, ksi: u8, cap: u16, rand: Seq<u8>)
    requires
        amf.world.wf(),
        !amf.world.full(),
        m.nas_pdu == registration_request_octets(reg_type, ksi, None, cap),
    ensures
        ({
            let id = amf.world.next_id();
            let step = ngap_step(amf, NgapMessageView::InitialUeMessage(m), rand);
            &&& step.messages == seq![downlink(id, m.ran_ue_ngap_id, identity_request_octets(IDTYPE_SUCI))]
            &&& step.events == Seq::<N3EventView>::empty()
            &&& step.amf == AmfView { world: step.amf.world, ..amf }
            &&& step.amf.world.security5g(id) == Some(
                AkaView { plmn: m.tai.subrange(0, 3), ..AkaView::empty() },
            )
        }),
{
    reveal(ngap_step);
    registration_request_round_trip(reg_type, ksi, None, cap);
    spawn_is_fresh(amf.world, amf.world.next_id());
}

proof fn lemma_step_2(
    amf: AmfView,
    id: u32,
    ran: u32,
    imsi: u64,
    plmn: Seq<u8>,
    tai: Seq<u8>,
    nr_cgi: Seq<u8>,
    rand: Seq<u8>,
)
    requires
        imsi < 0x100_0000_0000,
        amf.hss.contains_key(imsi),
        amf.world.security5g(id) is Some,
        amf.world.security5g(id)->0.plmn == plmn,
    ensures
        ({
            let nas = identity_response_octets(imsi_suci(imsi));
            let step = ngap_step(amf, uplink(id, ran, nas, tai, nr_cgi), rand);
            &&& step.messages == seq![downlink(id, ran, challenge_octets(amf.hss[imsi], rand))]
            &&& step.events == Seq::<N3EventView>::empty()
            &&& step.amf.world.security5g(id) == Some(challenged(amf.hss[imsi], rand, plmn))
            &&& step.amf.world.identity(id) == Some(
                IdentityView { imsi, enb_ue_s1ap_id: ran, ue_ip: zeros(4) },
            )
            &&& step.amf.world.entity(id)->0.auth == AuthState::ChallengeIssued
            &&& step.amf.registry == amf.registry.insert(imsi, id)
            &&& step.amf.teids == amf.teids
            &&& step.amf.phase_b_upf == amf.phase_b_upf
        }),
{
    reveal(ngap_step);
    let nas = identity_response_octets(imsi_suci(imsi));
    identity_response_round_trip(imsi_suci(imsi));
    suci_round_trip(imsi);
    plain_uplinks_are_processed(amf, id, ran, nas, tai, nr_cgi, rand);
}

proof fn lemma_step_3(
    amf: AmfView,
    id: u32,
    ran: u32,
    s: SubscriberView,
    plmn: Seq<u8>,
    tai: Seq<u8>,
    nr_cgi: Seq<u8>,
    challenge: Seq<u8>,
    rand: Seq<u8>,
)
    requires
        amf.world.security5g(id) == Some(challenged(s, challenge, plmn)),
    ensures
        ({
            let nas = auth_response_octets(sim_res_star(s.k, s.opc, plmn, challenge));
            let step = ngap_step(amf, uplink(id, ran, nas, tai, nr_cgi), rand);
            &&& step.messages == seq![
                downlink(
                    id,
                    ran,
                    sec_mode_cmd_octets(
                        SELECTED_NAS_CIPHER_ALG,
                        SELECTED_NAS_INTEGRITY_ALG,
                        REPLAYED_UE_SECURITY_CAP,
                    ),
                ),
            ]
            &&& step.events == Seq::<N3EventView>::empty()
            &&& step.amf.world.security5g(id) == Some(challenged(s, challenge, plmn).challenge_cleared())
            &&& step.amf.world.identity(id) == amf.world.identity(id)
            &&& step.amf.world.entity(id)->0.auth == AuthState::Authenticated
            &&& step.amf.teids == amf.teids
            &&& step.amf.phase_b_upf == amf.phase_b_upf
        }),
{
    reveal(ngap_step);
    let r = sim_res_star(s.k, s.opc, plmn, challenge);
    let aka = challenged(s, challenge, plmn);
    assert(aka.pending_xres_star == r);
    lemma_expected_response(amf, id, ran, r, aka, tai, nr_cgi, rand);
}

/// The expected response, whatever it is, is accepted.
proof fn lemma_expected_response(
    amf: AmfView,
    id: u32,
    ran: u32,
    r: Seq<u8>,
    aka: AkaView,
    tai: Seq<u8>,
    nr_cgi: Seq<u8>,
    rand: Seq<u8>,
)
    requires
        amf.world.security5g(id) == Some(aka),
        aka.pending_xres_star == r,
        r.len() == 16,
    ensures
        ({
            let step = ngap_step(amf, uplink(id, ran, auth_response_octets(r), tai, nr_cgi), rand);
            &&& step.messages == seq![
                downlink(
                    id,
                    ran,
                    sec_mode_cmd_octets(
                        SELECTED_NAS_CIPHER_ALG,
                        SELECTED_NAS_INTEGRITY_ALG,
                        REPLAYED_UE_SECURITY_CAP,
                    ),
                ),
            ]
            &&& step.events == Seq::<N3EventView>::empty()
            &&& step.amf.world.security5g(id) == Some(aka.challenge_cleared())
            &&& step.amf.world.identity(id) == amf.world.identity(id)
            &&& step.amf.world.entity(id)->0.auth == AuthState::Authenticated
            &&& step.amf.teids == amf.teids
            &&& step.amf.phase_b_upf == amf.phase_b_upf
        }),
{
    reveal(ngap_step);
    auth_response_round_trip(r);
    plain_uplinks_are_processed(amf, id, ran, auth_response_octets(r), tai, nr_cgi, rand);
}

proof fn lemma_step_4(
    amf: AmfView,
    id: u32,
    ran: u32,
    imsi: u64,
    s: SubscriberView,
    plmn: Seq<u8>,
    tai: Seq<u8>,
    nr_cgi: Seq<u8>,
    challenge: Seq<u8>,
    rand: Seq<u8>,
)
    requires
        amf.world.security5g(id) == Some(challenged(s, challenge, plmn).challenge_cleared()),
        amf.world.identity(id) is Some,
        amf.world.identity(id)->0.imsi == imsi,
    ensures
        ({
            let step = ngap_step(amf, uplink(id, ran, header(MT5G_SECURITY_MODE_COMPLETE), tai, nr_cgi), rand);
            let key = sim_kamf(s.k, s.opc, plmn, challenge, sqn_octets(s.sqn), imsi);
            &&& step.amf.world.nas_security5g(id) == Some(after_accept(key))
            &&& step.amf.world.identity(id) == amf.world.identity(id)
            &&& amf.phase_b_upf is Some ==> teid_of(step.amf.world, id) == Some(amf.teids.first())
            &&& step.amf.world.entity(id)->0.auth == amf.world.entity(id)->0.auth
            &&& amf.phase_b_upf is None ==> step.messages == seq![downlink(id, ran, accept_envelope(key, id))]
                && step.events == Seq::<N3EventView>::empty()
            &&& amf.phase_b_upf is Some ==> step.messages == seq![
                context_setup(id, ran, amf.teids.first(), amf.phase_b_upf->0, key),
            ] && step.events == seq![
                N3EventView::CreateSession {
                    ul_teid: amf.teids.first(),
                    entity_id: id,
                    imsi,
                    pdu_session_id: DEFAULT_PDU_SESSION_ID,
                    qfi: DEFAULT_QFI,
                    ue_ip: session_ip(id),
                    gnb_addr: zeros(4),
                },
            ]
        }),
{
    reveal(ngap_step);
    let aka = challenged(s, challenge, plmn).challenge_cleared();
    assert(kamf_of(aka, imsi) == sim_kamf(s.k, s.opc, plmn, challenge, sqn_octets(s.sqn), imsi));
    bare_messages_round_trip();
    plain_uplinks_are_processed(amf, id, ran, header(MT5G_SECURITY_MODE_COMPLETE), tai, nr_cgi, rand);
    lemma_security_activated(amf, id, ran, imsi, aka);
}

/// Step 4, whatever the key material is.
proof fn lemma_security_activated(amf: AmfView, id: u32, ran: u32, imsi: u64, aka: AkaView)
    requires
        amf.world.security5g(id) == Some(aka),
        amf.world.identity(id) is Some,
        amf.world.identity(id)->0.imsi == imsi,
    ensures
        ({
            let step = security_mode_step(amf.world, amf.teids, amf.phase_b_upf, ran, id);
            &&& step.world.nas_security5g(id) == Some(after_accept(kamf_of(aka, imsi)))
            &&& step.world.identity(id) == amf.world.identity(id)
            &&& amf.phase_b_upf is Some ==> teid_of(step.world, id) == Some(amf.teids.first())
            &&& step.world.entity(id)->0.auth == amf.world.entity(id)->0.auth
        }),
{
    reveal(ngap_step);
}

/// The four messages that take a UE through a registration, and what the AMF
/// makes of each.
pub open spec fn registration_run(
    amf: AmfView,
    imsi: u64,
    first: InitialUeMessageView,
    nr_cgi: Seq<u8>,
    challenge: Seq<u8>,
    rand: Seq<u8>,
) -> (AmfStep, AmfStep, AmfStep, AmfStep) {
    let id = amf.world.next_id();
    let ran = first.ran_ue_ngap_id;
    let tai = first.tai;
    let s = amf.hss[imsi];
    let s1 = ngap_step(amf, NgapMessageView::InitialUeMessage(first), rand);
    let s2 = ngap_step(
        s1.amf,
        uplink(id, ran, identity_response_octets(imsi_suci(imsi)), tai, nr_cgi),
        challenge,
    );
    let s3 = ngap_step(
        s2.amf,
        uplink(
            id,
            ran,
            auth_response_octets(sim_res_star(s.k, s.opc, tai.subrange(0, 3), challenge)),
            tai,
            nr_cgi,
        ),
        rand,
    );
    let s4 = ngap_step(s3.amf, uplink(id, ran, header(MT5G_SECURITY_MODE_COMPLETE), tai, nr_cgi), rand);
    (s1, s2, s3, s4)
}

/// A subscriber who answers as a SIM with the provisioned secrets does is
/// registered: the identity is asked for, the challenge goes out, RES* is
/// accepted, and RegistrationAccept goes out under keys that the SIM derives
/// too. In phase B it carries a PDU session, and the UPF is told.
///
/// The IMSI is below 2^40: a larger one does not fit the SUCI.
pub proof fn registration_succeeds(
    amf: AmfView,
    imsi: u64,
    first: InitialUeMessageView,
    reg_type: u8,
    ksi: u8,
    cap: u16,
    nr_cgi: Seq<u8>,
    challenge: Seq<u8>,
    rand: Seq<u8>,
)
    requires
        amf.world.wf(),
        !amf.world.full(),
        amf.hss.contains_key(imsi),
        imsi < 0x100_0000_0000,
        first.nas_pdu == registration_request_octets(reg_type, ksi, None, cap),
    ensures
        ({
            let (s1, s2, s3, s4) = registration_run(amf, imsi, first, nr_cgi, challenge, rand);
            let id = amf.world.next_id();
            let ran = first.ran_ue_ngap_id;
            let s = amf.hss[imsi];
            let key = sim_kamf(s.k, s.opc, first.tai.subrange(0, 3), challenge, sqn_octets(s.sqn), imsi);
            &&& s1.messages == seq![downlink(id, ran, identity_request_octets(IDTYPE_SUCI))]
            &&& s2.messages == seq![downlink(id, ran, challenge_octets(s, challenge))]
            &&& s3.messages == seq![
                downlink(
                    id,
                    ran,
                    sec_mode_cmd_octets(
                        SELECTED_NAS_CIPHER_ALG,
                        SELECTED_NAS_INTEGRITY_ALG,
                        REPLAYED_UE_SECURITY_CAP,
                    ),
                ),
            ]
            &&& amf.phase_b_upf is None ==> s4.messages == seq![downlink(id, ran, accept_envelope(key, id))]
            &&& amf.phase_b_upf is Some ==> s4.messages == seq![
                context_setup(id, ran, amf.teids.first(), amf.phase_b_upf->0, key),
            ]
            &&& s1.events.len() == 0 && s2.events.len() == 0 && s3.events.len() == 0
            &&& amf.phase_b_upf is None ==> s4.events.len() == 0
            &&& amf.phase_b_upf is Some ==> s4.events == seq![
                N3EventView::CreateSession {
                    ul_teid: amf.teids.first(),
                    entity_id: id,
                    imsi,
                    pdu_session_id: DEFAULT_PDU_SESSION_ID,
                    qfi: DEFAULT_QFI,
                    ue_ip: session_ip(id),
                    gnb_addr: zeros(4),
                },
            ]
            &&& amf.phase_b_upf is Some ==> teid_of(s4.amf.world, id) == Some(amf.teids.first())
            &&& s4.amf.world.identity(id) == Some(
                IdentityView { imsi, enb_ue_s1ap_id: ran, ue_ip: zeros(4) },
            )
            &&& s4.amf.world.is_live(id)
            &&& s4.amf.world.entity(id)->0.auth == AuthState::Authenticated
            &&& s4.amf.world.nas_security5g(id) == Some(after_accept(key))
        }),
{
    let id = amf.world.next_id();
    let ran = first.ran_ue_ngap_id;
    let tai = first.tai;
    let plmn = tai.subrange(0, 3);
    let s = amf.hss[imsi];
    let (s1, s2, s3, s4) = registration_run(amf, imsi, first, nr_cgi, challenge, rand);
    lemma_step_1(amf, first, reg_type, ksi, cap, rand);
    lemma_step_2(s1.amf, id, ran, imsi, plmn, tai, nr_cgi, challenge);
    lemma_step_3(s2.amf, id, ran, s, plmn, tai, nr_cgi, challenge, rand);
    lemma_step_4(s3.amf, id, ran, imsi, s, plmn, tai, nr_cgi, challenge, rand);
}

/// The challenge of a subscriber reaches the UE unchanged, and AUTN shows SQN
/// to a SIM that has the anonymity key.
pub proof fn ue_reads_the_challenge(s: SubscriberView, challenge: Seq<u8>)
    requires
        challenge.len() == 16,
    ensures
        ({
            let info = auth_info(s, challenge);
            let autn = milenage::autn_octets(
                sqn_octets(s.sqn),
                info.vector.ak,
                crate::hss::amf_field(),
                info.vector.mac_a,
            );
            &&& nas5gs_pdu(challenge_octets(s, challenge)) == Ok::<Nas5gsPduView, ProtoError>(
                Nas5gsPduView::AuthenticationRequest { ng_ksi: 0, rand: challenge, autn },
            )
            &&& milenage::masked_sqn(autn.subrange(0, 6), info.vector.ak) == sqn_octets(s.sqn)
        }),
{
    let info = auth_info(s, challenge);
    lemma_autn(sqn_octets(s.sqn), info.vector.ak, crate::hss::amf_field(), info.vector.mac_a);
    auth_request_round_trip(
        0,
        challenge,
        milenage::autn_octets(sqn_octets(s.sqn), info.vector.ak, crate::hss::amf_field(), info.vector.mac_a),
    );
}

proof fn lemma_autn(sqn: Seq<u8>, ak: Seq<u8>, amf: Seq<u8>, mac_a: Seq<u8>)
    requires
        sqn.len() == 6,
        amf.len() == 2,
        mac_a.len() == 8,
    ensures
        milenage::autn_octets(sqn, ak, amf, mac_a).len() == 16,
        milenage::masked_sqn(milenage::autn_octets(sqn, ak, amf, mac_a).subrange(0, 6), ak) == sqn,
{
    assert(milenage::autn_octets(sqn, ak, amf, mac_a).subrange(0, 6) =~= milenage::masked_sqn(sqn, ak));
    milenage::sqn_is_recovered(sqn, ak);
}

/// The UE that derived KAMF opens RegistrationAccept, and finds its GUTI.
pub proof fn ue_opens_registration_accept(key: Seq<u8>, id: u32)
    ensures
        unsealed_downlink(activated(key), accept_envelope(key, id)) == (Some(accept_octets(id)), after_accept(key)),
        nas5gs_pdu(accept_octets(id)) == Ok::<Nas5gsPduView, ProtoError>(
            Nas5gsPduView::RegistrationAccept {
                registration_result: REGISTRATION_RESULT_3GPP,
                guti: guti_octets(id),
            },
        ),
{
    downlink_round_trip(activated(key), activated(key), NAS5GS_SHT_INTEGRITY_CIPHERED, accept_octets(id));
    registration_accept_round_trip(REGISTRATION_RESULT_3GPP, guti_octets(id), Seq::empty());
}

// ── Deregistration ────────────────────────────────────────────────────────────

/// A UE whose context agrees with the network's opens DeregistrationAccept,
/// as long as it has missed fewer than 256 messages.
pub proof fn ue_opens_deregistration_accept(w: WorldView, id: u32, ue: NasSecurityContextView)
    requires
        w.nas_security5g(id) is Some,
        w.nas_security5g(id)->0.agrees_with(ue),
        ue.dl_count <= w.nas_security5g(id)->0.dl_count < ue.dl_count + 256,
    ensures
        unsealed_downlink(ue, farewell_octets(w, id)).0 == Some(header(MT5G_DEREGISTRATION_ACCEPT)),
        nas5gs_pdu(header(MT5G_DEREGISTRATION_ACCEPT)) == Ok::<Nas5gsPduView, ProtoError>(
            Nas5gsPduView::DeregistrationAccept,
        ),
{
    downlink_round_trip(
        w.nas_security5g(id)->0,
        ue,
        NAS5GS_SHT_INTEGRITY_CIPHERED,
        header(MT5G_DEREGISTRATION_ACCEPT),
    );
    bare_messages_round_trip();
}

/// A deregistration is a release command that names the UE, preceded by an accept unless the UE
/// is switched off. The entity stays until the release is complete.
pub proof fn deregistration_releases(w: WorldView, ran: u32, id: u32, nas_pdu: Seq<u8>, switch_off: bool)
    requires
        nas5gs_pdu(nas_pdu) == Ok::<Nas5gsPduView, ProtoError>(Nas5gsPduView::DeregistrationRequest { switch_off }),
        w.is_live(id),
    ensures
        ({
            let (after, messages) = deregistration_step(w, ran, id, nas_pdu);
            &&& messages.len() == if switch_off {
                1nat
            } else {
                2nat
            }
            &&& messages.last() == release_command(id, ran)
            &&& after.is_live(id)
            &&& switch_off ==> after == w
        }),
{
}

/// A completed release leaves nothing behind: the entity is gone, its IMSI is
/// not registered, its TEID is among the free ones, the UPF is told, and no
/// other entity has changed. A second release does nothing: no TEID is freed
/// twice.
pub proof fn release_tears_down(
    amf: AmfView,
    m: UeContextReleaseCompleteView,
    again: UeContextReleaseCompleteView,
    other: u32,
    rand: Seq<u8>,
)
    requires
        amf.world.wf(),
        again.amf_ue_ngap_id == m.amf_ue_ngap_id,
    ensures
        ({
            let id = m.amf_ue_ngap_id;
            let step = ngap_step(amf, NgapMessageView::UeContextReleaseComplete(m), rand);
            &&& !step.amf.world.is_live(id)
            &&& other != id ==> step.amf.world.entity(other) == amf.world.entity(other)
            &&& amf.world.identity(id) is Some ==> !step.amf.registry.contains_key(amf.world.identity(id)->0.imsi)
            &&& match amf.world.tunnel(id) {
                Some(t) => {
                    &&& !step.amf.teids.outstanding(t.ul_teid)
                    &&& step.amf.teids.free.len() == amf.teids.free.len() + 1
                    &&& step.events == seq![N3EventView::RemoveSession { ul_teid: t.ul_teid }]
                },
                None => step.amf.teids == amf.teids && step.events.len() == 0,
            }
            &&& step.messages.len() == 0
            &&& ngap_step(step.amf, NgapMessageView::UeContextReleaseComplete(again), rand) == step.amf.idle()
        }),
{
    reveal(ngap_step);
    let id = m.amf_ue_ngap_id;
    let step = release_step(amf, id);
    despawn_removes_one(amf.world, id, other);
    despawn_removes_one(amf.world, id, id);
    despawn_removes_one(step.amf.world, id, id);
    if amf.world.tunnel(id) is Some {
        assert(step.amf.teids.free.last() == amf.world.tunnel(id)->0.ul_teid);
    }
}

/// The entity that a message is about; for a first message, the one that it
/// creates.
pub open spec fn subject_of(amf: AmfView, msg: NgapMessageView) -> Option<u32> {
    match msg {
        NgapMessageView::InitialUeMessage(_) => Some(amf.world.next_id()),
        NgapMessageView::UplinkNasTransport(m) => Some(m.amf_ue_ngap_id),
        NgapMessageView::InitialContextSetupResponse(m) => Some(m.amf_ue_ngap_id),
        NgapMessageView::UeContextReleaseComplete(m) => Some(m.amf_ue_ngap_id),
        _ => None,
    }
}

/// A message about one UE leaves all other UEs as they are.
pub proof fn other_ues_are_not_disturbed(amf: AmfView, msg: NgapMessageView, rand: Seq<u8>, other: u32)
    requires
        amf.world.wf(),
        has_room_for(amf, msg),
        subject_of(amf, msg) != Some(other),
    ensures
        ngap_step(amf, msg, rand).amf.world.entity(other) == amf.world.entity(other),
{
    reveal(ngap_step);
    match msg {
        NgapMessageView::InitialUeMessage(m) => {
            if starts_registration(m.nas_pdu) {
                spawn_is_fresh(amf.world, other);
            }
        },
        NgapMessageView::UplinkNasTransport(m) => {
            let (world, plain) = opened_uplink(amf.world, m.amf_ue_ngap_id, m.nas_pdu);
            assert(world.entity(other) == amf.world.entity(other));
        },
        NgapMessageView::UeContextReleaseComplete(m) => {
            despawn_removes_one(amf.world, m.amf_ue_ngap_id, other);
        },
        _ => {},
    }
}

// ── What has no effect ────────────────────────────────────────────────────────

/// A registration with a GUTI, and a first message that is no
/// RegistrationRequest, is dropped.
pub proof fn unsupported_first_messages_are_dropped(amf: AmfView, m: InitialUeMessageView, rand: Seq<u8>)
    requires
        !starts_registration(m.nas_pdu),
    ensures
        ngap_step(amf, NgapMessageView::InitialUeMessage(m), rand) == amf.idle(),
{
    reveal(ngap_step);
}

/// Messages that an AMF sends, and those of procedures that it does not take
/// part in, are dropped when they come in.
pub proof fn other_messages_are_dropped(amf: AmfView, msg: NgapMessageView, rand: Seq<u8>)
    requires
        !(msg is InitialUeMessage),
        !(msg is UplinkNasTransport),
        !(msg is InitialContextSetupResponse),
        !(msg is UeContextReleaseComplete),
    ensures
        ngap_step(amf, msg, rand) == amf.idle(),
{
    reveal(ngap_step);
}

/// A protected uplink PDU for an entity without a security context is
/// dropped, and so is one whose MAC-I does not verify.
pub proof fn unverified_uplinks_are_dropped(amf: AmfView, m: UplinkNasTransportView, rand: Seq<u8>)
    requires
        security_header_type(m.nas_pdu) != NAS5GS_SHT_PLAIN,
        opened_uplink(amf.world, m.amf_ue_ngap_id, m.nas_pdu).1 is None,
    ensures
        ngap_step(amf, NgapMessageView::UplinkNasTransport(m), rand) == amf.idle(),
{
    reveal(ngap_step);
    let id = m.amf_ue_ngap_id;
    if amf.world.nas_security5g(id) is Some {
        let ctx = amf.world.nas_security5g(id)->0;
        assert(amf.world.with_nas_security5g(id, ctx).slots =~= amf.world.slots);
    }
}

} // verus!
