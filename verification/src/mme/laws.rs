//! Laws of the MME as a whole: what every message keeps, what an attach and a
//! release achieve, and what has no effect.

use vstd::prelude::*;

use crate::ecs::{
    despawn_removes_one, put_keeps_wf, spawn_is_fresh, zeros, AuthFailReason, AuthState, IdentityView, WorldView,
};
use crate::error::ProtoError;
use crate::hss::{amf_field, auth_info, sqn_octets, SubscriberView};
use crate::kdf::kasme;
use crate::milenage;
use crate::mme::attach::{
    accept_envelope, accept_octets, activated, after_accept, attach_world, auth_step, challenge_octets, challenged,
    context_setup, downlink, imsi_in, kasme_of, replayed_cap, res_in, security_mode_step, starts_attach, takes_teid,
    ATTACH_RESULT_EPS, DEFAULT_QCI, SELECTED_EEA, SELECTED_EIA, T3412_DEACTIVATED,
};
use crate::mme::detach::{detach_step, farewell_octets, release_command};
use crate::mme::state_machine::{
    has_room_for, opened_uplink, plain_has_room, plain_step, release_step, s1ap_step, security_header_type, MmeStep,
    MmeView, UpfEventView,
};
use crate::nas::codec::{
    attach_request_octets, auth_response_octets, bare_octets, nas_pdu, sec_mode_cmd_octets, AcceptFields, NasPduView,
    MT_DETACH_ACCEPT, MT_SECURITY_MODE_COMPLETE, SHT_INTEGRITY_CIPHERED, SHT_PLAIN,
};
use crate::nas::laws::{
    attach_accept_round_trip, attach_request_round_trip, auth_request_round_trip, auth_response_round_trip,
    bare_messages_round_trip, downlink_round_trip,
};
use crate::nas::security::{NasSecurityContextView, NAS_BEARER};
use crate::s1ap::messages::{InitialUeMessageView, S1apMessageView, UplinkNasTransportView};
use crate::tunnels::{
    new_tunnel_stays_sound, released_tunnel_stays_sound, same_teids_but, teid_of, tunnels_are_sound,
    unchanged_tunnels_stay_sound,
};

verus! {

// ── Soundness ─────────────────────────────────────────────────────────────────

/// What holds of an MME between messages.
pub open spec fn sound(mme: MmeView) -> bool {
    &&& mme.world.wf()
    &&& mme.teids.wf()
    &&& tunnels_are_sound(mme.world, mme.teids)
}

/// A new MME is sound.
pub proof fn new_mme_is_sound()
    ensures
        sound(MmeView::fresh()),
{
}

proof fn lemma_attach_sound(mme: MmeView, m: InitialUeMessageView, rand: Seq<u8>)
    requires
        sound(mme),
        has_room_for(mme, S1apMessageView::InitialUeMessage(m)),
    ensures
        sound(s1ap_step(mme, S1apMessageView::InitialUeMessage(m), rand).mme),
{
    reveal(s1ap_step);
    if starts_attach(mme.hss, m.nas_pdu) {
        let w = mme.world;
        let id = w.next_id();
        let imsi = imsi_in(m.nas_pdu)->0;
        let s = mme.hss[imsi];
        let v = attach_world(w, s, imsi, m.enb_ue_s1ap_id, m.tai, rand);
        spawn_is_fresh(w, id);
        let i = IdentityView { imsi, enb_ue_s1ap_id: m.enb_ue_s1ap_id, ue_ip: zeros(4) };
        let w1 = w.spawn().with_identity(id, i);
        let w2 = w1.with_security(id, challenged(s, rand, m.tai.subrange(0, 3)));
        put_keeps_wf(w.spawn(), id);
        put_keeps_wf(w1, id);
        put_keeps_wf(w2, id);
        assert forall|other: u32| other != id implies #[trigger] teid_of(v, other) == teid_of(w, other) by {
            spawn_is_fresh(w, other);
        }
        unchanged_tunnels_stay_sound(w, v, id, mme.teids);
    }
}

proof fn lemma_security_mode_sound(mme: MmeView, enb: u32, id: u32)
    requires
        sound(mme),
        takes_teid(mme.world, id, mme.phase3_upf) ==> mme.teids.available(),
    ensures
        ({
            let step = security_mode_step(mme.world, mme.teids, mme.phase3_upf, enb, id);
            step.world.wf() && step.teids.wf() && tunnels_are_sound(step.world, step.teids)
        }),
{
    let w = mme.world;
    let step = security_mode_step(w, mme.teids, mme.phase3_upf, enb, id);
    if w.identity(id) is Some && w.security(id) is Some {
        let sec = w.security(id)->0;
        let w1 = w.with_security(id, sec.keys_cleared());
        let w2 = w1.with_nas_security(id, after_accept(kasme_of(sec)));
        put_keeps_wf(w, id);
        put_keeps_wf(w1, id);
        put_keeps_wf(w2, id);
        assert(same_teids_but(w, step.world, id));
        if mme.phase3_upf is Some {
            new_tunnel_stays_sound(w, step.world, id, mme.teids);
        } else {
            unchanged_tunnels_stay_sound(w, step.world, id, mme.teids);
        }
    }
}

proof fn lemma_plain_sound(mme: MmeView, enb: u32, id: u32, plain: Seq<u8>)
    requires
        sound(mme),
        plain_has_room(mme, id, plain),
    ensures
        sound(plain_step(mme, enb, id, plain).mme),
{
    let w = mme.world;
    let v = plain_step(mme, enb, id, plain).mme.world;
    put_keeps_wf(w, id);
    match nas_pdu(plain) {
        Ok(NasPduView::SecurityModeComplete) => {
            lemma_security_mode_sound(mme, enb, id);
        },
        Ok(NasPduView::AuthenticationResponse { .. }) => {
            if w.security(id) is Some {
                put_keeps_wf(w.with_security(id, w.security(id)->0.challenge_cleared()), id);
            }
            assert(same_teids_but(w, v, id));
            unchanged_tunnels_stay_sound(w, v, id, mme.teids);
        },
        _ => {
            assert(same_teids_but(w, v, id));
            unchanged_tunnels_stay_sound(w, v, id, mme.teids);
        },
    }
}

/// To open an uplink PDU keeps an MME sound.
pub proof fn lemma_opened_sound(mme: MmeView, id: u32, pdu: Seq<u8>)
    requires
        sound(mme),
    ensures
        sound(MmeView { world: opened_uplink(mme.world, id, pdu).0, ..mme }),
{
    let world = opened_uplink(mme.world, id, pdu).0;
    put_keeps_wf(mme.world, id);
    assert(same_teids_but(mme.world, world, id));
    unchanged_tunnels_stay_sound(mme.world, world, id, mme.teids);
}

proof fn lemma_uplink_sound(mme: MmeView, m: UplinkNasTransportView, rand: Seq<u8>)
    requires
        sound(mme),
        has_room_for(mme, S1apMessageView::UplinkNasTransport(m)),
    ensures
        sound(s1ap_step(mme, S1apMessageView::UplinkNasTransport(m), rand).mme),
{
    reveal(s1ap_step);
    let id = m.mme_ue_s1ap_id;
    let (world, plain) = opened_uplink(mme.world, id, m.nas_pdu);
    lemma_opened_sound(mme, id, m.nas_pdu);
    if plain is Some {
        lemma_plain_sound(MmeView { world, ..mme }, m.enb_ue_s1ap_id, id, plain->0);
    }
}

proof fn lemma_release_sound(mme: MmeView, id: u32)
    requires
        sound(mme),
    ensures
        sound(release_step(mme, id).mme),
{
    let w = mme.world;
    let v = w.despawn(id);
    despawn_removes_one(w, id, id);
    assert forall|other: u32| other != id implies #[trigger] teid_of(v, other) == teid_of(w, other) by {
        despawn_removes_one(w, id, other);
    }
    if w.tunnel(id) is Some {
        released_tunnel_stays_sound(w, v, id, mme.teids);
    } else {
        unchanged_tunnels_stay_sound(w, v, id, mme.teids);
    }
}

/// Every message keeps an MME sound: no tunnel ever shares its TEID, and no
/// TEID of a live tunnel is ever given out again.
pub proof fn every_message_keeps_soundness(mme: MmeView, msg: S1apMessageView, rand: Seq<u8>)
    requires
        sound(mme),
        has_room_for(mme, msg),
    ensures
        sound(s1ap_step(mme, msg, rand).mme),
{
    reveal(s1ap_step);
    match msg {
        S1apMessageView::InitialUeMessage(m) => {
            lemma_attach_sound(mme, m, rand);
        },
        S1apMessageView::UplinkNasTransport(m) => {
            lemma_uplink_sound(mme, m, rand);
        },
        S1apMessageView::InitialContextSetupResponse(m) => {
            let v = s1ap_step(mme, msg, rand).mme.world;
            put_keeps_wf(mme.world, m.mme_ue_s1ap_id);
            assert(same_teids_but(mme.world, v, m.mme_ue_s1ap_id));
            unchanged_tunnels_stay_sound(mme.world, v, m.mme_ue_s1ap_id, mme.teids);
        },
        S1apMessageView::UeContextReleaseComplete { mme_ue_s1ap_id, .. } => {
            lemma_release_sound(mme, mme_ue_s1ap_id);
        },
        _ => {},
    }
}

// ── Attach ────────────────────────────────────────────────────────────────────

/// An entity is authenticated by an AuthenticationResponse exactly when RES is
/// the expected one; else it has failed, and nothing goes out. Either way the
/// pending challenge is wiped.
pub proof fn only_the_expected_response_authenticates(w: WorldView, enb: u32, id: u32, pdu: Seq<u8>)
    requires
        res_in(pdu) is Some,
        w.security(id) is Some,
    ensures
        ({
            let (after, messages) = auth_step(w, enb, id, pdu);
            let expected = res_in(pdu)->0 == w.security(id)->0.pending_xres;
            &&& after.is_live(id)
            &&& expected ==> after.entity(id)->0.auth == AuthState::Authenticated && messages.len() == 1
            &&& !expected ==> after.entity(id)->0.auth == AuthState::Failed(AuthFailReason::ResMismatch)
                && messages.len() == 0
            &&& after.security(id) == Some(w.security(id)->0.challenge_cleared())
        }),
{
    reveal(s1ap_step);
}

/// The Kasme that a SIM with these secrets derives.
pub open spec fn sim_kasme(k: Seq<u8>, opc: Seq<u8>, plmn: Seq<u8>, rand: Seq<u8>, sqn: Seq<u8>) -> Seq<u8> {
    kasme(
        milenage::ck(k, opc, rand),
        milenage::ik(k, opc, rand),
        plmn,
        milenage::masked_sqn(sqn, milenage::ak(k, opc, rand)),
    )
}

/// An uplink NAS PDU of a UE.
pub open spec fn uplink(id: u32, enb: u32, pdu: Seq<u8>, tai: Seq<u8>, eutran_cgi: Seq<u8>) -> S1apMessageView {
    S1apMessageView::UplinkNasTransport(
        UplinkNasTransportView { mme_ue_s1ap_id: id, enb_ue_s1ap_id: enb, nas_pdu: pdu, tai, eutran_cgi },
    )
}

/// The three messages that take a UE through an attach, and what the MME makes
/// of each.
pub open spec fn attach_run(
    mme: MmeView,
    imsi: u64,
    first: InitialUeMessageView,
    eutran_cgi: Seq<u8>,
    challenge: Seq<u8>,
    rand: Seq<u8>,
) -> (MmeStep, MmeStep, MmeStep) {
    let id = mme.world.next_id();
    let enb = first.enb_ue_s1ap_id;
    let s = mme.hss[imsi];
    let s1 = s1ap_step(mme, S1apMessageView::InitialUeMessage(first), challenge);
    let s2 = s1ap_step(
        s1.mme,
        uplink(id, enb, auth_response_octets(milenage::res(s.k, s.opc, challenge)), first.tai, eutran_cgi),
        rand,
    );
    let s3 = s1ap_step(
        s2.mme,
        uplink(id, enb, bare_octets(MT_SECURITY_MODE_COMPLETE), first.tai, eutran_cgi),
        rand,
    );
    (s1, s2, s3)
}

/// What the gateway is told of the bearer of an attach.
pub open spec fn new_bearer(ul_teid: u32, id: u32, imsi: u64, ue_ip: Seq<u8>) -> UpfEventView {
    UpfEventView::CreateSession {
        ul_teid,
        entity_id: id,
        imsi,
        qci: DEFAULT_QCI,
        ue_ip,
        enb_addr: zeros(4),
    }
}

proof fn lemma_step_1(mme: MmeView, imsi: u64, m: InitialUeMessageView, attach_type: u8, ksi: u8, rand: Seq<u8>)
    requires
        mme.world.wf(),
        !mme.world.full(),
        mme.hss.contains_key(imsi),
        m.nas_pdu == attach_request_octets(imsi, attach_type, ksi),
    ensures
        ({
            let id = mme.world.next_id();
            let step = s1ap_step(mme, S1apMessageView::InitialUeMessage(m), rand);
            &&& step.messages == seq![downlink(id, m.enb_ue_s1ap_id, challenge_octets(mme.hss[imsi], rand))]
            &&& step.events == Seq::<UpfEventView>::empty()
            &&& step.mme.world.security(id) == Some(challenged(mme.hss[imsi], rand, m.tai.subrange(0, 3)))
            &&& step.mme.world.identity(id) == Some(
                IdentityView { imsi, enb_ue_s1ap_id: m.enb_ue_s1ap_id, ue_ip: zeros(4) },
            )
            &&& step.mme.teids == mme.teids
            &&& step.mme.phase3_upf == mme.phase3_upf
        }),
{
    reveal(s1ap_step);
    attach_request_round_trip(imsi, attach_type, ksi);
    spawn_is_fresh(mme.world, mme.world.next_id());
}

proof fn lemma_step_2(
    mme: MmeView,
    id: u32,
    enb: u32,
    s: SubscriberView,
    plmn: Seq<u8>,
    tai: Seq<u8>,
    eutran_cgi: Seq<u8>,
    challenge: Seq<u8>,
    rand: Seq<u8>,
)
    requires
        mme.world.security(id) == Some(challenged(s, challenge, plmn)),
    ensures
        ({
            let pdu = auth_response_octets(milenage::res(s.k, s.opc, challenge));
            let step = s1ap_step(mme, uplink(id, enb, pdu, tai, eutran_cgi), rand);
            &&& step.messages == seq![
                downlink(id, enb, sec_mode_cmd_octets(SELECTED_EEA, SELECTED_EIA, 0, replayed_cap())),
            ]
            &&& step.events == Seq::<UpfEventView>::empty()
            &&& step.mme.world.security(id) == Some(challenged(s, challenge, plmn).challenge_cleared())
            &&& step.mme.world.identity(id) == mme.world.identity(id)
            &&& step.mme.world.entity(id)->0.auth == AuthState::Authenticated
            &&& step.mme.teids == mme.teids
            &&& step.mme.phase3_upf == mme.phase3_upf
        }),
{
    reveal(s1ap_step);
    let r = milenage::res(s.k, s.opc, challenge);
    auth_response_round_trip(r);
    assert(auth_response_octets(r)[0] == 7);
}

proof fn lemma_step_3(
    mme: MmeView,
    id: u32,
    enb: u32,
    s: SubscriberView,
    plmn: Seq<u8>,
    tai: Seq<u8>,
    eutran_cgi: Seq<u8>,
    challenge: Seq<u8>,
    rand: Seq<u8>,
)
    requires
        mme.world.security(id) == Some(challenged(s, challenge, plmn).challenge_cleared()),
        mme.world.identity(id) is Some,
    ensures
        ({
            let step = s1ap_step(
                mme,
                uplink(id, enb, bare_octets(MT_SECURITY_MODE_COMPLETE), tai, eutran_cgi),
                rand,
            );
            let key = sim_kasme(s.k, s.opc, plmn, challenge, sqn_octets(s.sqn));
            let ue_ip = mme.world.identity(id)->0.ue_ip;
            &&& step.mme.world.nas_security(id) == Some(after_accept(key))
            &&& step.mme.world.entity(id)->0.auth == mme.world.entity(id)->0.auth
            &&& mme.phase3_upf is None ==> step.messages == seq![downlink(id, enb, accept_envelope(key, ue_ip))]
                && step.events.len() == 0
            &&& mme.phase3_upf is Some ==> step.messages == seq![
                context_setup(id, enb, mme.teids.first(), mme.phase3_upf->0, key, ue_ip),
            ] && step.events == seq![
                new_bearer(mme.teids.first(), id, mme.world.identity(id)->0.imsi, ue_ip),
            ] && teid_of(step.mme.world, id) == Some(mme.teids.first())
            &&& step.mme.world.identity(id) == mme.world.identity(id)
        }),
{
    reveal(s1ap_step);
    bare_messages_round_trip();
    assert(bare_octets(MT_SECURITY_MODE_COMPLETE)[0] == 7);
    assert(kasme_of(challenged(s, challenge, plmn).challenge_cleared()) == sim_kasme(
        s.k,
        s.opc,
        plmn,
        challenge,
        sqn_octets(s.sqn),
    ));
}

/// A subscriber who answers as a SIM with the provisioned secrets does is
/// attached: the challenge goes out, RES is accepted, and AttachAccept goes
/// out under keys that the SIM derives too. In phase 3 it carries an EPS
/// bearer, and the gateway is told.
pub proof fn attach_succeeds(
    mme: MmeView,
    imsi: u64,
    first: InitialUeMessageView,
    attach_type: u8,
    ksi: u8,
    eutran_cgi: Seq<u8>,
    challenge: Seq<u8>,
    rand: Seq<u8>,
)
    requires
        mme.world.wf(),
        !mme.world.full(),
        mme.hss.contains_key(imsi),
        first.nas_pdu == attach_request_octets(imsi, attach_type, ksi),
    ensures
        ({
            let (s1, s2, s3) = attach_run(mme, imsi, first, eutran_cgi, challenge, rand);
            let id = mme.world.next_id();
            let enb = first.enb_ue_s1ap_id;
            let s = mme.hss[imsi];
            let key = sim_kasme(s.k, s.opc, first.tai.subrange(0, 3), challenge, sqn_octets(s.sqn));
            &&& s1.messages == seq![downlink(id, enb, challenge_octets(s, challenge))]
            &&& s2.messages == seq![
                downlink(id, enb, sec_mode_cmd_octets(SELECTED_EEA, SELECTED_EIA, 0, replayed_cap())),
            ]
            &&& mme.phase3_upf is None ==> s3.messages == seq![
                downlink(id, enb, accept_envelope(key, zeros(4))),
            ]
            &&& mme.phase3_upf is Some ==> s3.messages == seq![
                context_setup(id, enb, mme.teids.first(), mme.phase3_upf->0, key, zeros(4)),
            ]
            &&& s1.events.len() == 0 && s2.events.len() == 0
            &&& mme.phase3_upf is None ==> s3.events.len() == 0
            &&& mme.phase3_upf is Some ==> s3.events == seq![new_bearer(mme.teids.first(), id, imsi, zeros(4))]
                && teid_of(s3.mme.world, id) == Some(mme.teids.first())
            &&& s3.mme.world.is_live(id)
            &&& s3.mme.world.identity(id) == Some(
                IdentityView { imsi, enb_ue_s1ap_id: enb, ue_ip: zeros(4) },
            )
            &&& s3.mme.world.entity(id)->0.auth == AuthState::Authenticated
            &&& s3.mme.world.nas_security(id) == Some(after_accept(key))
        }),
{
    let id = mme.world.next_id();
    let enb = first.enb_ue_s1ap_id;
    let tai = first.tai;
    let plmn = tai.subrange(0, 3);
    let s = mme.hss[imsi];
    let (s1, s2, s3) = attach_run(mme, imsi, first, eutran_cgi, challenge, rand);
    lemma_step_1(mme, imsi, first, attach_type, ksi, challenge);
    lemma_step_2(s1.mme, id, enb, s, plmn, tai, eutran_cgi, challenge, rand);
    lemma_step_3(s2.mme, id, enb, s, plmn, tai, eutran_cgi, challenge, rand);
}

/// The challenge of a subscriber reaches the UE unchanged, and AUTN shows SQN
/// to a SIM that has the anonymity key.
pub proof fn ue_reads_the_challenge(s: SubscriberView, challenge: Seq<u8>)
    requires
        challenge.len() == 16,
    ensures
        ({
            let info = auth_info(s, challenge);
            let autn = milenage::autn_octets(sqn_octets(s.sqn), info.vector.ak, amf_field(), info.vector.mac_a);
            &&& nas_pdu(challenge_octets(s, challenge)) == Ok::<NasPduView, ProtoError>(
                NasPduView::AuthenticationRequest { nas_ksi: 0, rand: challenge, autn },
            )
            &&& milenage::masked_sqn(autn.subrange(0, 6), info.vector.ak) == sqn_octets(s.sqn)
        }),
{
    let info = auth_info(s, challenge);
    let autn = milenage::autn_octets(sqn_octets(s.sqn), info.vector.ak, amf_field(), info.vector.mac_a);
    assert(autn.subrange(0, 6) =~= milenage::masked_sqn(sqn_octets(s.sqn), info.vector.ak));
    milenage::sqn_is_recovered(sqn_octets(s.sqn), info.vector.ak);
    auth_request_round_trip(0, challenge, autn);
}

/// The UE that derived Kasme opens AttachAccept, and finds its address.
pub proof fn ue_opens_attach_accept(key: Seq<u8>, ue_ip: Seq<u8>)
    requires
        ue_ip.len() == 4,
    ensures
        activated(key).unsealed_downlink(accept_envelope(key, ue_ip), NAS_BEARER) == (
            Some(accept_octets(ue_ip)),
            after_accept(key),
        ),
        nas_pdu(accept_octets(ue_ip)) == Ok::<NasPduView, ProtoError>(
            NasPduView::AttachAccept {
                attach_result: ATTACH_RESULT_EPS,
                t3412_value: T3412_DEACTIVATED,
                optional: AcceptFields { guti: None, ip_address: Some(ue_ip), apn: None },
            },
        ),
{
    downlink_round_trip(activated(key), activated(key), SHT_INTEGRITY_CIPHERED, NAS_BEARER, accept_octets(ue_ip));
    attach_accept_round_trip(ATTACH_RESULT_EPS, T3412_DEACTIVATED, Seq::empty(), Some(ue_ip), None);
}

// ── Detach ────────────────────────────────────────────────────────────────────

/// A UE whose context agrees with the network's opens DetachAccept, as long as
/// it has missed fewer than 256 messages.
pub proof fn ue_opens_detach_accept(w: WorldView, id: u32, ue: NasSecurityContextView)
    requires
        w.nas_security(id) is Some,
        w.nas_security(id)->0.agrees_with(ue),
        ue.dl_count <= w.nas_security(id)->0.dl_count < ue.dl_count + 256,
    ensures
        ue.unsealed_downlink(farewell_octets(w, id), NAS_BEARER).0 == Some(bare_octets(MT_DETACH_ACCEPT)),
        nas_pdu(bare_octets(MT_DETACH_ACCEPT)) == Ok::<NasPduView, ProtoError>(NasPduView::DetachAccept),
{
    downlink_round_trip(
        w.nas_security(id)->0,
        ue,
        SHT_INTEGRITY_CIPHERED,
        NAS_BEARER,
        bare_octets(MT_DETACH_ACCEPT),
    );
    bare_messages_round_trip();
}

/// A detach is a release command for the UE, preceded by an accept unless the
/// UE is switched off. The entity stays until the release is complete.
pub proof fn detach_releases(w: WorldView, enb: u32, id: u32, pdu: Seq<u8>)
    requires
        nas_pdu(pdu) is Ok,
        nas_pdu(pdu)->Ok_0 is DetachRequest,
        w.is_live(id),
    ensures
        ({
            let (after, messages) = detach_step(w, enb, id, pdu);
            let switch_off = nas_pdu(pdu)->Ok_0->switch_off;
            &&& messages.len() == if switch_off {
                1nat
            } else {
                2nat
            }
            &&& messages.last() == release_command(id, enb)
            &&& after.is_live(id)
            &&& switch_off ==> after == w
        }),
{
}

/// A completed release leaves nothing behind: the entity is gone, its IMSI is
/// not registered, its TEID is among the free ones, the UPF is told, and no
/// other entity has changed. A second release does nothing: no TEID is freed
/// twice.
pub proof fn release_tears_down(mme: MmeView, id: u32, enb: u32, enb_again: u32, other: u32, rand: Seq<u8>)
    requires
        mme.world.wf(),
    ensures
        ({
            let step = s1ap_step(mme, release_complete(id, enb), rand);
            &&& !step.mme.world.is_live(id)
            &&& other != id ==> step.mme.world.entity(other) == mme.world.entity(other)
            &&& mme.world.identity(id) is Some ==> !step.mme.registry.contains_key(mme.world.identity(id)->0.imsi)
            &&& match mme.world.tunnel(id) {
                Some(t) => {
                    &&& !step.mme.teids.outstanding(t.ul_teid)
                    &&& step.mme.teids.free.len() == mme.teids.free.len() + 1
                    &&& step.events == seq![UpfEventView::RemoveSession { ul_teid: t.ul_teid }]
                },
                None => step.mme.teids == mme.teids && step.events.len() == 0,
            }
            &&& step.messages.len() == 0
            &&& s1ap_step(step.mme, release_complete(id, enb_again), rand) == step.mme.idle()
        }),
{
    reveal(s1ap_step);
    let step = release_step(mme, id);
    despawn_removes_one(mme.world, id, other);
    despawn_removes_one(mme.world, id, id);
    despawn_removes_one(step.mme.world, id, id);
    if mme.world.tunnel(id) is Some {
        assert(step.mme.teids.free.last() == mme.world.tunnel(id)->0.ul_teid);
    }
}

/// The confirmation that a UE context is released.
pub open spec fn release_complete(id: u32, enb: u32) -> S1apMessageView {
    S1apMessageView::UeContextReleaseComplete { mme_ue_s1ap_id: id, enb_ue_s1ap_id: enb }
}

// ── What has no effect ────────────────────────────────────────────────────────

/// An attach without an IMSI, or of an unknown subscriber, is dropped.
pub proof fn unsupported_first_messages_are_dropped(mme: MmeView, m: InitialUeMessageView, rand: Seq<u8>)
    requires
        !starts_attach(mme.hss, m.nas_pdu),
    ensures
        s1ap_step(mme, S1apMessageView::InitialUeMessage(m), rand) == mme.idle(),
{
    reveal(s1ap_step);
}

/// A protected uplink PDU for an entity without a security context is
/// dropped, and so is one whose MAC-I does not verify.
pub proof fn unverified_uplinks_are_dropped(mme: MmeView, m: UplinkNasTransportView, rand: Seq<u8>)
    requires
        security_header_type(m.nas_pdu) != SHT_PLAIN,
        opened_uplink(mme.world, m.mme_ue_s1ap_id, m.nas_pdu).1 is None,
    ensures
        s1ap_step(mme, S1apMessageView::UplinkNasTransport(m), rand) == mme.idle(),
{
    reveal(s1ap_step);
    let id = m.mme_ue_s1ap_id;
    if mme.world.nas_security(id) is Some {
        let ctx = mme.world.nas_security(id)->0;
        assert(mme.world.with_nas_security(id, ctx).slots =~= mme.world.slots);
    }
}

} // verus!
