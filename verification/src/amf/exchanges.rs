//! Laws of what an AMF answers, message by message: which octets go out, and
//! what is remembered.

use vstd::prelude::*;

use crate::amf::laws::uplink;
use crate::amf::registration::activated;
use crate::amf::state_machine::{
    ngap_step, opened_uplink, plain_step, AmfStep, AmfView, N3EventView,
};
use crate::crypto::hmac_sha256_tag;
use crate::ecs::{
    despawn_removes_one, spawn_is_fresh, zeros, AkaView, AuthFailReason, AuthState, EntityView, IdentityView,
    TunnelView, WorldView,
};
use crate::hss::{sqn_octets, SubscriberView};
use crate::kdf::{kamf, kausf, kseaf, network_name, res_star, supi_text};
use crate::milenage;
use crate::nas::security::NasSecurityContextView;
use crate::nas5gs::codec::{nas5gs_pdu, sealed_downlink, sealed_uplink, Nas5gsPduView};
use crate::nas5gs::formats::{
    authentication_formats, authentication_is_read, bare_formats, identity_request_format, identity_response_is_read,
    registration_accept_format, sec_mode_cmd_format, short_messages_are_read,
};
use crate::nas5gs::laws::uplink_round_trip;
use crate::nas5gs::protection::{fresh_context_is_derived, protected_pdu_octets};
use crate::ngap::messages::{
    DownlinkNasTransportView, InitialContextSetupResponseView, InitialUeMessageView, NgapCause, NgapMessageView,
    UeContextReleaseCompleteView,
};

verus! {

// ── Uplinks ───────────────────────────────────────────────────────────────────

/// A UE that shares the keys of the network, and is less than 256 messages
/// ahead of it, is understood: what it protects reaches the network as it was,
/// and counts once.
pub proof fn genuine_uplinks_are_processed(
    amf: AmfView,
    id: u32,
    ran: u32,
    ue: NasSecurityContextView,
    sht: u8,
    plain: Seq<u8>,
    tai: Seq<u8>,
    nr_cgi: Seq<u8>,
    rand: Seq<u8>,
)
    requires
        amf.world.nas_security5g(id) is Some,
        amf.world.nas_security5g(id)->0.agrees_with(ue),
        amf.world.nas_security5g(id)->0.ul_count <= ue.ul_count < amf.world.nas_security5g(id)->0.ul_count + 256,
        sht % 16 != 0,
    ensures
        ({
            let pdu = sealed_uplink(ue, sht, plain);
            let after = amf.world.with_nas_security5g(
                id,
                NasSecurityContextView {
                    ul_count: ((ue.ul_count + 1) % 0x1_0000_0000) as u32,
                    ..amf.world.nas_security5g(id)->0
                },
            );
            &&& opened_uplink(amf.world, id, pdu) == (after, Some(plain))
            &&& ngap_step(amf, uplink(id, ran, pdu, tai, nr_cgi), rand) == plain_step(
                AmfView { world: after, ..amf },
                ran,
                id,
                plain,
                rand,
            )
        }),
{
    reveal(ngap_step);
    let net = amf.world.nas_security5g(id)->0;
    uplink_round_trip(net, ue, sht, plain);
    protected_pdu_octets(ue, sht, plain);
}

/// An uplink whose second octet has no security header type goes straight to
/// its step. One that has is dropped where there is no security context.
pub proof fn unprotected_uplinks(
    amf: AmfView,
    id: u32,
    ran: u32,
    pdu: Seq<u8>,
    tai: Seq<u8>,
    nr_cgi: Seq<u8>,
    rand: Seq<u8>,
)
    ensures
        pdu.len() < 2 || pdu[1] % 16 == 0 ==> ngap_step(amf, uplink(id, ran, pdu, tai, nr_cgi), rand) == plain_step(
            amf,
            ran,
            id,
            pdu,
            rand,
        ),
        pdu.len() >= 2 && pdu[1] % 16 != 0 && amf.world.nas_security5g(id) is None ==> ngap_step(
            amf,
            uplink(id, ran, pdu, tai, nr_cgi),
            rand,
        ) == (AmfStep { amf, messages: Seq::empty(), events: Seq::empty() }),
{
    reveal(ngap_step);
}

/// A NAS PDU on its way to a UE.
pub open spec fn to_ue(id: u32, ran: u32, nas_pdu: Seq<u8>) -> NgapMessageView {
    NgapMessageView::DownlinkNasTransport(
        DownlinkNasTransportView { amf_ue_ngap_id: id, ran_ue_ngap_id: ran, nas_pdu },
    )
}

// ── Registration ──────────────────────────────────────────────────────────────

/// A RegistrationRequest without a GUTI is answered with a request for the
/// SUCI; a new entity remembers the serving network. Nobody else is affected.
pub proof fn registration_request_is_answered(amf: AmfView, m: InitialUeMessageView, rand: Seq<u8>, other: u32)
    requires
        amf.world.wf(),
        !amf.world.full(),
        nas5gs_pdu(m.nas_pdu) matches Ok(Nas5gsPduView::RegistrationRequest { guti: None, .. }),
    ensures
        ({
            let id = amf.world.next_id();
            let step = ngap_step(amf, NgapMessageView::InitialUeMessage(m), rand);
            let e = step.amf.world.entity(id)->0;
            &&& step.events.len() == 0
            &&& step.messages == seq![to_ue(id, m.ran_ue_ngap_id, seq![0x7Eu8, 0x00, 0x5B, 0x01])]
            &&& step.amf.world.entity(id) is Some
            &&& e == EntityView {
                identity: Some(
                    IdentityView { imsi: 0, enb_ue_s1ap_id: m.ran_ue_ngap_id, ue_ip: seq![0u8, 0, 0, 0] },
                ),
                security5g: Some(
                    AkaView {
                        pending_rand: zeros(16),
                        pending_xres_star: zeros(16),
                        ck: zeros(16),
                        ik: zeros(16),
                        ak: zeros(6),
                        plmn: m.tai.subrange(0, 3),
                        sqn_used: zeros(6),
                    },
                ),
                ..EntityView::fresh()
            }
            &&& other != id ==> step.amf.world.entity(other) == amf.world.entity(other)
            &&& step.amf == AmfView { world: step.amf.world, ..amf }
        }),
{
    reveal(ngap_step);
    spawn_is_fresh(amf.world, other);
    identity_request_format(1);
    assert(zeros(4) =~= seq![0u8, 0, 0, 0]);
}

/// Any other initial message has no effect.
pub proof fn other_initial_messages_are_ignored(amf: AmfView, m: InitialUeMessageView, rand: Seq<u8>)
    requires
        !(nas5gs_pdu(m.nas_pdu) matches Ok(Nas5gsPduView::RegistrationRequest { guti: None, .. })),
    ensures
        ngap_step(amf, NgapMessageView::InitialUeMessage(m), rand) == (AmfStep {
            amf,
            messages: Seq::empty(),
            events: Seq::empty(),
        }),
{
    reveal(ngap_step);
}

/// An IdentityResponse with the null-scheme SUCI of a subscriber is answered
/// with a challenge: RAND, and AUTN made of the masked SQN, the field 8000 and
/// MAC-A. The entity remembers what RES* must be. The IMSI is the MSIN as a
/// big-endian number.
pub proof fn identity_response_is_challenged(
    amf: AmfView,
    ran: u32,
    id: u32,
    mcc: Seq<u8>,
    mnc: Seq<u8>,
    routing: Seq<u8>,
    pki: u8,
    msin: Seq<u8>,
    rand: Seq<u8>,
    other: u32,
)
    requires
        mcc.len() == 3,
        mnc.len() == 3,
        routing.len() == 2,
        msin.len() == 5,
        rand.len() == 16,
        amf.world.security5g(id) is Some,
        amf.hss.contains_key(
            (msin[0] * 0x1_0000_0000 + msin[1] * 0x100_0000 + msin[2] * 0x1_0000 + msin[3] * 0x100 + msin[4]) as u64,
        ),
    ensures
        ({
            let imsi = (msin[0] * 0x1_0000_0000 + msin[1] * 0x100_0000 + msin[2] * 0x1_0000 + msin[3] * 0x100
                + msin[4]) as u64;
            let pdu = seq![0x7Eu8, 0x00, 0x5C, 0x10, 0x01] + mcc + mnc + routing + seq![0u8, pki] + msin;
            let s = amf.hss[imsi];
            let plmn = amf.world.security5g(id)->0.plmn;
            let step = plain_step(amf, ran, id, pdu, rand);
            let sqn = sqn_octets(s.sqn);
            let ck = milenage::ck(s.k, s.opc, rand);
            let ik = milenage::ik(s.k, s.opc, rand);
            let ak = milenage::ak(s.k, s.opc, rand);
            let field = seq![0x80u8, 0x00];
            &&& step.events.len() == 0
            &&& step.messages == seq![
                to_ue(
                    id,
                    ran,
                    seq![0x7Eu8, 0x00, 0x56, 0x00, 0x10] + rand + seq![0x10u8] + milenage::masked_sqn(sqn, ak) + field
                        + milenage::mac_a(s.k, s.opc, rand, sqn, field),
                ),
            ]
            &&& step.amf.world.entity(id) == Some(
                EntityView {
                    identity: Some(IdentityView { imsi, enb_ue_s1ap_id: ran, ue_ip: seq![0u8, 0, 0, 0] }),
                    auth: AuthState::ChallengeIssued,
                    security5g: Some(
                        AkaView {
                            pending_rand: rand,
                            pending_xres_star: res_star(
                                ck,
                                ik,
                                network_name(plmn),
                                rand,
                                milenage::res(s.k, s.opc, rand),
                            ),
                            ck,
                            ik,
                            ak,
                            plmn,
                            sqn_used: sqn,
                        },
                    ),
                    ..amf.world.entity(id)->0
                },
            )
            &&& other != id ==> step.amf.world.entity(other) == amf.world.entity(other)
            &&& step.amf.registry == amf.registry.insert(imsi, id)
            &&& step.amf.hss == amf.hss.insert(
                imsi,
                SubscriberView { sqn: ((s.sqn + 1) % 0x1_0000_0000_0000) as u64, ..s },
            )
            &&& step.amf.teids == amf.teids && step.amf.phase_b_upf == amf.phase_b_upf
        }),
{
    let imsi = (msin[0] * 0x1_0000_0000 + msin[1] * 0x100_0000 + msin[2] * 0x1_0000 + msin[3] * 0x100
        + msin[4]) as u64;
    let pdu = seq![0x7Eu8, 0x00, 0x5C, 0x10, 0x01] + mcc + mnc + routing + seq![0u8, pki] + msin;
    identity_response_is_read(pdu);
    assert(pdu.subrange(15, 20) =~= msin);
    let s = amf.hss[imsi];
    let sqn = sqn_octets(s.sqn);
    let ak = milenage::ak(s.k, s.opc, rand);
    let field = seq![0x80u8, 0x00];
    let mac_a = milenage::mac_a(s.k, s.opc, rand, sqn, field);
    let autn = milenage::masked_sqn(sqn, ak) + field + mac_a;
    authentication_formats(0, rand, autn, rand);
    assert(seq![0x7Eu8, 0x00, 0x56, 0x00, 0x10] + rand + seq![0x10u8] + autn =~= seq![0x7Eu8, 0x00, 0x56, 0x00, 0x10]
        + rand + seq![0x10u8] + milenage::masked_sqn(sqn, ak) + field + mac_a);
    assert(zeros(4) =~= seq![0u8, 0, 0, 0]);
}

/// An IdentityResponse without a SUCI, with a concealed one, or of an unknown
/// subscriber has no effect. Where no registration is in progress, only the SQN
/// of the subscriber is used up.
pub proof fn other_identities_are_ignored(amf: AmfView, ran: u32, id: u32, plain: Seq<u8>, rand: Seq<u8>)
    requires
        nas5gs_pdu(plain) matches Ok(Nas5gsPduView::IdentityResponse { suci }) && (suci is None
            || suci->0.protection_scheme != 0 || !amf.hss.contains_key(
            (suci->0.msin[0] * 0x1_0000_0000 + suci->0.msin[1] * 0x100_0000 + suci->0.msin[2] * 0x1_0000
                + suci->0.msin[3] * 0x100 + suci->0.msin[4]) as u64,
        )),
    ensures
        plain_step(amf, ran, id, plain, rand) == (AmfStep { amf, messages: Seq::empty(), events: Seq::empty() }),
{
}

/// RES* is compared with the expected one. If it is the same,
/// SecurityModeCommand goes out, with algorithms 2 and 2 and the capabilities
/// 2040; if not, nothing does. The challenge is wiped either way, so that it
/// counts once. Any other entity stays as it was.
pub proof fn authentication_response_is_compared(
    amf: AmfView,
    ran: u32,
    id: u32,
    response: Seq<u8>,
    rand: Seq<u8>,
    other: u32,
)
    requires
        amf.world.security5g(id) is Some,
        response.len() == 16,
    ensures
        ({
            let step = plain_step(amf, ran, id, seq![0x7Eu8, 0x00, 0x57, 0x10] + response, rand);
            let right = response == amf.world.security5g(id)->0.pending_xres_star;
            &&& step.events.len() == 0
            &&& step.messages == if right {
                seq![to_ue(id, ran, seq![0x7Eu8, 0x00, 0x5D, 0x22, 0x20, 0x40])]
            } else {
                Seq::empty()
            }
            &&& step.amf.world.entity(id) == Some(
                EntityView {
                    auth: if right {
                        AuthState::Authenticated
                    } else {
                        AuthState::Failed(AuthFailReason::ResMismatch)
                    },
                    security5g: Some(amf.world.security5g(id)->0.challenge_cleared()),
                    ..amf.world.entity(id)->0
                },
            )
            &&& other != id ==> step.amf.world.entity(other) == amf.world.entity(other)
            &&& step.amf == AmfView { world: step.amf.world, ..amf }
        }),
{
    let pdu = seq![0x7Eu8, 0x00, 0x57, 0x10] + response;
    authentication_is_read(pdu);
    assert(pdu.subrange(4, 20) =~= response);
    sec_mode_cmd_format(2, 2, 0x2040);
}

/// The key that the network and a SIM derive from what an entity remembers.
pub open spec fn session_key(w: WorldView, id: u32) -> Seq<u8> {
    let a = w.security5g(id)->0;
    let snn = network_name(a.plmn);
    kamf(
        kseaf(kausf(a.ck, a.ik, snn, milenage::masked_sqn(a.sqn_used, a.ak)), snn),
        supi_text(w.identity(id)->0.imsi),
        seq![0u8, 0],
    )
}

/// SecurityModeComplete puts ciphering and integrity protection into service
/// under the keys that KAMF gives, the uplink counted from 0; the keys that
/// KAMF came from are wiped. RegistrationAccept, with result 1, a GUTI that
/// ends in the number of the entity, and no tracking area, goes out as the
/// first downlink under them.
pub proof fn security_mode_complete_is_answered(amf: AmfView, ran: u32, id: u32, rand: Seq<u8>, other: u32)
    requires
        amf.world.security5g(id) is Some,
        amf.world.identity(id) is Some,
    ensures
        ({
            let step = plain_step(amf, ran, id, seq![0x7Eu8, 0x00, 0x5E], rand);
            let identity = amf.world.identity(id)->0;
            let key = session_key(amf.world, id);
            let ctx = step.amf.world.nas_security5g(id)->0;
            let number = seq![
                (id / 0x100_0000) as u8,
                (id / 0x1_0000 % 256) as u8,
                (id / 0x100 % 256) as u8,
                (id % 256) as u8,
            ];
            let accept = sealed_downlink(
                NasSecurityContextView { dl_count: 0, ..ctx },
                2,
                seq![0x7Eu8, 0x00, 0x42, 0x01, 0x0B, 0x02, 0, 0, 0, 0, 0, 0] + number + seq![0u8],
            );
            let teid = amf.teids.first();
            &&& step.amf.world.nas_security5g(id) is Some
            &&& ctx == activated(key).with_dl_count(1)
            &&& ctx.eea is Eea2 && ctx.eia is Eia2 && ctx.ul_count == 0 && ctx.dl_count == 1
            &&& step.amf.world.security5g(id) == Some(amf.world.security5g(id)->0.keys_cleared())
            &&& step.amf.world.identity(id) == amf.world.identity(id)
            &&& step.amf.world.entity(id)->0.auth == amf.world.entity(id)->0.auth
            &&& other != id ==> step.amf.world.entity(other) == amf.world.entity(other)
            &&& step.amf.hss == amf.hss && step.amf.registry == amf.registry && step.amf.phase_b_upf
                == amf.phase_b_upf
            &&& match amf.phase_b_upf {
                None => {
                    &&& step.messages == seq![to_ue(id, ran, accept)]
                    &&& step.events.len() == 0
                    &&& step.amf.teids == amf.teids
                    &&& step.amf.world.tunnel(id) == amf.world.tunnel(id)
                },
                Some(upf) => {
                    &&& step.messages.len() == 1
                    &&& step.messages[0] matches NgapMessageView::InitialContextSetupRequest(r) && {
                        &&& r.amf_ue_ngap_id == id && r.ran_ue_ngap_id == ran
                        &&& r.nas_pdu == Some(accept)
                        &&& r.security_key == key
                        &&& r.ue_ambr == (50_000_000u64, 50_000_000u64)
                        &&& r.pdu_sessions.len() == 1 && r.pdu_sessions[0].pdu_session_id == 1
                            && r.pdu_sessions[0].qfi == 1
                        &&& r.pdu_sessions[0].transport_layer_addr == upf
                        &&& r.pdu_sessions[0].gtp_teid == seq![
                            (teid / 0x100_0000) as u8,
                            (teid / 0x1_0000 % 256) as u8,
                            (teid / 0x100 % 256) as u8,
                            (teid % 256) as u8,
                        ]
                    }
                    &&& step.events.len() == 1
                    &&& step.events[0] matches N3EventView::CreateSession {
                        ul_teid,
                        entity_id,
                        imsi,
                        pdu_session_id,
                        qfi,
                        ue_ip,
                        gnb_addr,
                    } && {
                        &&& ul_teid == teid && entity_id == id && imsi == identity.imsi
                        &&& pdu_session_id == 1 && qfi == 1
                        &&& gnb_addr == seq![0u8, 0, 0, 0]
                        &&& ue_ip == seq![
                            ((10 + number[0]) % 256) as u8,
                            ((45 + number[1]) % 256) as u8,
                            number[2],
                            number[3],
                        ]
                    }
                    &&& step.amf.teids == amf.teids.taken()
                    &&& step.amf.world.tunnel(id) == Some(
                        TunnelView { ul_teid: teid, dl_teid: 0, enb_addr: seq![0u8, 0, 0, 0] },
                    )
                },
            }
        }),
{
    let pdu = seq![0x7Eu8, 0x00, 0x5E];
    short_messages_are_read(pdu);
    assert(zeros(4) =~= seq![0u8, 0, 0, 0]);
    let guti = crate::amf::registration::guti_octets(id);
    registration_accept_format(1, guti, Seq::empty());
    let number = seq![
        (id / 0x100_0000) as u8,
        (id / 0x1_0000 % 256) as u8,
        (id / 0x100 % 256) as u8,
        (id % 256) as u8,
    ];
    assert(crate::amf::registration::accept_octets(id) =~= seq![0x7Eu8, 0x00, 0x42, 0x01, 0x0B, 0x02, 0, 0, 0, 0, 0, 0]
        + number + seq![0u8]);
}

/// The keys of that context are the second halves of the HMACs of
/// `69 01 0001 02 0001` and `69 02 0001 02 0001` under KAMF.
pub proof fn activated_keys(kamf: Seq<u8>, i: int)
    requires
        0 <= i < 16,
    ensures
        activated(kamf).k_nas_enc[i] == hmac_sha256_tag(kamf, seq![0x69u8, 1, 0, 1, 2, 0, 1])[16 + i],
        activated(kamf).k_nas_int[i] == hmac_sha256_tag(kamf, seq![0x69u8, 2, 0, 1, 2, 0, 1])[16 + i],
        activated(kamf).k_nas_enc.len() == 16,
        activated(kamf).k_nas_int.len() == 16,
        activated(kamf).ul_count == 0,
        activated(kamf).dl_count == 0,
{
    fresh_context_is_derived(kamf, 2, 2, i);
}

/// A plain PDU of any other type, and one for an entity without what its step
/// needs, has no effect.
pub proof fn other_uplinks_are_ignored(amf: AmfView, ran: u32, id: u32, plain: Seq<u8>, rand: Seq<u8>)
    requires
        match nas5gs_pdu(plain) {
            Ok(Nas5gsPduView::IdentityResponse { .. }) => false,
            Ok(Nas5gsPduView::AuthenticationResponse { .. }) => amf.world.security5g(id) is None,
            Ok(Nas5gsPduView::SecurityModeComplete) => amf.world.security5g(id) is None || amf.world.identity(
                id,
            ) is None,
            Ok(Nas5gsPduView::DeregistrationRequest { .. }) => !amf.world.is_live(id),
            _ => true,
        },
    ensures
        plain_step(amf, ran, id, plain, rand) == (AmfStep { amf, messages: Seq::empty(), events: Seq::empty() }),
{
}

// ── Deregistration, context setup and release ─────────────────────────────────

/// A DeregistrationRequest of a live entity is answered with
/// DeregistrationAccept, protected where there is a security context, unless
/// the UE switches off; the gNodeB is told to release the UE in either case.
pub proof fn deregistration_request_is_answered(
    amf: AmfView,
    ran: u32,
    id: u32,
    pdu: Seq<u8>,
    rand: Seq<u8>,
    other: u32,
)
    requires
        amf.world.is_live(id),
        pdu.len() >= 4,
        pdu[0] == 0x7E,
        pdu[1] == 0x00,
        pdu[2] == 0x45,
    ensures
        ({
            let step = plain_step(amf, ran, id, pdu, rand);
            let release = NgapMessageView::UeContextReleaseCommand {
                amf_ue_ngap_id: id,
                ran_ue_ngap_id: ran,
                cause: NgapCause::NasDeregister,
            };
            let accept = seq![0x7Eu8, 0x00, 0x46];
            let e = amf.world.entity(id)->0;
            &&& step.events.len() == 0
            &&& pdu[3] / 8 % 2 == 1 ==> step.messages == seq![release] && step.amf == amf
            &&& pdu[3] / 8 % 2 == 0 ==> {
                &&& step.messages == seq![
                    to_ue(
                        id,
                        ran,
                        match e.nas_security5g {
                            Some(ctx) => sealed_downlink(ctx, 2, accept),
                            None => accept,
                        },
                    ),
                    release,
                ]
                &&& step.amf.world.entity(id) == Some(
                    EntityView {
                        nas_security5g: match e.nas_security5g {
                            Some(ctx) => Some(
                                NasSecurityContextView {
                                    dl_count: ((ctx.dl_count + 1) % 0x1_0000_0000) as u32,
                                    ..ctx
                                },
                            ),
                            None => None,
                        },
                        ..e
                    },
                )
                &&& other != id ==> step.amf.world.entity(other) == amf.world.entity(other)
                &&& step.amf == AmfView { world: step.amf.world, ..amf }
            }
        }),
{
    short_messages_are_read(pdu);
    bare_formats();
}

/// A context setup response completes the tunnel of its entity with the TEID
/// and the address of the first PDU session, and the UPF is told; without a
/// session or a tunnel it has no effect.
pub proof fn context_setup_is_completed(amf: AmfView, m: InitialContextSetupResponseView, rand: Seq<u8>, other: u32)
    requires
        m.pdu_sessions_setup.len() > 0 ==> m.pdu_sessions_setup[0].gtp_teid.len() == 4,
    ensures
        ({
            let id = m.amf_ue_ngap_id;
            let step = ngap_step(amf, NgapMessageView::InitialContextSetupResponse(m), rand);
            let session = m.pdu_sessions_setup[0];
            let t = session.gtp_teid;
            let dl_teid = (t[0] * 0x100_0000 + t[1] * 0x1_0000 + t[2] * 0x100 + t[3]) as u32;
            &&& step.messages.len() == 0
            &&& amf.world.tunnel(id) is Some && m.pdu_sessions_setup.len() > 0 ==> {
                let ul_teid = amf.world.tunnel(id)->0.ul_teid;
                &&& step.events == seq![
                    N3EventView::UpdateBearer { ul_teid, dl_teid, gnb_addr: session.transport_layer_addr },
                ]
                &&& step.amf.world.entity(id) == Some(
                    EntityView {
                        tunnel: Some(TunnelView { ul_teid, dl_teid, enb_addr: session.transport_layer_addr }),
                        ..amf.world.entity(id)->0
                    },
                )
                &&& other != id ==> step.amf.world.entity(other) == amf.world.entity(other)
                &&& step.amf == AmfView { world: step.amf.world, ..amf }
            }
            &&& amf.world.tunnel(id) is None || m.pdu_sessions_setup.len() == 0 ==> step.amf == amf
                && step.events.len() == 0
        }),
{
    reveal(ngap_step);
}

/// A release that is complete removes the entity and its IMSI, gives the TEID
/// back to be the next one, and tells the UPF; no message goes out. For an
/// entity that is gone nothing happens.
pub proof fn release_complete_is_final(amf: AmfView, m: UeContextReleaseCompleteView, rand: Seq<u8>, other: u32)
    requires
        amf.world.wf(),
    ensures
        ({
            let id = m.amf_ue_ngap_id;
            let step = ngap_step(amf, NgapMessageView::UeContextReleaseComplete(m), rand);
            &&& step.messages.len() == 0
            &&& !step.amf.world.is_live(id)
            &&& other != id ==> step.amf.world.entity(other) == amf.world.entity(other)
            &&& amf.world.identity(id) is Some ==> step.amf.registry == amf.registry.remove(
                amf.world.identity(id)->0.imsi,
            )
            &&& amf.world.identity(id) is None ==> step.amf.registry == amf.registry
            &&& amf.world.tunnel(id) is Some ==> {
                let ul_teid = amf.world.tunnel(id)->0.ul_teid;
                &&& step.events == seq![N3EventView::RemoveSession { ul_teid }]
                &&& step.amf.teids.first() == ul_teid && step.amf.teids.taken() == amf.teids
            }
            &&& amf.world.tunnel(id) is None ==> step.events.len() == 0 && step.amf.teids == amf.teids
            &&& !amf.world.is_live(id) ==> step.amf == amf
            &&& step.amf.hss == amf.hss && step.amf.phase_b_upf == amf.phase_b_upf
        }),
{
    reveal(ngap_step);
    let id = m.amf_ue_ngap_id;
    despawn_removes_one(amf.world, id, other);
    if amf.world.tunnel(id) is Some {
        let ul_teid = amf.world.tunnel(id)->0.ul_teid;
        assert(amf.teids.free.push(ul_teid).drop_last() =~= amf.teids.free);
    }
}

/// A message that only gNodeBs should get has no effect.
pub proof fn other_messages_are_ignored(amf: AmfView, msg: NgapMessageView, rand: Seq<u8>)
    requires
        !(msg is InitialUeMessage),
        !(msg is UplinkNasTransport),
        !(msg is InitialContextSetupResponse),
        !(msg is UeContextReleaseComplete),
    ensures
        ngap_step(amf, msg, rand) == (AmfStep { amf, messages: Seq::empty(), events: Seq::empty() }),
{
    reveal(ngap_step);
}

/// A new AMF knows nobody, sets up no sessions, and gives out TEIDs from
/// 00020000 on.
pub proof fn new_amf_is_empty()
    ensures
        AmfView::fresh().world.slots.len() == 0,
        AmfView::fresh().world.free.len() == 0,
        AmfView::fresh().registry == Map::<u64, u32>::empty(),
        AmfView::fresh().hss == Map::<u64, SubscriberView>::empty(),
        AmfView::fresh().phase_b_upf is None,
        AmfView::fresh().teids.first() == 0x0002_0000,
        AmfView::fresh().teids.taken().first() == 0x0002_0001,
{
}

} // verus!
