//! Laws of what an MME answers, message by message: which octets go out, and
//! what is remembered.

use vstd::prelude::*;

use crate::ecs::{despawn_removes_one, spawn_is_fresh, AuthFailReason, AuthState, EntityView, TunnelView, WorldView};
use crate::hss::{sqn_octets, SubscriberView};
use crate::kdf::kasme;
use crate::milenage;
use crate::mme::attach::activated;
use crate::mme::laws::{release_complete, uplink};
use crate::mme::state_machine::{
    opened_uplink, plain_step, s1ap_step, MmeStep, MmeView, UpfEventView,
};
use crate::nas::codec::{nas_pdu, NasPduView};
use crate::nas::formats::{
    attach_accept_format, auth_request_format, auth_response_is_read, bare_formats, sec_mode_cmd_format,
    short_messages_are_read,
};
use crate::nas::laws::uplink_round_trip;
use crate::nas::protection::{nas_keys_are_second_halves, protected_pdu_octets};
use crate::nas::security::NasSecurityContextView;
use crate::s1ap::messages::{
    DownlinkNasTransportView, InitialContextSetupResponseView, InitialUeMessageView, S1apCause, S1apMessageView,
};

verus! {

// ── Uplinks ───────────────────────────────────────────────────────────────────

/// A UE that shares the keys of the network, and is less than 256 messages
/// ahead of it, is understood: what it protects with BEARER 0 reaches the
/// network as it was, and counts once.
pub proof fn genuine_uplinks_are_processed(
    mme: MmeView,
    id: u32,
    enb: u32,
    ue: NasSecurityContextView,
    sht: u8,
    plain: Seq<u8>,
    tai: Seq<u8>,
    eutran_cgi: Seq<u8>,
    rand: Seq<u8>,
)
    requires
        mme.world.nas_security(id) is Some,
        mme.world.nas_security(id)->0.agrees_with(ue),
        mme.world.nas_security(id)->0.ul_count <= ue.ul_count < mme.world.nas_security(id)->0.ul_count + 256,
        sht % 16 != 0,
    ensures
        ({
            let pdu = ue.sealed_uplink(sht, 0, plain);
            let after = mme.world.with_nas_security(
                id,
                NasSecurityContextView {
                    ul_count: ((ue.ul_count + 1) % 0x1_0000_0000) as u32,
                    ..mme.world.nas_security(id)->0
                },
            );
            &&& opened_uplink(mme.world, id, pdu) == (after, Some(plain))
            &&& s1ap_step(mme, uplink(id, enb, pdu, tai, eutran_cgi), rand) == plain_step(
                MmeView { world: after, ..mme },
                enb,
                id,
                plain,
            )
        }),
{
    reveal(s1ap_step);
    let net = mme.world.nas_security(id)->0;
    uplink_round_trip(net, ue, sht, 0, plain);
    protected_pdu_octets(ue, sht, 0, plain);
}

/// An uplink whose first octet has no security header goes straight to its
/// step. One that has is dropped where there is no security context.
pub proof fn unprotected_uplinks(
    mme: MmeView,
    id: u32,
    enb: u32,
    pdu: Seq<u8>,
    tai: Seq<u8>,
    eutran_cgi: Seq<u8>,
    rand: Seq<u8>,
)
    ensures
        pdu.len() == 0 || pdu[0] < 16 ==> s1ap_step(mme, uplink(id, enb, pdu, tai, eutran_cgi), rand) == plain_step(
            mme,
            enb,
            id,
            pdu,
        ),
        pdu.len() > 0 && pdu[0] >= 16 && mme.world.nas_security(id) is None ==> s1ap_step(
            mme,
            uplink(id, enb, pdu, tai, eutran_cgi),
            rand,
        ) == (MmeStep { mme, messages: Seq::empty(), events: Seq::empty() }),
{
    reveal(s1ap_step);
}

/// A NAS PDU on its way to a UE.
pub open spec fn to_ue(id: u32, enb: u32, nas_pdu: Seq<u8>) -> S1apMessageView {
    S1apMessageView::DownlinkNasTransport(
        DownlinkNasTransportView { mme_ue_s1ap_id: id, enb_ue_s1ap_id: enb, nas_pdu },
    )
}

// ── Attach ────────────────────────────────────────────────────────────────────

/// An AttachRequest of a subscriber is answered with a challenge: RAND, and
/// AUTN made of the masked SQN, the field 8000 and MAC-A. A new entity
/// remembers what the answer must be, and the SQN is used up. Nobody else is
/// affected.
pub proof fn attach_request_is_challenged(
    mme: MmeView,
    m: InitialUeMessageView,
    imsi: u64,
    rand: Seq<u8>,
    other: u32,
)
    requires
        mme.world.wf(),
        !mme.world.full(),
        nas_pdu(m.nas_pdu) matches Ok(NasPduView::AttachRequest { imsi: Some(i), .. }) && i == imsi,
        mme.hss.contains_key(imsi),
        rand.len() == 16,
    ensures
        ({
            let s = mme.hss[imsi];
            let id = mme.world.next_id();
            let step = s1ap_step(mme, S1apMessageView::InitialUeMessage(m), rand);
            let sqn = sqn_octets(s.sqn);
            let ak = milenage::ak(s.k, s.opc, rand);
            let field = seq![0x80u8, 0x00];
            let e = step.mme.world.entity(id)->0;
            &&& step.events.len() == 0
            &&& step.messages == seq![
                to_ue(
                    id,
                    m.enb_ue_s1ap_id,
                    seq![0x07u8, 0x52, 0x00, 0x10] + rand + seq![0x10u8] + milenage::masked_sqn(sqn, ak) + field
                        + milenage::mac_a(s.k, s.opc, rand, sqn, field),
                ),
            ]
            &&& step.mme.world.entity(id) is Some
            &&& e.auth == AuthState::ChallengeIssued
            &&& e.identity is Some && e.identity->0.imsi == imsi && e.identity->0.enb_ue_s1ap_id == m.enb_ue_s1ap_id
            &&& e.identity->0.ue_ip == seq![0u8, 0, 0, 0]
            &&& e.security is Some && e.security->0.pending_rand == rand
            &&& e.security->0.pending_xres == milenage::res(s.k, s.opc, rand)
            &&& e.security->0.ck == milenage::ck(s.k, s.opc, rand) && e.security->0.ik == milenage::ik(
                s.k,
                s.opc,
                rand,
            )
            &&& e.security->0.ak == ak && e.security->0.sqn_used == sqn
            &&& e.security->0.plmn == m.tai.subrange(0, 3)
            &&& e.nas_security is None && e.tunnel is None
            &&& other != id ==> step.mme.world.entity(other) == mme.world.entity(other)
            &&& step.mme.registry == mme.registry.insert(imsi, id)
            &&& step.mme.hss == mme.hss.insert(
                imsi,
                SubscriberView { sqn: ((s.sqn + 1) % 0x1_0000_0000_0000) as u64, ..s },
            )
            &&& step.mme.teids == mme.teids && step.mme.phase3_upf == mme.phase3_upf
        }),
{
    reveal(s1ap_step);
    let s = mme.hss[imsi];
    spawn_is_fresh(mme.world, other);
    let sqn = sqn_octets(s.sqn);
    let ak = milenage::ak(s.k, s.opc, rand);
    let field = seq![0x80u8, 0x00];
    let mac_a = milenage::mac_a(s.k, s.opc, rand, sqn, field);
    let autn = milenage::masked_sqn(sqn, ak) + field + mac_a;
    auth_request_format(0, rand, autn);
    let step = s1ap_step(mme, S1apMessageView::InitialUeMessage(m), rand);
    assert(seq![0x07u8, 0x52, 0x00, 0x10] + rand + seq![0x10u8] + autn =~= seq![0x07u8, 0x52, 0x00, 0x10] + rand
        + seq![0x10u8] + milenage::masked_sqn(sqn, ak) + field + mac_a);
    assert(step.mme.world.entity(mme.world.next_id())->0.identity->0.ue_ip =~= seq![0u8, 0, 0, 0]);
}

/// Any other initial message, and that of an unknown subscriber, has no effect.
pub proof fn strangers_are_ignored(mme: MmeView, m: InitialUeMessageView, rand: Seq<u8>)
    requires
        !(nas_pdu(m.nas_pdu) matches Ok(NasPduView::AttachRequest { imsi: Some(i), .. }) && mme.hss.contains_key(i)),
    ensures
        s1ap_step(mme, S1apMessageView::InitialUeMessage(m), rand) == (MmeStep {
            mme,
            messages: Seq::empty(),
            events: Seq::empty(),
        }),
{
    reveal(s1ap_step);
}

/// A response of eight octets is compared with the expected one. If it is the
/// same, SecurityModeCommand goes out, with EEA2 and EIA2 and the capabilities
/// 2040; if not, nothing does. The challenge is wiped either way, so that it
/// counts once. Any other entity stays as it was.
pub proof fn authentication_response_is_compared(mme: MmeView, enb: u32, id: u32, res: Seq<u8>, other: u32)
    requires
        mme.world.security(id) is Some,
        res.len() == 8,
    ensures
        ({
            let step = plain_step(mme, enb, id, seq![0x07u8, 0x53, 0x08] + res);
            let right = res == mme.world.security(id)->0.pending_xres;
            &&& step.events.len() == 0
            &&& step.messages == if right {
                seq![to_ue(id, enb, seq![0x07u8, 0x5D, 0x22, 0x00, 0x02, 0x20, 0x40])]
            } else {
                Seq::empty()
            }
            &&& step.mme.world.entity(id) == Some(
                EntityView {
                    auth: if right {
                        AuthState::Authenticated
                    } else {
                        AuthState::Failed(AuthFailReason::ResMismatch)
                    },
                    security: Some(mme.world.security(id)->0.challenge_cleared()),
                    ..mme.world.entity(id)->0
                },
            )
            &&& other != id ==> step.mme.world.entity(other) == mme.world.entity(other)
            &&& step.mme == MmeView { world: step.mme.world, ..mme }
        }),
{
    let pdu = seq![0x07u8, 0x53, 0x08] + res;
    auth_response_is_read(pdu);
    assert(pdu.subrange(3, 11) =~= res);
    sec_mode_cmd_format(
        crate::nas::ie::NasEeaAlgorithm::Eea2,
        crate::nas::ie::NasEiaAlgorithm::Eia2,
        0,
        seq![0x20u8, 0x40],
    );
    assert(seq![0x07u8, 0x5D, 0x22, 0x00, 0x02] + seq![0x20u8, 0x40] =~= seq![
        0x07u8,
        0x5D,
        0x22,
        0x00,
        0x02,
        0x20,
        0x40,
    ]);
}

/// The key that the network and a SIM derive from what an entity remembers.
pub open spec fn session_key(w: WorldView, id: u32) -> Seq<u8> {
    let s = w.security(id)->0;
    kasme(s.ck, s.ik, s.plmn, milenage::masked_sqn(s.sqn_used, s.ak))
}

/// SecurityModeComplete puts EEA2 and EIA2 into service under the keys that
/// Kasme gives, the uplink counted from 0; the keys that Kasme came from are
/// wiped. AttachAccept, with result 1, timer E0, no tracking area and the
/// address of the UE, goes out as the first downlink under them.
pub proof fn security_mode_complete_is_answered(mme: MmeView, enb: u32, id: u32, other: u32)
    requires
        mme.world.security(id) is Some,
        mme.world.identity(id) is Some,
        mme.world.identity(id)->0.ue_ip.len() == 4,
    ensures
        ({
            let step = plain_step(mme, enb, id, seq![0x07u8, 0x5E]);
            let identity = mme.world.identity(id)->0;
            let key = session_key(mme.world, id);
            let ctx = step.mme.world.nas_security(id)->0;
            let accept = (NasSecurityContextView { dl_count: 0, ..ctx }).sealed_downlink(
                2,
                0,
                seq![0x07u8, 0x42, 0x01, 0xE0, 0x00, 0x29, 0x05, 0x01] + identity.ue_ip,
            );
            let teid = mme.teids.first();
            &&& step.mme.world.nas_security(id) is Some
            &&& ctx == activated(key).with_dl_count(1)
            &&& ctx.eea is Eea2 && ctx.eia is Eia2 && ctx.ul_count == 0 && ctx.dl_count == 1
            &&& step.mme.world.security(id) == Some(mme.world.security(id)->0.keys_cleared())
            &&& step.mme.world.identity(id) == mme.world.identity(id)
            &&& step.mme.world.entity(id)->0.auth == mme.world.entity(id)->0.auth
            &&& other != id ==> step.mme.world.entity(other) == mme.world.entity(other)
            &&& step.mme.hss == mme.hss && step.mme.registry == mme.registry && step.mme.phase3_upf == mme.phase3_upf
            &&& match mme.phase3_upf {
                None => {
                    &&& step.messages == seq![to_ue(id, enb, accept)]
                    &&& step.events.len() == 0
                    &&& step.mme.teids == mme.teids
                    &&& step.mme.world.tunnel(id) == mme.world.tunnel(id)
                },
                Some(upf) => {
                    &&& step.messages.len() == 1
                    &&& step.messages[0] matches S1apMessageView::InitialContextSetupRequest(r) && {
                        &&& r.mme_ue_s1ap_id == id && r.enb_ue_s1ap_id == enb
                        &&& r.nas_pdu == Some(accept)
                        &&& r.security_key == key
                        &&& r.ue_ambr == (50_000_000u64, 50_000_000u64)
                        &&& r.e_rabs.len() == 1 && r.e_rabs[0].erab_id == 5 && r.e_rabs[0].qci == 9
                        &&& r.e_rabs[0].transport_layer_addr == upf
                        &&& r.e_rabs[0].gtp_teid == seq![
                            (teid / 0x100_0000) as u8,
                            (teid / 0x1_0000 % 256) as u8,
                            (teid / 0x100 % 256) as u8,
                            (teid % 256) as u8,
                        ]
                    }
                    &&& step.events == seq![
                        UpfEventView::CreateSession {
                            ul_teid: teid,
                            entity_id: id,
                            imsi: identity.imsi,
                            qci: 9,
                            ue_ip: identity.ue_ip,
                            enb_addr: seq![0u8, 0, 0, 0],
                        },
                    ]
                    &&& step.mme.teids == mme.teids.taken()
                    &&& step.mme.world.tunnel(id) == Some(
                        TunnelView { ul_teid: teid, dl_teid: 0, enb_addr: seq![0u8, 0, 0, 0] },
                    )
                },
            }
        }),
{
    let pdu = seq![0x07u8, 0x5E];
    short_messages_are_read(pdu);
    let ip = mme.world.identity(id)->0.ue_ip;
    attach_accept_format(1, 0xE0, Seq::empty(), Some(ip), None);
    assert(crate::ecs::zeros(4) =~= seq![0u8, 0, 0, 0]);
    let plain = seq![0x07u8, 0x42, 0x01, 0xE0, 0x00, 0x29, 0x05, 0x01] + ip;
    assert(crate::mme::attach::accept_octets(ip) =~= plain);
}

/// The keys of that context are the second halves of the HMACs of
/// `15 01 0001 02 0001` and `15 02 0001 02 0001` under Kasme.
pub proof fn activated_keys(kasme: Seq<u8>, i: int)
    requires
        0 <= i < 16,
    ensures
        activated(kasme).k_nas_enc[i] == crate::crypto::hmac_sha256_tag(kasme, seq![0x15u8, 1, 0, 1, 2, 0, 1])[16 + i],
        activated(kasme).k_nas_int[i] == crate::crypto::hmac_sha256_tag(kasme, seq![0x15u8, 2, 0, 1, 2, 0, 1])[16 + i],
        activated(kasme).k_nas_enc.len() == 16,
        activated(kasme).k_nas_int.len() == 16,
        activated(kasme).ul_count == 0,
        activated(kasme).dl_count == 0,
{
    nas_keys_are_second_halves(
        kasme,
        crate::nas::ie::NasEeaAlgorithm::Eea2,
        crate::nas::ie::NasEiaAlgorithm::Eia2,
        i,
    );
}

/// A plain PDU of any other type, and one for an entity without what its step
/// needs, has no effect.
pub proof fn other_uplinks_are_ignored(mme: MmeView, enb: u32, id: u32, plain: Seq<u8>)
    requires
        match nas_pdu(plain) {
            Ok(NasPduView::AuthenticationResponse { .. }) => mme.world.security(id) is None,
            Ok(NasPduView::SecurityModeComplete) => mme.world.security(id) is None || mme.world.identity(id) is None,
            Ok(NasPduView::DetachRequest { .. }) => !mme.world.is_live(id),
            _ => true,
        },
    ensures
        plain_step(mme, enb, id, plain) == (MmeStep { mme, messages: Seq::empty(), events: Seq::empty() }),
{
}

// ── Detach, context setup and release ─────────────────────────────────────────

/// A DetachRequest of a live entity is answered with DetachAccept, protected
/// where there is a security context, unless the UE switches off; the eNodeB is
/// told to release the UE in either case.
pub proof fn detach_request_is_answered(mme: MmeView, enb: u32, id: u32, pdu: Seq<u8>, other: u32)
    requires
        mme.world.is_live(id),
        pdu.len() >= 3,
        pdu[0] == 0x07,
        pdu[1] == 0x45,
    ensures
        ({
            let step = plain_step(mme, enb, id, pdu);
            let release = S1apMessageView::UeContextReleaseCommand {
                mme_ue_s1ap_id: id,
                enb_ue_s1ap_id: enb,
                cause: S1apCause::NasDetach,
            };
            let accept = seq![0x07u8, 0x46];
            let e = mme.world.entity(id)->0;
            &&& step.events.len() == 0
            &&& pdu[2] / 8 % 2 == 1 ==> step.messages == seq![release] && step.mme == mme
            &&& pdu[2] / 8 % 2 == 0 ==> {
                &&& step.messages == seq![
                    to_ue(
                        id,
                        enb,
                        match e.nas_security {
                            Some(ctx) => ctx.sealed_downlink(2, 0, accept),
                            None => accept,
                        },
                    ),
                    release,
                ]
                &&& step.mme.world.entity(id) == Some(
                    EntityView {
                        nas_security: match e.nas_security {
                            Some(ctx) => Some(
                                NasSecurityContextView {
                                    dl_count: ((ctx.dl_count + 1) % 0x1_0000_0000) as u32,
                                    ..ctx
                                },
                            ),
                            None => None,
                        },
                        ..e
                    },
                )
                &&& other != id ==> step.mme.world.entity(other) == mme.world.entity(other)
                &&& step.mme == MmeView { world: step.mme.world, ..mme }
            }
        }),
{
    short_messages_are_read(pdu);
    bare_formats();
}

/// A context setup response completes the tunnel of its entity with the TEID
/// and the address of the first E-RAB, and the gateway is told; without an
/// E-RAB or a tunnel it has no effect.
pub proof fn context_setup_is_completed(mme: MmeView, m: InitialContextSetupResponseView, rand: Seq<u8>, other: u32)
    requires
        m.e_rabs_setup.len() > 0 ==> m.e_rabs_setup[0].gtp_teid.len() == 4,
    ensures
        ({
            let id = m.mme_ue_s1ap_id;
            let step = s1ap_step(mme, S1apMessageView::InitialContextSetupResponse(m), rand);
            let erab = m.e_rabs_setup[0];
            let t = erab.gtp_teid;
            let dl_teid = (t[0] * 0x100_0000 + t[1] * 0x1_0000 + t[2] * 0x100 + t[3]) as u32;
            &&& step.messages.len() == 0
            &&& mme.world.tunnel(id) is Some && m.e_rabs_setup.len() > 0 ==> {
                let ul_teid = mme.world.tunnel(id)->0.ul_teid;
                &&& step.events == seq![
                    UpfEventView::UpdateBearer { ul_teid, dl_teid, enb_addr: erab.transport_layer_addr },
                ]
                &&& step.mme.world.entity(id) == Some(
                    EntityView {
                        tunnel: Some(TunnelView { ul_teid, dl_teid, enb_addr: erab.transport_layer_addr }),
                        ..mme.world.entity(id)->0
                    },
                )
                &&& other != id ==> step.mme.world.entity(other) == mme.world.entity(other)
                &&& step.mme == MmeView { world: step.mme.world, ..mme }
            }
            &&& mme.world.tunnel(id) is None || m.e_rabs_setup.len() == 0 ==> step.mme == mme && step.events.len() == 0
        }),
{
    reveal(s1ap_step);
}

/// A release that is complete removes the entity and its IMSI, gives the TEID
/// back to be the next one, and tells the gateway; no message goes out. For an
/// entity that is gone nothing happens.
pub proof fn release_complete_is_final(mme: MmeView, id: u32, enb: u32, rand: Seq<u8>, other: u32)
    requires
        mme.world.wf(),
    ensures
        ({
            let step = s1ap_step(mme, release_complete(id, enb), rand);
            &&& step.messages.len() == 0
            &&& !step.mme.world.is_live(id)
            &&& other != id ==> step.mme.world.entity(other) == mme.world.entity(other)
            &&& mme.world.identity(id) is Some ==> step.mme.registry == mme.registry.remove(
                mme.world.identity(id)->0.imsi,
            )
            &&& mme.world.identity(id) is None ==> step.mme.registry == mme.registry
            &&& mme.world.tunnel(id) is Some ==> {
                let ul_teid = mme.world.tunnel(id)->0.ul_teid;
                &&& step.events == seq![UpfEventView::RemoveSession { ul_teid }]
                &&& step.mme.teids.first() == ul_teid && step.mme.teids.taken() == mme.teids
            }
            &&& mme.world.tunnel(id) is None ==> step.events.len() == 0 && step.mme.teids == mme.teids
            &&& !mme.world.is_live(id) ==> step.mme == mme
            &&& step.mme.hss == mme.hss && step.mme.phase3_upf == mme.phase3_upf
        }),
{
    reveal(s1ap_step);
    despawn_removes_one(mme.world, id, other);
    if mme.world.tunnel(id) is Some {
        let ul_teid = mme.world.tunnel(id)->0.ul_teid;
        assert(mme.teids.free.push(ul_teid).drop_last() =~= mme.teids.free);
    }
}

/// A message that only eNodeBs should get has no effect.
pub proof fn other_messages_are_ignored(mme: MmeView, msg: S1apMessageView, rand: Seq<u8>)
    requires
        !(msg is InitialUeMessage),
        !(msg is UplinkNasTransport),
        !(msg is InitialContextSetupResponse),
        !(msg is UeContextReleaseComplete),
    ensures
        s1ap_step(mme, msg, rand) == (MmeStep { mme, messages: Seq::empty(), events: Seq::empty() }),
{
    reveal(s1ap_step);
}

/// A new MME knows nobody, sets up no bearers, and gives out TEIDs from
/// 00010000 on.
pub proof fn new_mme_is_empty()
    ensures
        MmeView::fresh().world.slots.len() == 0,
        MmeView::fresh().world.free.len() == 0,
        MmeView::fresh().registry == Map::<u64, u32>::empty(),
        MmeView::fresh().hss == Map::<u64, SubscriberView>::empty(),
        MmeView::fresh().phase3_upf is None,
        MmeView::fresh().teids.first() == 0x0001_0000,
        MmeView::fresh().teids.taken().first() == 0x0001_0001,
{
}

} // verus!
