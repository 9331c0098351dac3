//! Laws of the simulation: a UE and an MME that are given each other's
//! messages complete the procedures, and leave nothing behind.

use vstd::prelude::*;

use crate::ecs::{zeros, WorldView};
use crate::hss::{sqn_octets, SubscriberView};
use crate::milenage;
use crate::mme::attach::{
    activated, after_accept, challenge_octets, context_setup, downlink, replayed_cap, ATTACH_RESULT_EPS,
    DEFAULT_ERAB_ID, DEFAULT_QCI, SELECTED_EEA, SELECTED_EIA,
};
use crate::mme::detach::{farewell_octets, release_command};
use crate::mme::laws::{
    attach_run, attach_succeeds, new_bearer, sim_kasme, ue_opens_attach_accept, ue_opens_detach_accept,
    ue_reads_the_challenge,
};
use crate::mme::state_machine::{s1ap_step, MmeStep, MmeView, UpfEventView};
use crate::mme_sim::ue::{
    answer, bearer_confirmation, first_message, test_plmn, test_tai, ue_step, ue_uplink, HeardView, NextView,
    UeErrorView, UeStepView, UeView, ENB_UE_S1AP_ID, EPS_ATTACH, EPS_DETACH, MOCK_DL_TEID,
};
use crate::nas::codec::{
    auth_response_octets, bare_octets, detach_request_octets, nas_pdu, sec_mode_cmd_octets, MT_ATTACH_COMPLETE,
    MT_SECURITY_MODE_COMPLETE,
};
use crate::nas::ie::imsi_round_trip;
use crate::nas::laws::{bare_messages_round_trip, detach_request_round_trip, sec_mode_cmd_round_trip};
use crate::octets::{u32_octets, u32_round_trip};
use crate::s1ap::messages::{S1apCause, S1apMessageView};
use crate::s1ap::wire::{
    context_setup_response_fits, encodable, erab_setup_ok, erab_to_setup_ok, nas_transport_fits,
};
use crate::tunnels::teid_of;

verus! {

/// The `i`-th message that a UE sends after a step.
pub open spec fn sent(u: (UeView, Result<UeStepView, UeErrorView>), i: int) -> S1apMessageView {
    (u.1->Ok_0).send[i]
}

/// A UE and an MME that are given each other's messages, from the first
/// message of the UE to the last.
pub struct Conversation {
    pub m1: MmeStep,
    pub u1: (UeView, Result<UeStepView, UeErrorView>),
    pub m2: MmeStep,
    pub u2: (UeView, Result<UeStepView, UeErrorView>),
    pub m3: MmeStep,
    pub u3: (UeView, Result<UeStepView, UeErrorView>),
    /// The MME is told of the bearer, and that the attach is complete.
    pub m4: MmeStep,
    pub m5: MmeStep,
    /// The MME is asked to detach the UE, and answers with two messages.
    pub m6: MmeStep,
    pub u4: (UeView, Result<UeStepView, UeErrorView>),
    pub u5: (UeView, Result<UeStepView, UeErrorView>),
    pub m7: MmeStep,
}

pub open spec fn conversation(mme: MmeView, ue: UeView, challenge: Seq<u8>, rand: Seq<u8>) -> Conversation {
    let m1 = s1ap_step(mme, S1apMessageView::InitialUeMessage(first_message(ue)), challenge);
    let u1 = ue_step(ue, m1.messages[0]);
    let m2 = s1ap_step(m1.mme, sent(u1, 0), rand);
    let u2 = ue_step(u1.0, m2.messages[0]);
    let m3 = s1ap_step(m2.mme, sent(u2, 0), rand);
    let u3 = ue_step(u2.0, m3.messages[0]);
    let m4 = s1ap_step(m3.mme, sent(u3, 0), rand);
    let m5 = s1ap_step(m4.mme, sent(u3, 1), rand);
    let m6 = s1ap_step(m5.mme, (u3.1->Ok_0).next->farewell, rand);
    let u4 = ue_step(u3.0, m6.messages[0]);
    let u5 = ue_step(u4.0, m6.messages[1]);
    let m7 = s1ap_step(m6.mme, sent(u5, 0), rand);
    Conversation { m1, u1, m2, u2, m3, u3, m4, m5, m6, u4, u5, m7 }
}

/// Everything that a UE sends can be put on the wire, but for the
/// UeContextReleaseComplete, which has no wire encoding. What it confirms is
/// taken over from a request that could be put on the wire itself.
pub proof fn what_a_ue_sends_is_encodable(ue: UeView, msg: S1apMessageView)
    requires
        ue.my_ip.len() == 4,
        msg is InitialContextSetupRequest ==> encodable(msg),
    ensures
        encodable(S1apMessageView::InitialUeMessage(first_message(ue))),
        ({
            let r = ue_step(ue, msg).1;
            &&& r is Ok ==> forall|i: int|
                0 <= i < (r->Ok_0).send.len() ==> (#[trigger] (r->Ok_0).send[i]) is UeContextReleaseComplete
                    || encodable((r->Ok_0).send[i])
            &&& r is Ok && (r->Ok_0).next is RoundTrip ==> encodable((r->Ok_0).next->farewell)
        }),
{
    reveal(ue_step);
    imsi_round_trip(ue.imsi);
    nas_transport_fits(S1apMessageView::InitialUeMessage(first_message(ue)));
    let r = ue_step(ue, msg).1;
    if r is Ok {
        let send = (r->Ok_0).send;
        assert forall|i: int| 0 <= i < send.len() implies (#[trigger] send[i]) is UeContextReleaseComplete
            || encodable(send[i]) by {
            match send[i] {
                S1apMessageView::InitialContextSetupResponse(v) => {
                    assert(erab_to_setup_ok((msg->InitialContextSetupRequest_0).e_rabs[0]));
                    assert(erab_setup_ok(v.e_rabs_setup[0]));
                    context_setup_response_fits(v);
                },
                S1apMessageView::UplinkNasTransport(v) => nas_transport_fits(send[i]),
                _ => {},
            }
        }
        if (r->Ok_0).next is RoundTrip {
            nas_transport_fits((r->Ok_0).next->farewell);
        }
    }
}

/// The first SQN is all zeros, as the UE takes it to be.
proof fn lemma_first_sqn()
    ensures
        sqn_octets(0) == zeros(6),
{
    assert(sqn_octets(0) =~= zeros(6));
}

proof fn lemma_challenge_is_plain(s: SubscriberView, challenge: Seq<u8>)
    ensures
        challenge_octets(s, challenge).len() > 0,
        challenge_octets(s, challenge)[0] == 7,
{
}

proof fn lemma_ue_any_challenge(ue: UeView, id: u32, pdu: Seq<u8>)
    requires
        ue.mme_ue_s1ap_id is None,
        pdu.len() > 0,
        pdu[0] == 7,
        nas_pdu(pdu) is Ok,
        nas_pdu(pdu)->Ok_0 is AuthenticationRequest,
    ensures
        ({
            let rand = nas_pdu(pdu)->Ok_0->AuthenticationRequest_rand;
            ue_step(ue, downlink(id, ENB_UE_S1AP_ID, pdu)) == (
                UeView {
                    kasme: Some(sim_kasme(ue.k, ue.opc, test_plmn(), rand, zeros(6))),
                    mme_ue_s1ap_id: Some(id),
                    ..ue
                },
                Ok::<UeStepView, UeErrorView>(
                    answer(
                        id,
                        HeardView::AuthenticationRequest,
                        auth_response_octets(milenage::res(ue.k, ue.opc, rand)),
                    ),
                ),
            )
        }),
{
    reveal(ue_step);
}

proof fn lemma_ue_security_mode(ue: UeView, id: u32)
    requires
        ue.mme_ue_s1ap_id == Some(id),
    ensures
        ({
            let cmd = sec_mode_cmd_octets(SELECTED_EEA, SELECTED_EIA, 0, replayed_cap());
            ue_step(ue, downlink(id, ENB_UE_S1AP_ID, cmd)) == (
                ue,
                Ok::<UeStepView, UeErrorView>(
                    answer(id, HeardView::SecurityModeCommand, bare_octets(MT_SECURITY_MODE_COMPLETE)),
                ),
            )
        }),
{
    reveal(ue_step);
    let cmd = sec_mode_cmd_octets(SELECTED_EEA, SELECTED_EIA, 0, replayed_cap());
    sec_mode_cmd_round_trip(SELECTED_EEA, SELECTED_EIA, 0, replayed_cap());
    assert(cmd[0] == 7);
}

proof fn lemma_ue_setup(ue: UeView, id: u32, ul_teid: u32, upf: Seq<u8>, key: Seq<u8>)
    requires
        ue.mme_ue_s1ap_id == Some(id),
        ue.kasme == Some(key),
    ensures
        ue_step(ue, context_setup(id, ENB_UE_S1AP_ID, ul_teid, upf, key, zeros(4))) == (
            ue,
            Ok::<UeStepView, UeErrorView>(
                UeStepView {
                    heard: HeardView::AttachAccept {
                        attach_result: ATTACH_RESULT_EPS,
                        ip_address: Some(zeros(4)),
                        erab_id: DEFAULT_ERAB_ID,
                        qci: DEFAULT_QCI,
                        ul_teid,
                        upf_addr: upf,
                    },
                    send: seq![
                        bearer_confirmation(ue, id, ENB_UE_S1AP_ID, DEFAULT_ERAB_ID),
                        ue_uplink(id, bare_octets(MT_ATTACH_COMPLETE)),
                    ],
                    next: NextView::RoundTrip {
                        upf_addr: upf,
                        ul_teid,
                        farewell: ue_uplink(id, detach_request_octets(EPS_DETACH, false, 0, zeros(10))),
                    },
                },
            ),
        ),
{
    reveal(ue_step);
    ue_opens_attach_accept(key, zeros(4));
    u32_round_trip(ul_teid);
}

/// The MME's side of the bearer and the detach.
proof fn lemma_mme_bearer(mme: MmeView, ue: UeView, id: u32, ul_teid: u32, key: Seq<u8>, rand: Seq<u8>)
    requires
        mme.world.tunnel(id) is Some,
        mme.world.tunnel(id)->0.ul_teid == ul_teid,
        mme.world.nas_security(id) == Some(after_accept(key)),
    ensures
        ({
            let m4 = s1ap_step(mme, bearer_confirmation(ue, id, ENB_UE_S1AP_ID, DEFAULT_ERAB_ID), rand);
            let m5 = s1ap_step(m4.mme, ue_uplink(id, bare_octets(MT_ATTACH_COMPLETE)), rand);
            let m6 = s1ap_step(
                m5.mme,
                ue_uplink(id, detach_request_octets(EPS_DETACH, false, 0, zeros(10))),
                rand,
            );
            &&& m4.messages.len() == 0
            &&& m4.events == seq![
                UpfEventView::UpdateBearer { ul_teid, dl_teid: MOCK_DL_TEID, enb_addr: ue.my_ip },
            ]
            &&& m5 == m4.mme.idle()
            &&& m6.messages == seq![
                downlink(id, ENB_UE_S1AP_ID, farewell_octets(m4.mme.world, id)),
                release_command(id, ENB_UE_S1AP_ID),
            ]
            &&& m6.events.len() == 0
            &&& m4.mme.world.nas_security(id) == Some(after_accept(key))
            &&& m6.mme.world.tunnel(id) is Some
            &&& m6.mme.world.tunnel(id)->0.ul_teid == ul_teid
            &&& m6.mme.world.identity(id) == mme.world.identity(id)
        }),
{
    reveal(s1ap_step);
    let confirmation = bearer_confirmation(ue, id, ENB_UE_S1AP_ID, DEFAULT_ERAB_ID);
    u32_round_trip(MOCK_DL_TEID);
    bare_messages_round_trip();
    detach_request_round_trip(EPS_DETACH, false, 0, zeros(10));
    assert(bare_octets(MT_ATTACH_COMPLETE)[0] == 7);
    assert(detach_request_octets(EPS_DETACH, false, 0, zeros(10))[0] == 7);
    assert(confirmation is InitialContextSetupResponse);
    let m = confirmation->InitialContextSetupResponse_0;
    assert(m.e_rabs_setup[0].gtp_teid == u32_octets(MOCK_DL_TEID));
}

proof fn lemma_ue_farewell(ue: UeView, id: u32, w: WorldView, key: Seq<u8>)
    requires
        ue.mme_ue_s1ap_id == Some(id),
        ue.kasme == Some(key),
        w.nas_security(id) == Some(after_accept(key)),
    ensures
        ue_step(ue, downlink(id, ENB_UE_S1AP_ID, farewell_octets(w, id))) == (
            ue,
            Ok::<UeStepView, UeErrorView>(
                UeStepView { heard: HeardView::DetachAccept, send: Seq::empty(), next: NextView::Wait },
            ),
        ),
{
    reveal(ue_step);
    ue_opens_detach_accept(w, id, activated(key));
    assert(farewell_octets(w, id)[0] == 0x27);
}

proof fn lemma_ue_release(ue: UeView, id: u32)
    requires
        ue.mme_ue_s1ap_id == Some(id),
    ensures
        ue_step(ue, release_command(id, ENB_UE_S1AP_ID)) == (
            ue,
            Ok::<UeStepView, UeErrorView>(
                UeStepView {
                    heard: HeardView::ReleaseCommand { cause: S1apCause::NasDetach },
                    send: seq![released(id)],
                    next: NextView::Done,
                },
            ),
        ),
{
    reveal(ue_step);
}

/// The confirmation that the UE's context is released.
pub open spec fn released(id: u32) -> S1apMessageView {
    S1apMessageView::UeContextReleaseComplete { mme_ue_s1ap_id: id, enb_ue_s1ap_id: ENB_UE_S1AP_ID }
}

proof fn lemma_mme_release(mme: MmeView, id: u32, imsi: u64, ul_teid: u32, rand: Seq<u8>)
    requires
        mme.world.identity(id) is Some,
        mme.world.identity(id)->0.imsi == imsi,
        mme.world.tunnel(id) is Some,
        mme.world.tunnel(id)->0.ul_teid == ul_teid,
    ensures
        ({
            let m7 = s1ap_step(mme, released(id), rand);
            &&& m7.events == seq![UpfEventView::RemoveSession { ul_teid }]
            &&& m7.messages.len() == 0
            &&& !m7.mme.world.is_live(id)
            &&& !m7.mme.registry.contains_key(imsi)
        }),
{
    reveal(s1ap_step);
}

/// A UE of a subscriber whose SQN is 0 completes the whole simulation with an
/// MME in phase 3: every message is understood on either side, the gateway is
/// told to create, complete and remove one bearer, and in the end the UE is
/// done and the MME has forgotten it.
pub proof fn simulation_completes(mme: MmeView, ue: UeView, challenge: Seq<u8>, rand: Seq<u8>)
    requires
        mme.world.wf(),
        !mme.world.full(),
        mme.phase3_upf is Some,
        mme.hss.contains_key(ue.imsi),
        mme.hss[ue.imsi].k == ue.k,
        mme.hss[ue.imsi].opc == ue.opc,
        mme.hss[ue.imsi].sqn == 0,
        ue.mme_ue_s1ap_id is None,
        challenge.len() == 16,
    ensures
        ({
            let c = conversation(mme, ue, challenge, rand);
            let id = mme.world.next_id();
            let ul_teid = mme.teids.first();
            &&& c.u1.1 is Ok && c.u2.1 is Ok && c.u3.1 is Ok && c.u4.1 is Ok && c.u5.1 is Ok
            &&& (c.u3.1->Ok_0).next is RoundTrip
            &&& (c.u5.1->Ok_0).next is Done
            &&& c.m3.events == seq![new_bearer(ul_teid, id, ue.imsi, zeros(4))]
            &&& c.m4.events == seq![
                UpfEventView::UpdateBearer { ul_teid, dl_teid: MOCK_DL_TEID, enb_addr: ue.my_ip },
            ]
            &&& c.m7.events == seq![UpfEventView::RemoveSession { ul_teid }]
            &&& c.m1.events.len() == 0 && c.m2.events.len() == 0 && c.m5.events.len() == 0 && c.m6.events.len() == 0
            &&& !c.m7.mme.world.is_live(id)
            &&& !c.m7.mme.registry.contains_key(ue.imsi)
            &&& c.m7.messages.len() == 0
        }),
{
    let c = conversation(mme, ue, challenge, rand);
    let id = mme.world.next_id();
    let imsi = ue.imsi;
    let s = mme.hss[imsi];
    let first = first_message(ue);
    let ul_teid = mme.teids.first();
    let upf = mme.phase3_upf->0;
    let key = sim_kasme(ue.k, ue.opc, test_plmn(), challenge, zeros(6));
    lemma_first_sqn();
    assert(test_tai().subrange(0, 3) =~= test_plmn());
    attach_succeeds(mme, imsi, first, EPS_ATTACH, 0, zeros(7), challenge, rand);
    let (s1, s2, s3) = attach_run(mme, imsi, first, zeros(7), challenge, rand);
    assert(c.m1 == s1);
    lemma_challenge_is_plain(s, challenge);
    ue_reads_the_challenge(s, challenge);
    lemma_ue_any_challenge(ue, id, challenge_octets(s, challenge));
    assert(c.m2 == s2);
    let ue1 = UeView { kasme: Some(key), mme_ue_s1ap_id: Some(id), ..ue };
    assert(c.u1.0 == ue1);
    lemma_ue_security_mode(ue1, id);
    assert(c.m3 == s3);
    lemma_ue_setup(ue1, id, ul_teid, upf, key);
    assert(c.u3.0 == ue1);
    assert(teid_of(c.m3.mme.world, id) == Some(ul_teid));
    lemma_mme_bearer(c.m3.mme, ue1, id, ul_teid, key, rand);
    assert(c.m5.mme == c.m4.mme);
    lemma_ue_farewell(ue1, id, c.m4.mme.world, key);
    lemma_ue_release(ue1, id);
    lemma_mme_release(c.m6.mme, id, imsi, ul_teid, rand);
}

} // verus!
