//! Laws of the simulation: a UE and an AMF that are given each other's
//! messages complete the procedures, and leave nothing behind.

use vstd::prelude::*;

use crate::amf::deregistration::{farewell_octets, release_command};
use crate::amf::laws::{
    registration_run, registration_succeeds, sim_kamf, sim_res_star, ue_opens_deregistration_accept,
    ue_opens_registration_accept, ue_reads_the_challenge,
};
use crate::amf::registration::{
    activated, after_accept, challenge_octets, context_setup, downlink, imsi_suci, session_ip,
    DEFAULT_PDU_SESSION_ID, DEFAULT_QFI, REGISTRATION_RESULT_3GPP, REPLAYED_UE_SECURITY_CAP, SELECTED_NAS_CIPHER_ALG,
    SELECTED_NAS_INTEGRITY_ALG,
};
use crate::amf::replies::all_encodable;
use crate::amf::state_machine::{
    ngap_step, opened_uplink, plain_step as amf_plain_step, AmfStep, AmfView, N3EventView,
};
use crate::ecs::{zeros, WorldView};
use crate::hss::{sqn_octets, SubscriberView};
use crate::midn_sim::gnb::{assignments_lead_back, route, slot_of, DispatchView, MAX_UES};
use crate::midn_sim::ue::{
    answer, first_message, learned, ran_id_of, session_confirmation, test_plmn, test_tai, ue_step, ue_uplink, HeardView, NextView,
    UeError, UeStepView, UeView, INITIAL_REGISTRATION, UE_SECURITY_CAP,
};
use crate::nas5gs::codec::{
    auth_response_octets, deregistration_request_octets, header, identity_request_octets, identity_response_octets,
    nas5gs_pdu, sec_mode_cmd_octets, IDTYPE_SUCI, MT5G_REGISTRATION_COMPLETE, MT5G_SECURITY_MODE_COMPLETE,
};
use crate::nas5gs::laws::{
    bare_messages_round_trip, deregistration_request_round_trip, identity_request_round_trip, sec_mode_cmd_round_trip,
};
use crate::ngap::messages::{NgapCause, NgapMessageView, UeContextReleaseCompleteView};
use crate::ngap::wire::{
    context_setup_response_fits, encodable, lemma_release_complete_fits, nas_transport_fits, session_setup_ok,
};
use crate::octets::{u32_octets, u32_round_trip};
use crate::tunnels::teid_of;

verus! {

/// The `i`-th message that a UE sends after a step.
pub open spec fn sent(u: (UeView, Result<UeStepView, UeError>), i: int) -> NgapMessageView {
    (u.1->Ok_0).send[i]
}

/// A UE and an AMF that are given each other's messages, from the first
/// message of the UE to the last.
pub struct Conversation {
    pub a1: AmfStep,
    pub u1: (UeView, Result<UeStepView, UeError>),
    pub a2: AmfStep,
    pub u2: (UeView, Result<UeStepView, UeError>),
    pub a3: AmfStep,
    pub u3: (UeView, Result<UeStepView, UeError>),
    pub a4: AmfStep,
    pub u4: (UeView, Result<UeStepView, UeError>),
    /// The AMF is told of the session, and that the registration is complete.
    pub a5: AmfStep,
    pub a6: AmfStep,
    /// The AMF is asked to deregister the UE, and answers with two messages.
    pub a7: AmfStep,
    pub u5: (UeView, Result<UeStepView, UeError>),
    pub u6: (UeView, Result<UeStepView, UeError>),
    pub a8: AmfStep,
}

pub open spec fn conversation(amf: AmfView, ue: UeView, challenge: Seq<u8>, rand: Seq<u8>) -> Conversation {
    let a1 = ngap_step(amf, NgapMessageView::InitialUeMessage(first_message(ue)), rand);
    let u1 = ue_step(ue, a1.messages[0]);
    let a2 = ngap_step(a1.amf, sent(u1, 0), challenge);
    let u2 = ue_step(u1.0, a2.messages[0]);
    let a3 = ngap_step(a2.amf, sent(u2, 0), rand);
    let u3 = ue_step(u2.0, a3.messages[0]);
    let a4 = ngap_step(a3.amf, sent(u3, 0), rand);
    let u4 = ue_step(u3.0, a4.messages[0]);
    let a5 = ngap_step(a4.amf, sent(u4, 0), rand);
    let a6 = ngap_step(a5.amf, sent(u4, 1), rand);
    let a7 = ngap_step(a6.amf, (u4.1->Ok_0).next->farewell, rand);
    let u5 = ue_step(u4.0, a7.messages[0]);
    let u6 = ue_step(u5.0, a7.messages[1]);
    let a8 = ngap_step(a7.amf, sent(u6, 0), rand);
    Conversation { a1, u1, a2, u2, a3, u3, a4, u4, a5, a6, a7, u5, u6, a8 }
}

/// Everything that a UE sends can be put on the wire.
pub proof fn everything_a_ue_sends_is_encodable(ue: UeView, msg: NgapMessageView)
    requires
        ue.my_ip.len() == 4,
    ensures
        encodable(NgapMessageView::InitialUeMessage(first_message(ue))),
        ({
            let r = ue_step(ue, msg).1;
            &&& r is Ok ==> all_encodable((r->Ok_0).send)
            &&& r is Ok && (r->Ok_0).next is RoundTrip ==> encodable((r->Ok_0).next->farewell)
        }),
{
    reveal(ue_step);
    nas_transport_fits(NgapMessageView::InitialUeMessage(first_message(ue)));
    let r = ue_step(ue, msg).1;
    if r is Ok {
        let send = (r->Ok_0).send;
        assert forall|i: int| 0 <= i < send.len() implies encodable(#[trigger] send[i]) by {
            match send[i] {
                NgapMessageView::InitialContextSetupResponse(v) => {
                    assert(session_setup_ok(v.pdu_sessions_setup[0]));
                    context_setup_response_fits(v);
                },
                NgapMessageView::UeContextReleaseComplete(v) => lemma_release_complete_fits(v),
                _ => nas_transport_fits(send[i]),
            }
        }
        if (r->Ok_0).next is RoundTrip {
            nas_transport_fits((r->Ok_0).next->farewell);
        }
    }
}

/// The RAN-UE-NGAP-ID under which a UE sends a message.
pub open spec fn sender_of(msg: NgapMessageView) -> Option<u32> {
    match msg {
        NgapMessageView::InitialUeMessage(m) => Some(m.ran_ue_ngap_id),
        NgapMessageView::UplinkNasTransport(m) => Some(m.ran_ue_ngap_id),
        NgapMessageView::InitialContextSetupResponse(m) => Some(m.ran_ue_ngap_id),
        NgapMessageView::UeContextReleaseComplete(m) => Some(m.ran_ue_ngap_id),
        _ => None,
    }
}

/// Whatever the AMF answers, it answers the UE that it heard from: with any
/// number of UEs on one link, the gNodeB delivers every answer to the sender.
pub proof fn answers_reach_the_sender(amf: AmfView, n_ues: u32, index: u32, msg: NgapMessageView, rand: Seq<u8>, i: int)
    requires
        index < n_ues <= MAX_UES,
        sender_of(msg) == Some(slot_of(index).ran_ue_ngap_id),
        0 <= i < ngap_step(amf, msg, rand).messages.len(),
    ensures
        ({
            let answer = ngap_step(amf, msg, rand).messages[i];
            &&& ran_id_of(answer) == sender_of(msg)
            &&& route(n_ues, answer) == (DispatchView::Deliver { index, msg: answer })
        }),
{
    reveal(ngap_step);
    let answer = ngap_step(amf, msg, rand).messages[i];
    if let NgapMessageView::UplinkNasTransport(m) = msg {
        let (world, plain) = opened_uplink(amf.world, m.amf_ue_ngap_id, m.nas_pdu);
        if plain is Some {
            lemma_answers_name_the_sender(AmfView { world, ..amf }, m.ran_ue_ngap_id, m.amf_ue_ngap_id, plain->0, rand, i);
        }
    }
    assignments_lead_back(n_ues, index);
}

proof fn lemma_answers_name_the_sender(amf: AmfView, ran: u32, id: u32, plain: Seq<u8>, rand: Seq<u8>, i: int)
    requires
        0 <= i < amf_plain_step(amf, ran, id, plain, rand).messages.len(),
    ensures
        ran_id_of(amf_plain_step(amf, ran, id, plain, rand).messages[i]) == Some(ran),
{
}

/// The first SQN is all zeros, as the UE takes it to be.
proof fn lemma_first_sqn()
    ensures
        sqn_octets(0) == zeros(6),
{
    assert(sqn_octets(0) =~= zeros(6));
}

proof fn lemma_ue_identity(ue: UeView, id: u32)
    requires
        ue.amf_ue_ngap_id is None,
    ensures
        ue_step(ue, downlink(id, ue.ran_ue_ngap_id, identity_request_octets(IDTYPE_SUCI))) == (
            learned(ue, id),
            Ok::<UeStepView, UeError>(
                answer(
                    learned(ue, id),
                    id,
                    HeardView::IdentityRequest,
                    identity_response_octets(imsi_suci(ue.imsi)),
                ),
            ),
        ),
{
    reveal(ue_step);
    identity_request_round_trip(IDTYPE_SUCI);
    assert(identity_request_octets(IDTYPE_SUCI)[1] == 0);
}

proof fn lemma_ue_challenge(ue: UeView, id: u32, s: SubscriberView, challenge: Seq<u8>)
    requires
        ue.amf_ue_ngap_id == Some(id),
        challenge.len() == 16,
    ensures
        ue_step(ue, downlink(id, ue.ran_ue_ngap_id, challenge_octets(s, challenge))) == (
            UeView { kamf: Some(sim_kamf(ue.k, ue.opc, test_plmn(), challenge, zeros(6), ue.imsi)), ..ue },
            Ok::<UeStepView, UeError>(
                answer(
                    ue,
                    id,
                    HeardView::AuthenticationRequest,
                    auth_response_octets(sim_res_star(ue.k, ue.opc, test_plmn(), challenge)),
                ),
            ),
        ),
{
    reveal(ue_step);
    ue_reads_the_challenge(s, challenge);
    lemma_challenge_is_plain(s, challenge);
    lemma_ue_any_challenge(ue, id, challenge_octets(s, challenge));
}

proof fn lemma_challenge_is_plain(s: SubscriberView, challenge: Seq<u8>)
    ensures
        challenge_octets(s, challenge).len() > 1,
        challenge_octets(s, challenge)[1] == 0,
{
}

proof fn lemma_ue_any_challenge(ue: UeView, id: u32, nas: Seq<u8>)
    requires
        ue.amf_ue_ngap_id == Some(id),
        nas.len() > 1,
        nas[1] == 0,
        nas5gs_pdu(nas) is Ok,
        nas5gs_pdu(nas)->Ok_0 is AuthenticationRequest,
    ensures
        ({
            let rand = nas5gs_pdu(nas)->Ok_0->AuthenticationRequest_rand;
            ue_step(ue, downlink(id, ue.ran_ue_ngap_id, nas)) == (
                UeView { kamf: Some(sim_kamf(ue.k, ue.opc, test_plmn(), rand, zeros(6), ue.imsi)), ..ue },
                Ok::<UeStepView, UeError>(
                    answer(
                        ue,
                        id,
                        HeardView::AuthenticationRequest,
                        auth_response_octets(sim_res_star(ue.k, ue.opc, test_plmn(), rand)),
                    ),
                ),
            )
        }),
{
    reveal(ue_step);
}

proof fn lemma_ue_security_mode(ue: UeView, id: u32)
    requires
        ue.amf_ue_ngap_id == Some(id),
    ensures
        ({
            let cmd = sec_mode_cmd_octets(
                SELECTED_NAS_CIPHER_ALG,
                SELECTED_NAS_INTEGRITY_ALG,
                REPLAYED_UE_SECURITY_CAP,
            );
            ue_step(ue, downlink(id, ue.ran_ue_ngap_id, cmd)) == (
                ue,
                Ok::<UeStepView, UeError>(
                    answer(ue, id, HeardView::SecurityModeCommand, header(MT5G_SECURITY_MODE_COMPLETE)),
                ),
            )
        }),
{
    reveal(ue_step);
    let cmd = sec_mode_cmd_octets(SELECTED_NAS_CIPHER_ALG, SELECTED_NAS_INTEGRITY_ALG, REPLAYED_UE_SECURITY_CAP);
    sec_mode_cmd_round_trip(SELECTED_NAS_CIPHER_ALG, SELECTED_NAS_INTEGRITY_ALG, REPLAYED_UE_SECURITY_CAP);
    assert(cmd[1] == 0);
}

proof fn lemma_ue_setup(ue: UeView, id: u32, ul_teid: u32, upf: Seq<u8>, key: Seq<u8>)
    requires
        ue.amf_ue_ngap_id == Some(id),
        ue.kamf == Some(key),
    ensures
        ue_step(ue, context_setup(id, ue.ran_ue_ngap_id, ul_teid, upf, key)) == (
            ue,
            Ok::<UeStepView, UeError>(
                UeStepView {
                    heard: HeardView::RegistrationAccept {
                        registration_result: REGISTRATION_RESULT_3GPP,
                        pdu_session_id: DEFAULT_PDU_SESSION_ID,
                        qfi: DEFAULT_QFI,
                        ul_teid,
                        upf_addr: upf,
                    },
                    send: seq![
                        session_confirmation(ue, id, DEFAULT_PDU_SESSION_ID),
                        ue_uplink(ue, id, header(MT5G_REGISTRATION_COMPLETE)),
                    ],
                    next: NextView::RoundTrip {
                        upf_addr: upf,
                        ul_teid,
                        farewell: ue_uplink(ue, id, deregistration_request_octets(false)),
                    },
                },
            ),
        ),
{
    reveal(ue_step);
    ue_opens_registration_accept(key, id);
    u32_round_trip(ul_teid);
}

/// The AMF's side of the session and the deregistration.
proof fn lemma_amf_session(amf: AmfView, ue: UeView, id: u32, ul_teid: u32, key: Seq<u8>, rand: Seq<u8>)
    requires
        amf.world.tunnel(id) is Some,
        amf.world.tunnel(id)->0.ul_teid == ul_teid,
        amf.world.nas_security5g(id) == Some(after_accept(key)),
    ensures
        ({
            let a5 = ngap_step(amf, session_confirmation(ue, id, DEFAULT_PDU_SESSION_ID), rand);
            let a6 = ngap_step(a5.amf, ue_uplink(ue, id, header(MT5G_REGISTRATION_COMPLETE)), rand);
            let a7 = ngap_step(a6.amf, ue_uplink(ue, id, deregistration_request_octets(false)), rand);
            &&& a5.messages.len() == 0
            &&& a5.events == seq![
                N3EventView::UpdateBearer { ul_teid, dl_teid: ue.dl_teid, gnb_addr: ue.my_ip },
            ]
            &&& a6 == a5.amf.idle()
            &&& a7.messages == seq![
                downlink(id, ue.ran_ue_ngap_id, farewell_octets(a5.amf.world, id)),
                release_command(id, ue.ran_ue_ngap_id),
            ]
            &&& a7.events.len() == 0
            &&& a5.amf.world.nas_security5g(id) == Some(after_accept(key))
            &&& a7.amf.world.tunnel(id) is Some
            &&& a7.amf.world.tunnel(id)->0.ul_teid == ul_teid
            &&& a7.amf.world.identity(id) == amf.world.identity(id)
        }),
{
    reveal(ngap_step);
    let confirmation = session_confirmation(ue, id, DEFAULT_PDU_SESSION_ID);
    u32_round_trip(ue.dl_teid);
    bare_messages_round_trip();
    deregistration_request_round_trip(false);
    assert(header(MT5G_REGISTRATION_COMPLETE)[1] == 0);
    assert(deregistration_request_octets(false)[1] == 0);
    assert(confirmation is InitialContextSetupResponse);
    let m = confirmation->InitialContextSetupResponse_0;
    assert(m.pdu_sessions_setup[0].gtp_teid == u32_octets(ue.dl_teid));
}

proof fn lemma_ue_farewell(ue: UeView, id: u32, w: WorldView, key: Seq<u8>)
    requires
        ue.amf_ue_ngap_id == Some(id),
        ue.kamf == Some(key),
        w.nas_security5g(id) == Some(after_accept(key)),
    ensures
        ue_step(ue, downlink(id, ue.ran_ue_ngap_id, farewell_octets(w, id))) == (
            ue,
            Ok::<UeStepView, UeError>(
                UeStepView { heard: HeardView::DeregistrationAccept, send: Seq::empty(), next: NextView::Wait },
            ),
        ),
{
    reveal(ue_step);
    ue_opens_deregistration_accept(w, id, activated(key));
    assert(farewell_octets(w, id)[1] == 2);
}

proof fn lemma_ue_release(ue: UeView, id: u32)
    ensures
        ue_step(ue, release_command(id, ue.ran_ue_ngap_id)) == (
            ue,
            Ok::<UeStepView, UeError>(
                UeStepView {
                    heard: HeardView::ReleaseCommand {
                        amf_ue_ngap_id: id,
                        ran_ue_ngap_id: ue.ran_ue_ngap_id,
                        cause: NgapCause::NasDeregister,
                    },
                    send: seq![released(id, ue.ran_ue_ngap_id)],
                    next: NextView::Done,
                },
            ),
        ),
{
    reveal(ue_step);
}

/// The confirmation that a UE context is released.
pub open spec fn released(id: u32, ran: u32) -> NgapMessageView {
    NgapMessageView::UeContextReleaseComplete(
        UeContextReleaseCompleteView { amf_ue_ngap_id: id, ran_ue_ngap_id: ran },
    )
}

proof fn lemma_amf_release(amf: AmfView, id: u32, ran: u32, imsi: u64, ul_teid: u32, rand: Seq<u8>)
    requires
        amf.world.identity(id) is Some,
        amf.world.identity(id)->0.imsi == imsi,
        amf.world.tunnel(id) is Some,
        amf.world.tunnel(id)->0.ul_teid == ul_teid,
    ensures
        ({
            let a8 = ngap_step(amf, released(id, ran), rand);
            &&& a8.events == seq![N3EventView::RemoveSession { ul_teid }]
            &&& a8.messages.len() == 0
            &&& !a8.amf.world.is_live(id)
            &&& !a8.amf.registry.contains_key(imsi)
        }),
{
    reveal(ngap_step);
}

/// A UE of a subscriber whose SQN is 0 completes the whole simulation with an
/// AMF in phase B: every message is understood on either side, the UPF is told
/// to create, complete and remove one session, and in the end the UE is done
/// and the AMF has forgotten it.
pub proof fn simulation_completes(amf: AmfView, ue: UeView, challenge: Seq<u8>, rand: Seq<u8>)
    requires
        amf.world.wf(),
        !amf.world.full(),
        amf.phase_b_upf is Some,
        amf.hss.contains_key(ue.imsi),
        amf.hss[ue.imsi].k == ue.k,
        amf.hss[ue.imsi].opc == ue.opc,
        amf.hss[ue.imsi].sqn == 0,
        ue.imsi < 0x100_0000_0000,
        ue.amf_ue_ngap_id is None,
        challenge.len() == 16,
    ensures
        ({
            let c = conversation(amf, ue, challenge, rand);
            let id = amf.world.next_id();
            let ul_teid = amf.teids.first();
            &&& c.u1.1 is Ok && c.u2.1 is Ok && c.u3.1 is Ok && c.u4.1 is Ok && c.u5.1 is Ok && c.u6.1 is Ok
            &&& (c.u4.1->Ok_0).next is RoundTrip
            &&& (c.u6.1->Ok_0).next is Done
            &&& c.a4.events == seq![
                N3EventView::CreateSession {
                    ul_teid,
                    entity_id: id,
                    imsi: ue.imsi,
                    pdu_session_id: DEFAULT_PDU_SESSION_ID,
                    qfi: DEFAULT_QFI,
                    ue_ip: session_ip(id),
                    gnb_addr: zeros(4),
                },
            ]
            &&& c.a5.events == seq![
                N3EventView::UpdateBearer { ul_teid, dl_teid: ue.dl_teid, gnb_addr: ue.my_ip },
            ]
            &&& c.a8.events == seq![N3EventView::RemoveSession { ul_teid }]
            &&& c.a1.events.len() == 0 && c.a2.events.len() == 0 && c.a3.events.len() == 0 && c.a6.events.len() == 0
                && c.a7.events.len() == 0
            &&& !c.a8.amf.world.is_live(id)
            &&& !c.a8.amf.registry.contains_key(ue.imsi)
            &&& c.a8.messages.len() == 0
        }),
{
    let c = conversation(amf, ue, challenge, rand);
    let id = amf.world.next_id();
    let ran = ue.ran_ue_ngap_id;
    let imsi = ue.imsi;
    let s = amf.hss[imsi];
    let first = first_message(ue);
    let ul_teid = amf.teids.first();
    let upf = amf.phase_b_upf->0;
    let key = sim_kamf(ue.k, ue.opc, test_plmn(), challenge, zeros(6), imsi);
    lemma_first_sqn();
    assert(test_tai().subrange(0, 3) =~= test_plmn());
    registration_succeeds(
        amf,
        imsi,
        first,
        INITIAL_REGISTRATION,
        0,
        UE_SECURITY_CAP,
        zeros(9),
        challenge,
        rand,
    );
    let (s1, s2, s3, s4) = registration_run(amf, imsi, first, zeros(9), challenge, rand);
    assert(c.a1 == s1);
    let ue1 = learned(ue, id);
    lemma_ue_identity(ue, id);
    assert(c.a2 == s2);
    lemma_ue_challenge(ue1, id, s, challenge);
    assert(c.a3 == s3);
    let ue2 = UeView { kamf: Some(key), ..ue1 };
    assert(c.u2.0 == ue2);
    lemma_ue_security_mode(ue2, id);
    assert(c.a4 == s4);
    lemma_ue_setup(ue2, id, ul_teid, upf, key);
    assert(c.u4.0 == ue2);
    assert(teid_of(c.a4.amf.world, id) == Some(ul_teid));
    lemma_amf_session(c.a4.amf, ue2, id, ul_teid, key, rand);
    assert(c.a6.amf == c.a5.amf);
    lemma_ue_farewell(ue2, id, c.a5.amf.world, key);
    lemma_ue_release(ue2, id);
    lemma_amf_release(c.a7.amf, id, ran, imsi, ul_teid, rand);
}

} // verus!
