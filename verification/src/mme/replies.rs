//! That everything the MME answers can be put on the wire, but for a
//! UeContextReleaseCommand, which has no wire encoding.

use vstd::prelude::*;

use crate::ecs::WorldView;
use crate::hss::SubscriberView;
use crate::mme::attach::{
    accept_envelope, challenge_octets, context_setup, downlink, imsi_in, kasme_of, replayed_cap, SELECTED_EEA,
    SELECTED_EIA,
};
use crate::mme::detach::{farewell_octets, release_command};
use crate::mme::state_machine::{opened_uplink, plain_step, s1ap_step, MmeView};
use crate::nas::codec::{nas_pdu, sec_mode_cmd_octets, NasPduView};
use crate::s1ap::ie_ids::ENB_UE_S1AP_ID_MAX;
use crate::s1ap::messages::S1apMessageView;
use crate::s1ap::wire::{
    context_setup_request_fits, encodable, erab_to_setup_ok, initial_context_setup_request_in_range, message,
    nas_transport_fits,
};

verus! {

/// Every security key among the messages has 256 bits, as the key derivation
/// makes them.
pub open spec fn keys_are_whole(messages: Seq<S1apMessageView>) -> bool {
    forall|i: int|
        0 <= i < messages.len() && (#[trigger] messages[i]) is InitialContextSetupRequest ==> (
        messages[i]->InitialContextSetupRequest_0).security_key.len() == 32
}

/// Every message but a release command can be encoded.
pub open spec fn all_encodable(messages: Seq<S1apMessageView>) -> bool {
    forall|i: int|
        0 <= i < messages.len() ==> (#[trigger] messages[i]) is UeContextReleaseCommand || encodable(messages[i])
}

/// Every UE in a message that asks for an answer has an identifier of 24 bits,
/// as the eNodeB assigns them.
pub open spec fn enb_id_fits(msg: S1apMessageView) -> bool {
    match msg {
        S1apMessageView::InitialUeMessage(m) => m.enb_ue_s1ap_id <= ENB_UE_S1AP_ID_MAX,
        S1apMessageView::UplinkNasTransport(m) => m.enb_ue_s1ap_id <= ENB_UE_S1AP_ID_MAX,
        _ => true,
    }
}

/// A message from the wire carries such an identifier.
pub proof fn decoded_ids_fit(d: Seq<u8>)
    ensures
        message(d) is Ok ==> enb_id_fits(message(d)->Ok_0),
{
}

proof fn lemma_downlink_fits(id: u32, enb: u32, pdu: Seq<u8>)
    requires
        enb <= ENB_UE_S1AP_ID_MAX,
        pdu.len() <= 16_000,
    ensures
        encodable(downlink(id, enb, pdu)),
{
    nas_transport_fits(downlink(id, enb, pdu));
}

proof fn lemma_challenge_len(s: SubscriberView, rand: Seq<u8>)
    requires
        rand.len() == 16,
    ensures
        challenge_octets(s, rand).len() <= 100,
{
}

proof fn lemma_accept_len(kasme: Seq<u8>, ue_ip: Seq<u8>)
    requires
        ue_ip.len() == 4,
    ensures
        accept_envelope(kasme, ue_ip).len() <= 100,
{
}

proof fn lemma_farewell_len(w: WorldView, id: u32)
    ensures
        farewell_octets(w, id).len() <= 100,
{
}

proof fn lemma_context_setup_fits(id: u32, enb: u32, ul_teid: u32, upf: Seq<u8>, kasme: Seq<u8>, ue_ip: Seq<u8>)
    requires
        enb <= ENB_UE_S1AP_ID_MAX,
        upf.len() == 4,
        kasme.len() == 32,
        ue_ip.len() == 4,
    ensures
        encodable(context_setup(id, enb, ul_teid, upf, kasme, ue_ip)),
{
    let v = context_setup(id, enb, ul_teid, upf, kasme, ue_ip)->InitialContextSetupRequest_0;
    lemma_accept_len(kasme, ue_ip);
    assert(erab_to_setup_ok(v.e_rabs[0]));
    assert(initial_context_setup_request_in_range(v));
    context_setup_request_fits(v);
}

/// The address of a UE has four octets.
pub open spec fn addresses_are_whole(w: WorldView) -> bool {
    forall|id: u32| (#[trigger] w.identity(id)) is Some ==> w.identity(id)->0.ue_ip.len() == 4
}

proof fn lemma_plain_replies(mme: MmeView, enb: u32, id: u32, plain: Seq<u8>)
    requires
        enb <= ENB_UE_S1AP_ID_MAX,
        mme.phase3_upf is Some ==> mme.phase3_upf->0.len() == 4,
        addresses_are_whole(mme.world),
        keys_are_whole(plain_step(mme, enb, id, plain).messages),
    ensures
        all_encodable(plain_step(mme, enb, id, plain).messages),
{
    let messages = plain_step(mme, enb, id, plain).messages;
    assert forall|i: int| 0 <= i < messages.len() implies (#[trigger] messages[i]) is UeContextReleaseCommand
        || encodable(messages[i]) by {
        match nas_pdu(plain) {
            Ok(NasPduView::AuthenticationResponse { .. }) => {
                lemma_downlink_fits(id, enb, sec_mode_cmd_octets(SELECTED_EEA, SELECTED_EIA, 0, replayed_cap()));
            },
            Ok(NasPduView::SecurityModeComplete) => {
                let key = kasme_of(mme.world.security(id)->0);
                let ue_ip = mme.world.identity(id)->0.ue_ip;
                lemma_accept_len(key, ue_ip);
                lemma_downlink_fits(id, enb, accept_envelope(key, ue_ip));
                if mme.phase3_upf is Some {
                    assert(messages[i] == context_setup(id, enb, mme.teids.first(), mme.phase3_upf->0, key, ue_ip));
                    lemma_context_setup_fits(id, enb, mme.teids.first(), mme.phase3_upf->0, key, ue_ip);
                }
            },
            _ => {
                lemma_farewell_len(mme.world, id);
                lemma_downlink_fits(id, enb, farewell_octets(mme.world, id));
                assert(messages[i] == release_command(id, enb) || messages[i] == downlink(
                    id,
                    enb,
                    farewell_octets(mme.world, id),
                ));
            },
        }
    }
}

/// Every reply of an MME but a release command can be encoded.
pub proof fn every_reply_is_encodable(mme: MmeView, msg: S1apMessageView, rand: Seq<u8>)
    requires
        rand.len() == 16,
        mme.phase3_upf is Some ==> mme.phase3_upf->0.len() == 4,
        enb_id_fits(msg),
        addresses_are_whole(mme.world),
        keys_are_whole(s1ap_step(mme, msg, rand).messages),
    ensures
        all_encodable(s1ap_step(mme, msg, rand).messages),
{
    reveal(s1ap_step);
    match msg {
        S1apMessageView::InitialUeMessage(m) => {
            if imsi_in(m.nas_pdu) is Some {
                let s = mme.hss[imsi_in(m.nas_pdu)->0];
                lemma_challenge_len(s, rand);
                lemma_downlink_fits(mme.world.next_id(), m.enb_ue_s1ap_id, challenge_octets(s, rand));
            }
        },
        S1apMessageView::UplinkNasTransport(m) => {
            let (world, plain) = opened_uplink(mme.world, m.mme_ue_s1ap_id, m.nas_pdu);
            assert forall|id: u32| #[trigger] world.identity(id) == mme.world.identity(id) by {}
            if plain is Some {
                lemma_plain_replies(MmeView { world, ..mme }, m.enb_ue_s1ap_id, m.mme_ue_s1ap_id, plain->0);
            }
        },
        _ => {},
    }
}

} // verus!
