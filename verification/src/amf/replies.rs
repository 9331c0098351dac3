//! That everything the AMF answers can be put on the wire.

use vstd::prelude::*;

use crate::amf::deregistration::{farewell_octets, release_command};
use crate::amf::registration::{accept_envelope, challenge_octets, context_setup, downlink, imsi_in, kamf_of};
use crate::amf::state_machine::{ngap_step, opened_uplink, plain_step, AmfView};
use crate::ecs::WorldView;
use crate::hss::SubscriberView;
use crate::nas5gs::codec::{nas5gs_pdu, Nas5gsPduView};
use crate::ngap::messages::{NgapCause, NgapMessageView};
use crate::ngap::wire::{
    context_setup_request_fits, encodable, initial_context_setup_request_in_range, lemma_release_command_fits,
    nas_transport_fits, session_to_setup_ok,
};

verus! {

/// Every security key among the messages has 256 bits, as the key derivation
/// makes them.
pub open spec fn keys_are_whole(messages: Seq<NgapMessageView>) -> bool {
    forall|i: int|
        0 <= i < messages.len() && (#[trigger] messages[i]) is InitialContextSetupRequest ==> (
        messages[i]->InitialContextSetupRequest_0).security_key.len() == 32
}

pub open spec fn all_encodable(messages: Seq<NgapMessageView>) -> bool {
    forall|i: int| 0 <= i < messages.len() ==> encodable(#[trigger] messages[i])
}

proof fn lemma_downlink_fits(id: u32, ran: u32, nas_pdu: Seq<u8>)
    requires
        nas_pdu.len() <= 16_000,
    ensures
        encodable(downlink(id, ran, nas_pdu)),
{
    nas_transport_fits(downlink(id, ran, nas_pdu));
}

proof fn lemma_challenge_len(s: SubscriberView, rand: Seq<u8>)
    requires
        rand.len() == 16,
    ensures
        challenge_octets(s, rand).len() <= 100,
{
}

proof fn lemma_accept_len(kamf: Seq<u8>, id: u32)
    ensures
        accept_envelope(kamf, id).len() <= 100,
{
}

proof fn lemma_farewell_len(w: WorldView, id: u32)
    ensures
        farewell_octets(w, id).len() <= 100,
{
}

proof fn lemma_context_setup_fits(id: u32, ran: u32, ul_teid: u32, upf: Seq<u8>, kamf: Seq<u8>)
    requires
        upf.len() == 4,
        kamf.len() == 32,
    ensures
        encodable(context_setup(id, ran, ul_teid, upf, kamf)),
{
    let v = context_setup(id, ran, ul_teid, upf, kamf)->InitialContextSetupRequest_0;
    lemma_accept_len(kamf, id);
    assert(session_to_setup_ok(v.pdu_sessions[0]));
    assert(initial_context_setup_request_in_range(v));
    context_setup_request_fits(v);
}

proof fn lemma_plain_replies(amf: AmfView, ran: u32, id: u32, plain: Seq<u8>, rand: Seq<u8>)
    requires
        rand.len() == 16,
        amf.phase_b_upf is Some ==> amf.phase_b_upf->0.len() == 4,
        keys_are_whole(plain_step(amf, ran, id, plain, rand).messages),
    ensures
        all_encodable(plain_step(amf, ran, id, plain, rand).messages),
{
    let messages = plain_step(amf, ran, id, plain, rand).messages;
    lemma_release_command_fits(id, ran, NgapCause::NasDeregister);
    assert forall|i: int| 0 <= i < messages.len() implies encodable(#[trigger] messages[i]) by {
        match nas5gs_pdu(plain) {
            Ok(Nas5gsPduView::IdentityResponse { .. }) => {
                let imsi = imsi_in(plain)->0;
                lemma_challenge_len(amf.hss[imsi], rand);
                lemma_downlink_fits(id, ran, challenge_octets(amf.hss[imsi], rand));
            },
            Ok(Nas5gsPduView::SecurityModeComplete) => {
                let key = kamf_of(amf.world.security5g(id)->0, amf.world.identity(id)->0.imsi);
                lemma_accept_len(key, id);
                lemma_downlink_fits(id, ran, accept_envelope(key, id));
                if amf.phase_b_upf is Some {
                    assert(messages[i] == context_setup(id, ran, amf.teids.first(), amf.phase_b_upf->0, key));
                    lemma_context_setup_fits(id, ran, amf.teids.first(), amf.phase_b_upf->0, key);
                }
            },
            Ok(Nas5gsPduView::DeregistrationRequest { .. }) => {
                lemma_farewell_len(amf.world, id);
                lemma_downlink_fits(id, ran, farewell_octets(amf.world, id));
                assert(messages[i] == release_command(id, ran) || messages[i] == downlink(
                    id,
                    ran,
                    farewell_octets(amf.world, id),
                ));
            },
            _ => {
                nas_transport_fits(messages[i]);
            },
        }
    }
}

/// Every reply of an AMF can be encoded.
pub proof fn every_reply_is_encodable(amf: AmfView, msg: NgapMessageView, rand: Seq<u8>)
    requires
        rand.len() == 16,
        amf.phase_b_upf is Some ==> amf.phase_b_upf->0.len() == 4,
        keys_are_whole(ngap_step(amf, msg, rand).messages),
    ensures
        all_encodable(ngap_step(amf, msg, rand).messages),
{
    reveal(ngap_step);
    let messages = ngap_step(amf, msg, rand).messages;
    match msg {
        NgapMessageView::InitialUeMessage(_) => {
            assert forall|i: int| 0 <= i < messages.len() implies encodable(#[trigger] messages[i]) by {
                nas_transport_fits(messages[i]);
            }
        },
        NgapMessageView::UplinkNasTransport(m) => {
            let (world, plain) = opened_uplink(amf.world, m.amf_ue_ngap_id, m.nas_pdu);
            if plain is Some {
                lemma_plain_replies(AmfView { world, ..amf }, m.ran_ue_ngap_id, m.amf_ue_ngap_id, plain->0, rand);
            }
        },
        _ => {},
    }
}

} // verus!
