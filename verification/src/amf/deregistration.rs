//! Deregistration by the UE (TS 23.502, 4.2.2.3).
//!
//! ```text
//! UE → AMF     : DeregistrationRequest
//! AMF → UE     : DeregistrationAccept, unless the UE is switched off;
//!                protected once NAS security is active
//! AMF → gNodeB : UeContextReleaseCommand
//! gNodeB → AMF : UeContextReleaseComplete
//! ```
//!
//! What the UE had is torn down on UeContextReleaseComplete, whatever led to
//! the release.

use vstd::prelude::*;

use crate::amf::registration::downlink;
use crate::amf::state_machine::messages_view;
use crate::ecs::{World, WorldView};
use crate::nas::security::next_count;
use crate::nas5gs::codec::{
    decode_nas5gs, encode_deregistration_accept, encode_protected, header, nas5gs_pdu, sealed_downlink, Nas5gsPdu,
    Nas5gsPduView, MT5G_DEREGISTRATION_ACCEPT, NAS5GS_SHT_INTEGRITY_CIPHERED,
};
use crate::ngap::messages::{NgapCause, NgapDownlinkNasTransport, NgapMessage, NgapMessageView};
use crate::octets::bytes_as_slice;

verus! {

/// The switch-off flag of a DeregistrationRequest.
pub open spec fn switch_off_in(nas_pdu: Seq<u8>) -> Option<bool> {
    match nas5gs_pdu(nas_pdu) {
        Ok(Nas5gsPduView::DeregistrationRequest { switch_off }) => Some(switch_off),
        _ => None,
    }
}

/// The command to release the context of a UE that deregisters.
pub open spec fn release_command(amf_ue_ngap_id: u32, ran_ue_ngap_id: u32) -> NgapMessageView {
    NgapMessageView::UeContextReleaseCommand { amf_ue_ngap_id, ran_ue_ngap_id, cause: NgapCause::NasDeregister }
}

/// The DeregistrationAccept as it goes out to an entity.
pub open spec fn farewell_octets(w: WorldView, id: u32) -> Seq<u8> {
    match w.nas_security5g(id) {
        Some(ctx) => sealed_downlink(ctx, NAS5GS_SHT_INTEGRITY_CIPHERED, header(MT5G_DEREGISTRATION_ACCEPT)),
        None => header(MT5G_DEREGISTRATION_ACCEPT),
    }
}

/// The world once DeregistrationAccept is out.
pub open spec fn after_farewell(w: WorldView, id: u32) -> WorldView {
    match w.nas_security5g(id) {
        Some(ctx) => w.with_nas_security5g(id, ctx.with_dl_count(next_count(ctx.dl_count))),
        None => w,
    }
}

/// What a DeregistrationRequest does.
pub open spec fn deregistration_step(w: WorldView, ran_ue_ngap_id: u32, id: u32, nas_pdu: Seq<u8>) -> (
    WorldView,
    Seq<NgapMessageView>,
) {
    match switch_off_in(nas_pdu) {
        Some(switch_off) if w.is_live(id) => if switch_off {
            (w, seq![release_command(id, ran_ue_ngap_id)])
        } else {
            (
                after_farewell(w, id),
                seq![
                    downlink(id, ran_ue_ngap_id, farewell_octets(w, id)),
                    release_command(id, ran_ue_ngap_id),
                ],
            )
        },
        _ => (w, Seq::empty()),
    }
}

/// Answers a DeregistrationRequest. Any other PDU, and one for an entity that
/// is not live, is dropped.
pub fn handle_deregistration_request(
    world: &mut World,
    ran_ue_ngap_id: u32,
    amf_ue_ngap_id: u32,
    nas_pdu: &[u8],
) -> (out: Vec<NgapMessage>)
    requires
        old(world)@.wf(),
    ensures
        final(world)@ == deregistration_step(old(world)@, ran_ue_ngap_id, amf_ue_ngap_id, nas_pdu@).0,
        final(world)@.wf(),
        messages_view(out@) == deregistration_step(old(world)@, ran_ue_ngap_id, amf_ue_ngap_id, nas_pdu@).1,
{
    let mut out: Vec<NgapMessage> = Vec::new();
    assert(messages_view(out@) =~= Seq::<NgapMessageView>::empty());
    let switch_off = match decode_nas5gs(nas_pdu) {
        Ok(Nas5gsPdu::DeregistrationRequest { switch_off }) => switch_off,
        _ => return out,
    };
    if !world.is_live(amf_ue_ngap_id) {
        return out;
    }
    let ghost before = world@;
    if !switch_off {
        let plain = encode_deregistration_accept();
        let nas_pdu_out = match world.nas_security5g_mut(amf_ue_ngap_id) {
            Some(ctx) => encode_protected(ctx, NAS5GS_SHT_INTEGRITY_CIPHERED, bytes_as_slice(&plain)),
            None => plain,
        };
        let accept = NgapMessage::DownlinkNasTransport(
            NgapDownlinkNasTransport { amf_ue_ngap_id, ran_ue_ngap_id, nas_pdu: nas_pdu_out },
        );
        assert(accept@ == downlink(amf_ue_ngap_id, ran_ue_ngap_id, farewell_octets(before, amf_ue_ngap_id)));
        out.push(accept);
    }
    out.push(
        NgapMessage::UeContextReleaseCommand { amf_ue_ngap_id, ran_ue_ngap_id, cause: NgapCause::NasDeregister },
    );
    assert(messages_view(out@) =~= deregistration_step(before, ran_ue_ngap_id, amf_ue_ngap_id, nas_pdu@).1);
    out
}

} // verus!
