//! Detach by the UE (TS 23.401, 5.3.8.2; TS 24.301, 5.5.2.2).
//!
//! ```text
//! UE → MME     : DetachRequest
//! MME → UE     : DetachAccept, unless the UE is switched off; protected once
//!                NAS security is active
//! MME → eNodeB : UeContextReleaseCommand
//! eNodeB → MME : UeContextReleaseComplete
//! ```
//!
//! What the UE had is torn down on UeContextReleaseComplete, whatever led to
//! the release.

use vstd::prelude::*;

use crate::ecs::{World, WorldView};
use crate::mme::attach::downlink;
use crate::mme::state_machine::messages_view;
use crate::nas::codec::{
    bare_octets, decode_nas, encode_detach_accept, encode_protected, nas_pdu, NasPdu, NasPduView, MT_DETACH_ACCEPT,
    SHT_INTEGRITY_CIPHERED,
};
use crate::nas::security::{next_count, NAS_BEARER};
use crate::octets::bytes_as_slice;
use crate::s1ap::messages::{DownlinkNasTransport, S1apCause, S1apMessage, S1apMessageView};

verus! {

/// The switch-off flag of a DetachRequest.
pub open spec fn switch_off_in(pdu: Seq<u8>) -> Option<bool> {
    match nas_pdu(pdu) {
        Ok(NasPduView::DetachRequest { switch_off, .. }) => Some(switch_off),
        _ => None,
    }
}

pub open spec fn release_command(mme_ue_s1ap_id: u32, enb_ue_s1ap_id: u32) -> S1apMessageView {
    S1apMessageView::UeContextReleaseCommand { mme_ue_s1ap_id, enb_ue_s1ap_id, cause: S1apCause::NasDetach }
}

/// The DetachAccept as it goes out to an entity.
pub open spec fn farewell_octets(w: WorldView, id: u32) -> Seq<u8> {
    match w.nas_security(id) {
        Some(ctx) => ctx.sealed_downlink(SHT_INTEGRITY_CIPHERED, NAS_BEARER, bare_octets(MT_DETACH_ACCEPT)),
        None => bare_octets(MT_DETACH_ACCEPT),
    }
}

/// The world once DetachAccept is out.
pub open spec fn after_farewell(w: WorldView, id: u32) -> WorldView {
    match w.nas_security(id) {
        Some(ctx) => w.with_nas_security(id, ctx.with_dl_count(next_count(ctx.dl_count))),
        None => w,
    }
}

/// What a DetachRequest does.
pub open spec fn detach_step(w: WorldView, enb_ue_s1ap_id: u32, id: u32, pdu: Seq<u8>) -> (
    WorldView,
    Seq<S1apMessageView>,
) {
    match switch_off_in(pdu) {
        Some(switch_off) if w.is_live(id) => if switch_off {
            (w, seq![release_command(id, enb_ue_s1ap_id)])
        } else {
            (
                after_farewell(w, id),
                seq![downlink(id, enb_ue_s1ap_id, farewell_octets(w, id)), release_command(id, enb_ue_s1ap_id)],
            )
        },
        _ => (w, Seq::empty()),
    }
}

/// Answers a DetachRequest. Any other PDU, and one for an entity that is not
/// live, is dropped.
pub fn handle_detach_request(world: &mut World, enb_ue_s1ap_id: u32, mme_ue_s1ap_id: u32, nas_pdu: &[u8]) -> (out:
    Vec<S1apMessage>)
    requires
        old(world)@.wf(),
    ensures
        final(world)@ == detach_step(old(world)@, enb_ue_s1ap_id, mme_ue_s1ap_id, nas_pdu@).0,
        final(world)@.wf(),
        messages_view(out@) == detach_step(old(world)@, enb_ue_s1ap_id, mme_ue_s1ap_id, nas_pdu@).1,
{
    let mut out: Vec<S1apMessage> = Vec::new();
    assert(messages_view(out@) =~= Seq::<S1apMessageView>::empty());
    let switch_off = match decode_nas(nas_pdu) {
        Ok(NasPdu::DetachRequest(d)) => d.switch_off,
        _ => return out,
    };
    if !world.is_live(mme_ue_s1ap_id) {
        return out;
    }
    let ghost before = world@;
    if !switch_off {
        let plain = encode_detach_accept();
        let nas_pdu_out = match world.nas_security_mut(mme_ue_s1ap_id) {
            Some(ctx) => encode_protected(ctx, SHT_INTEGRITY_CIPHERED, NAS_BEARER, bytes_as_slice(&plain)),
            None => plain,
        };
        let accept = S1apMessage::DownlinkNasTransport(
            DownlinkNasTransport { mme_ue_s1ap_id, enb_ue_s1ap_id, nas_pdu: nas_pdu_out },
        );
        assert(accept@ == downlink(mme_ue_s1ap_id, enb_ue_s1ap_id, farewell_octets(before, mme_ue_s1ap_id)));
        out.push(accept);
    }
    out.push(
        S1apMessage::UeContextReleaseCommand { mme_ue_s1ap_id, enb_ue_s1ap_id, cause: S1apCause::NasDetach },
    );
    assert(messages_view(out@) =~= detach_step(before, enb_ue_s1ap_id, mme_ue_s1ap_id, nas_pdu@).1);
    out
}

} // verus!
