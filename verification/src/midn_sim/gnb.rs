//! The gNodeB: UEs that share one link to the AMF and one GTP-U socket.
//!
//! What comes in is taken to the UE that it is for: an NGAP message by its
//! RAN-UE-NGAP-ID, a user packet by its TEID. Both are assigned by the gNodeB
//! itself, from a base and the number of the UE.

use vstd::prelude::*;

use crate::error::ProtoError;
use crate::gtp::{datagram_parts, GtpuHeader};
use crate::midn_sim::ue::{ran_id_of, ran_ue_ngap_id_of};
use crate::ngap::codec::decode_ngap_pdu;
use crate::ngap::messages::{NgapMessage, NgapMessageView};
use crate::ngap::wire;
use crate::octets::{bytes_as_slice, to_vec};
use crate::transport::{LinkEvent, LinkEventView};

verus! {

/// The IMSI of the first UE.
pub const TEST_IMSI: u64 = 901_700_000_001;

/// The RAN-UE-NGAP-ID of the first UE.
pub const RAN_UE_NGAP_ID_BASE: u32 = 7;

/// The downlink TEID of the first UE.
pub const MOCK_DL_TEID_BASE: u32 = 0xAABB_CCDD;

/// As many UEs as there are downlink TEIDs from the base on.
pub const MAX_UES: u32 = 0x5544_3323;

/// What a UE is assigned.
#[derive(Debug, Clone, Copy, PartialEq, Eq, Structural)]
pub struct UeSlot {
    pub ran_ue_ngap_id: u32,
    pub dl_teid: u32,
    pub imsi: u64,
}

/// What the UE of a number is assigned.
pub open spec fn slot_of(index: u32) -> UeSlot {
    UeSlot {
        ran_ue_ngap_id: (RAN_UE_NGAP_ID_BASE + index) as u32,
        dl_teid: (MOCK_DL_TEID_BASE + index) as u32,
        imsi: (TEST_IMSI + index) as u64,
    }
}

/// UEs of different numbers share nothing that they are assigned.
pub proof fn slots_are_separate(a: u32, b: u32)
    requires
        a < MAX_UES,
        b < MAX_UES,
        a != b,
    ensures
        slot_of(a).ran_ue_ngap_id != slot_of(b).ran_ue_ngap_id,
        slot_of(a).dl_teid != slot_of(b).dl_teid,
        slot_of(a).imsi != slot_of(b).imsi,
{
}

pub fn ue_slot(index: u32) -> (s: UeSlot)
    requires
        index < MAX_UES,
    ensures
        s == slot_of(index),
{
    UeSlot {
        ran_ue_ngap_id: RAN_UE_NGAP_ID_BASE + index,
        dl_teid: MOCK_DL_TEID_BASE + index,
        imsi: TEST_IMSI + index as u64,
    }
}

/// The number of the UE that a RAN-UE-NGAP-ID was assigned to.
pub open spec fn index_of_ran_id(n_ues: u32, id: u32) -> Option<u32> {
    if RAN_UE_NGAP_ID_BASE <= id < RAN_UE_NGAP_ID_BASE + n_ues {
        Some((id - RAN_UE_NGAP_ID_BASE) as u32)
    } else {
        None
    }
}

/// The number of the UE that a downlink TEID was assigned to.
pub open spec fn index_of_dl_teid(n_ues: u32, teid: u32) -> Option<u32> {
    if MOCK_DL_TEID_BASE <= teid < MOCK_DL_TEID_BASE + n_ues {
        Some((teid - MOCK_DL_TEID_BASE) as u32)
    } else {
        None
    }
}

/// A UE is found by what it was assigned.
pub proof fn assignments_lead_back(n_ues: u32, index: u32)
    requires
        index < n_ues <= MAX_UES,
    ensures
        index_of_ran_id(n_ues, slot_of(index).ran_ue_ngap_id) == Some(index),
        index_of_dl_teid(n_ues, slot_of(index).dl_teid) == Some(index),
{
}

/// Where an NGAP message goes.
#[derive(Debug, Clone)]
pub enum Dispatch {
    /// To the UE of this number.
    Deliver { index: u32, msg: NgapMessage },
    /// Nowhere: it is no NGAP message.
    BadPdu(ProtoError),
    /// Nowhere: no UE was assigned this identifier.
    UnknownUe { id: u32, msg: NgapMessage },
    /// Nowhere: it names no UE.
    NoUeId { msg: NgapMessage },
    /// The link is up, which is known already.
    Ignore,
    /// The link is gone.
    Lost { reason: String },
    /// The link has ended.
    Closed,
}

#[verifier::ext_equal]
pub enum DispatchView {
    Deliver { index: u32, msg: NgapMessageView },
    BadPdu(ProtoError),
    UnknownUe { id: u32, msg: NgapMessageView },
    NoUeId { msg: NgapMessageView },
    Ignore,
    Lost { reason: Seq<char> },
    Closed,
}

impl View for Dispatch {
    type V = DispatchView;

    open spec fn view(&self) -> DispatchView {
        match *self {
            Dispatch::Deliver { index, msg } => DispatchView::Deliver { index, msg: msg@ },
            Dispatch::BadPdu(e) => DispatchView::BadPdu(e),
            Dispatch::UnknownUe { id, msg } => DispatchView::UnknownUe { id, msg: msg@ },
            Dispatch::NoUeId { msg } => DispatchView::NoUeId { msg: msg@ },
            Dispatch::Ignore => DispatchView::Ignore,
            Dispatch::Lost { reason } => DispatchView::Lost { reason: reason@ },
            Dispatch::Closed => DispatchView::Closed,
        }
    }
}

/// Where an NGAP message goes: to the UE that it names.
pub open spec fn route(n_ues: u32, msg: NgapMessageView) -> DispatchView {
    match ran_id_of(msg) {
        Some(id) => match index_of_ran_id(n_ues, id) {
            Some(index) => DispatchView::Deliver { index, msg },
            None => DispatchView::UnknownUe { id, msg },
        },
        None => DispatchView::NoUeId { msg },
    }
}

/// The view of an optional link event.
pub open spec fn opt_event(e: Option<LinkEvent>) -> Option<LinkEventView> {
    match e {
        Some(e) => Some(e@),
        None => None,
    }
}

/// What a link event leads to; `None` is the end of the link.
pub open spec fn dispatched(n_ues: u32, event: Option<LinkEventView>) -> DispatchView {
    match event {
        None => DispatchView::Closed,
        Some(LinkEventView::Connected) => DispatchView::Ignore,
        Some(LinkEventView::Lost { reason }) => DispatchView::Lost { reason },
        Some(LinkEventView::Message(b)) => match wire::message(b) {
            Err(e) => DispatchView::BadPdu(e),
            Ok(msg) => route(n_ues, msg),
        },
    }
}

/// Takes a link event to the UE that it is for.
pub fn dispatch(n_ues: u32, event: Option<LinkEvent>) -> (d: Dispatch)
    requires
        n_ues <= MAX_UES,
    ensures
        d@ == dispatched(n_ues, opt_event(event)),
{
    match event {
        None => Dispatch::Closed,
        Some(LinkEvent::Connected) => Dispatch::Ignore,
        Some(LinkEvent::Lost { reason }) => Dispatch::Lost { reason },
        Some(LinkEvent::Message(b)) => match decode_ngap_pdu(bytes_as_slice(&b)) {
            Err(e) => Dispatch::BadPdu(e),
            Ok(msg) => match ran_ue_ngap_id_of(&msg) {
                Some(id) => if RAN_UE_NGAP_ID_BASE <= id && id < RAN_UE_NGAP_ID_BASE + n_ues {
                    Dispatch::Deliver { index: id - RAN_UE_NGAP_ID_BASE, msg }
                } else {
                    Dispatch::UnknownUe { id, msg }
                },
                None => Dispatch::NoUeId { msg },
            },
        },
    }
}

/// A message is taken to a UE if and only if it names that UE.
pub proof fn messages_reach_the_right_ue(n_ues: u32, index: u32, msg: NgapMessageView)
    requires
        n_ues <= MAX_UES,
    ensures
        route(n_ues, msg) == (DispatchView::Deliver { index, msg }) <==> index < n_ues && ran_id_of(msg) == Some(
            slot_of(index).ran_ue_ngap_id,
        ),
{
}

/// What the first event of a link must be.
#[derive(Debug, Clone)]
pub enum ConnectError {
    /// The link was lost before it was up.
    Lost { reason: String },
    /// Another event came first.
    Unexpected,
    /// The link ended before it was up.
    Closed,
}

/// Checks that a link is up.
pub fn expect_connected(event: Option<LinkEvent>) -> (r: Result<(), ConnectError>)
    ensures
        match opt_event(event) {
            Some(LinkEventView::Connected) => r is Ok,
            Some(LinkEventView::Lost { reason }) => r matches Err(ConnectError::Lost { reason: text }) && text@ == reason,
            Some(LinkEventView::Message(_)) => r matches Err(ConnectError::Unexpected),
            None => r matches Err(ConnectError::Closed),
        },
{
    match event {
        Some(LinkEvent::Connected) => Ok(()),
        Some(LinkEvent::Lost { reason }) => Err(ConnectError::Lost { reason }),
        Some(LinkEvent::Message(_)) => Err(ConnectError::Unexpected),
        None => Err(ConnectError::Closed),
    }
}

// ── User plane ────────────────────────────────────────────────────────────────

/// Where a datagram of the user plane goes.
#[derive(Debug, Clone)]
pub enum UserPlane {
    /// To the UE of this number.
    Deliver { index: u32, payload: Vec<u8> },
    /// Nowhere: no UE was assigned this TEID.
    UnknownTeid { teid: u32 },
    /// Nowhere: it is no GTP-U datagram.
    Malformed,
}

#[verifier::ext_equal]
pub enum UserPlaneView {
    Deliver { index: u32, payload: Seq<u8> },
    UnknownTeid { teid: u32 },
    Malformed,
}

impl View for UserPlane {
    type V = UserPlaneView;

    open spec fn view(&self) -> UserPlaneView {
        match *self {
            UserPlane::Deliver { index, payload } => UserPlaneView::Deliver { index, payload: payload@ },
            UserPlane::UnknownTeid { teid } => UserPlaneView::UnknownTeid { teid },
            UserPlane::Malformed => UserPlaneView::Malformed,
        }
    }
}

pub open spec fn demuxed(n_ues: u32, datagram: Seq<u8>) -> UserPlaneView {
    match datagram_parts(datagram) {
        None => UserPlaneView::Malformed,
        Some((h, payload)) => match index_of_dl_teid(n_ues, h.teid) {
            Some(index) => UserPlaneView::Deliver { index, payload },
            None => UserPlaneView::UnknownTeid { teid: h.teid },
        },
    }
}

/// Takes a datagram of the user plane to the UE that it is for.
pub fn demux(n_ues: u32, datagram: &[u8]) -> (d: UserPlane)
    requires
        n_ues <= MAX_UES,
    ensures
        d@ == demuxed(n_ues, datagram@),
{
    match GtpuHeader::parse(datagram) {
        None => UserPlane::Malformed,
        Some((h, payload)) => {
            if h.teid >= MOCK_DL_TEID_BASE && h.teid - MOCK_DL_TEID_BASE < n_ues {
                UserPlane::Deliver { index: h.teid - MOCK_DL_TEID_BASE, payload: to_vec(payload) }
            } else {
                UserPlane::UnknownTeid { teid: h.teid }
            }
        },
    }
}

} // verus!
