//! S1AP messages (3GPP TS 36.413), as the MME exchanges them with an eNodeB.
//!
//! Each message that has a wire encoding has a view with the same fields
//! over mathematical sequences.

use bytes::Bytes;
use vstd::prelude::*;

use crate::octets::{octets_of, opt_octets_of};

verus! {

/// An S1AP message.
#[derive(Debug, Clone)]
pub enum S1apMessage {
    /// eNodeB → MME: register the eNodeB on startup.
    S1SetupRequest,
    /// MME → eNodeB: accept the registration.
    S1SetupResponse,
    /// eNodeB → MME: the first NAS message of a new UE.
    InitialUeMessage(InitialUeMessage),
    /// MME → eNodeB: a NAS PDU for the UE.
    DownlinkNasTransport(DownlinkNasTransport),
    /// eNodeB → MME: a NAS PDU from the UE.
    UplinkNasTransport(UplinkNasTransport),
    /// MME → eNodeB: establish the UE security context, with E-RABs and a NAS
    /// PDU on board as needed.
    InitialContextSetupRequest(InitialContextSetupRequest),
    /// eNodeB → MME: the context is established.
    InitialContextSetupResponse(InitialContextSetupResponse),
    /// MME → eNodeB: release the UE context.
    UeContextReleaseCommand { mme_ue_s1ap_id: u32, enb_ue_s1ap_id: u32, cause: S1apCause },
    /// eNodeB → MME: the UE context is released.
    UeContextReleaseComplete(UeContextReleaseComplete),
}

#[derive(Debug, Clone)]
pub struct InitialUeMessage {
    pub enb_ue_s1ap_id: u32,
    pub nas_pdu: Bytes,
    /// PLMN (3 octets) and tracking area code (2 octets).
    pub tai: [u8; 5],
    pub eutran_cgi: [u8; 7],
    pub rrc_cause: u8,
}

#[derive(Debug, Clone)]
pub struct DownlinkNasTransport {
    pub mme_ue_s1ap_id: u32,
    pub enb_ue_s1ap_id: u32,
    pub nas_pdu: Bytes,
}

#[derive(Debug, Clone)]
pub struct UplinkNasTransport {
    pub mme_ue_s1ap_id: u32,
    pub enb_ue_s1ap_id: u32,
    pub nas_pdu: Bytes,
    pub tai: [u8; 5],
    pub eutran_cgi: [u8; 7],
}

#[derive(Debug)]
pub struct InitialContextSetupRequest {
    pub mme_ue_s1ap_id: u32,
    pub enb_ue_s1ap_id: u32,
    /// E-RABs to establish along with the security context.
    pub e_rabs: Vec<ErabToSetup>,
    /// A NAS PDU for the UE (AttachAccept).
    pub nas_pdu: Option<Bytes>,
    /// Aggregate maximum bit rate, downlink and uplink, in bits per second.
    pub ue_ambr: (u64, u64),
    /// Access stratum security anchor key.
    pub security_key: [u8; 32],
}

impl Clone for InitialContextSetupRequest {
    fn clone(&self) -> (r: Self)
        ensures
            r@ == self@,
    {
        let r = InitialContextSetupRequest {
            mme_ue_s1ap_id: self.mme_ue_s1ap_id,
            enb_ue_s1ap_id: self.enb_ue_s1ap_id,
            e_rabs: self.e_rabs.clone(),
            nas_pdu: match &self.nas_pdu {
                Some(b) => Some(b.clone()),
                None => None,
            },
            ue_ambr: self.ue_ambr,
            security_key: self.security_key,
        };
        assert(r.e_rabs@ =~= self.e_rabs@);
        r
    }
}

#[derive(Debug, Clone, Copy)]
pub struct ErabToSetup {
    pub erab_id: u8,
    /// QoS class identifier.
    pub qci: u8,
    /// Uplink TEID of the gateway, big-endian.
    pub gtp_teid: [u8; 4],
    /// S1-U IPv4 address of the gateway.
    pub transport_layer_addr: [u8; 4],
}

#[derive(Debug, Clone)]
pub struct InitialContextSetupResponse {
    pub mme_ue_s1ap_id: u32,
    pub enb_ue_s1ap_id: u32,
    /// E-RABs that were established.
    pub e_rabs_setup: Vec<ErabSetupItem>,
    /// Identifiers of the E-RABs that were not.
    pub e_rabs_failed: Vec<u8>,
}

#[derive(Debug, Clone, Copy)]
pub struct ErabSetupItem {
    pub e_rab_id: u8,
    /// S1-U IPv4 address of the eNodeB.
    pub transport_layer_addr: [u8; 4],
    /// Downlink TEID that the eNodeB assigned, big-endian.
    pub gtp_teid: [u8; 4],
}

#[derive(Debug, Clone)]
pub struct UeContextReleaseComplete {
    pub mme_ue_s1ap_id: u32,
    pub enb_ue_s1ap_id: u32,
}

/// S1AP cause, flattened.
#[derive(Debug, Clone, Copy, PartialEq, Eq, Structural)]
pub enum S1apCause {
    RadioNetworkUnspecified,
    TransportUnspecified,
    NasNormalRelease,
    NasDetach,
    NasAuthFailure,
    ProtocolUnspecified,
    MiscUnspecified,
}

// ── Views ─────────────────────────────────────────────────────────────────────

#[verifier::ext_equal]
pub struct InitialUeMessageView {
    pub enb_ue_s1ap_id: u32,
    pub nas_pdu: Seq<u8>,
    pub tai: Seq<u8>,
    pub eutran_cgi: Seq<u8>,
    pub rrc_cause: u8,
}

#[verifier::ext_equal]
pub struct DownlinkNasTransportView {
    pub mme_ue_s1ap_id: u32,
    pub enb_ue_s1ap_id: u32,
    pub nas_pdu: Seq<u8>,
}

#[verifier::ext_equal]
pub struct UplinkNasTransportView {
    pub mme_ue_s1ap_id: u32,
    pub enb_ue_s1ap_id: u32,
    pub nas_pdu: Seq<u8>,
    pub tai: Seq<u8>,
    pub eutran_cgi: Seq<u8>,
}

#[verifier::ext_equal]
pub struct ErabToSetupView {
    pub erab_id: u8,
    pub qci: u8,
    pub gtp_teid: Seq<u8>,
    pub transport_layer_addr: Seq<u8>,
}

#[verifier::ext_equal]
pub struct InitialContextSetupRequestView {
    pub mme_ue_s1ap_id: u32,
    pub enb_ue_s1ap_id: u32,
    pub e_rabs: Seq<ErabToSetupView>,
    pub nas_pdu: Option<Seq<u8>>,
    pub ue_ambr: (u64, u64),
    pub security_key: Seq<u8>,
}

#[verifier::ext_equal]
pub struct ErabSetupItemView {
    pub e_rab_id: u8,
    pub transport_layer_addr: Seq<u8>,
    pub gtp_teid: Seq<u8>,
}

#[verifier::ext_equal]
pub struct InitialContextSetupResponseView {
    pub mme_ue_s1ap_id: u32,
    pub enb_ue_s1ap_id: u32,
    pub e_rabs_setup: Seq<ErabSetupItemView>,
    pub e_rabs_failed: Seq<u8>,
}

#[verifier::ext_equal]
pub enum S1apMessageView {
    S1SetupRequest,
    S1SetupResponse,
    InitialUeMessage(InitialUeMessageView),
    DownlinkNasTransport(DownlinkNasTransportView),
    UplinkNasTransport(UplinkNasTransportView),
    InitialContextSetupRequest(InitialContextSetupRequestView),
    InitialContextSetupResponse(InitialContextSetupResponseView),
    UeContextReleaseCommand { mme_ue_s1ap_id: u32, enb_ue_s1ap_id: u32, cause: S1apCause },
    UeContextReleaseComplete { mme_ue_s1ap_id: u32, enb_ue_s1ap_id: u32 },
}

impl View for InitialUeMessage {
    type V = InitialUeMessageView;

    open spec fn view(&self) -> InitialUeMessageView {
        InitialUeMessageView {
            enb_ue_s1ap_id: self.enb_ue_s1ap_id,
            nas_pdu: octets_of(self.nas_pdu),
            tai: self.tai@,
            eutran_cgi: self.eutran_cgi@,
            rrc_cause: self.rrc_cause,
        }
    }
}

impl View for DownlinkNasTransport {
    type V = DownlinkNasTransportView;

    open spec fn view(&self) -> DownlinkNasTransportView {
        DownlinkNasTransportView {
            mme_ue_s1ap_id: self.mme_ue_s1ap_id,
            enb_ue_s1ap_id: self.enb_ue_s1ap_id,
            nas_pdu: octets_of(self.nas_pdu),
        }
    }
}

impl View for UplinkNasTransport {
    type V = UplinkNasTransportView;

    open spec fn view(&self) -> UplinkNasTransportView {
        UplinkNasTransportView {
            mme_ue_s1ap_id: self.mme_ue_s1ap_id,
            enb_ue_s1ap_id: self.enb_ue_s1ap_id,
            nas_pdu: octets_of(self.nas_pdu),
            tai: self.tai@,
            eutran_cgi: self.eutran_cgi@,
        }
    }
}

impl View for ErabToSetup {
    type V = ErabToSetupView;

    open spec fn view(&self) -> ErabToSetupView {
        ErabToSetupView {
            erab_id: self.erab_id,
            qci: self.qci,
            gtp_teid: self.gtp_teid@,
            transport_layer_addr: self.transport_layer_addr@,
        }
    }
}

pub open spec fn erabs_to_setup_view(s: Seq<ErabToSetup>) -> Seq<ErabToSetupView> {
    s.map_values(|x: ErabToSetup| x@)
}

impl View for InitialContextSetupRequest {
    type V = InitialContextSetupRequestView;

    open spec fn view(&self) -> InitialContextSetupRequestView {
        InitialContextSetupRequestView {
            mme_ue_s1ap_id: self.mme_ue_s1ap_id,
            enb_ue_s1ap_id: self.enb_ue_s1ap_id,
            e_rabs: erabs_to_setup_view(self.e_rabs@),
            nas_pdu: opt_octets_of(self.nas_pdu),
            ue_ambr: self.ue_ambr,
            security_key: self.security_key@,
        }
    }
}

impl View for ErabSetupItem {
    type V = ErabSetupItemView;

    open spec fn view(&self) -> ErabSetupItemView {
        ErabSetupItemView {
            e_rab_id: self.e_rab_id,
            transport_layer_addr: self.transport_layer_addr@,
            gtp_teid: self.gtp_teid@,
        }
    }
}

pub open spec fn erabs_setup_view(s: Seq<ErabSetupItem>) -> Seq<ErabSetupItemView> {
    s.map_values(|x: ErabSetupItem| x@)
}

impl View for InitialContextSetupResponse {
    type V = InitialContextSetupResponseView;

    open spec fn view(&self) -> InitialContextSetupResponseView {
        InitialContextSetupResponseView {
            mme_ue_s1ap_id: self.mme_ue_s1ap_id,
            enb_ue_s1ap_id: self.enb_ue_s1ap_id,
            e_rabs_setup: erabs_setup_view(self.e_rabs_setup@),
            e_rabs_failed: self.e_rabs_failed@,
        }
    }
}

impl View for S1apMessage {
    type V = S1apMessageView;

    open spec fn view(&self) -> S1apMessageView {
        match *self {
            S1apMessage::S1SetupRequest => S1apMessageView::S1SetupRequest,
            S1apMessage::S1SetupResponse => S1apMessageView::S1SetupResponse,
            S1apMessage::InitialUeMessage(m) => S1apMessageView::InitialUeMessage(m@),
            S1apMessage::DownlinkNasTransport(m) => S1apMessageView::DownlinkNasTransport(m@),
            S1apMessage::UplinkNasTransport(m) => S1apMessageView::UplinkNasTransport(m@),
            S1apMessage::InitialContextSetupRequest(m) => S1apMessageView::InitialContextSetupRequest(m@),
            S1apMessage::InitialContextSetupResponse(m) => S1apMessageView::InitialContextSetupResponse(m@),
            S1apMessage::UeContextReleaseCommand { mme_ue_s1ap_id, enb_ue_s1ap_id, cause } =>
                S1apMessageView::UeContextReleaseCommand { mme_ue_s1ap_id, enb_ue_s1ap_id, cause },
            S1apMessage::UeContextReleaseComplete(m) => S1apMessageView::UeContextReleaseComplete {
                mme_ue_s1ap_id: m.mme_ue_s1ap_id,
                enb_ue_s1ap_id: m.enb_ue_s1ap_id,
            },
        }
    }
}

} // verus!
