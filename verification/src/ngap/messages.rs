//! NGAP messages (3GPP TS 38.413), as the AMF exchanges them with a gNodeB.
//!
//! Each message has a view with the same fields over mathematical sequences;
//! the codec contracts are stated over those views.

use bytes::Bytes;
use vstd::prelude::*;

use crate::octets::{octets_of, opt_octets_of};

verus! {

/// An NGAP message.
#[derive(Debug, Clone)]
pub enum NgapMessage {
    /// gNodeB → AMF: register the gNodeB on startup.
    NgSetupRequest,
    /// AMF → gNodeB: accept the registration.
    NgSetupResponse,
    /// gNodeB → AMF: the first NAS message of a new UE.
    InitialUeMessage(NgapInitialUeMessage),
    /// AMF → gNodeB: a NAS PDU for the UE.
    DownlinkNasTransport(NgapDownlinkNasTransport),
    /// gNodeB → AMF: a NAS PDU from the UE.
    UplinkNasTransport(NgapUplinkNasTransport),
    /// AMF → gNodeB: establish the UE security context, with PDU sessions and
    /// a NAS PDU on board as needed.
    InitialContextSetupRequest(NgapInitialContextSetupRequest),
    /// gNodeB → AMF: the context is established.
    InitialContextSetupResponse(NgapInitialContextSetupResponse),
    /// gNodeB → AMF: the context could not be established.
    InitialContextSetupFailure { cause: NgapCause },
    /// AMF → gNodeB: establish a PDU session resource.
    PduSessionResourceSetupRequest,
    /// gNodeB → AMF: the PDU session resource is established.
    PduSessionResourceSetupResponse,
    /// gNodeB → AMF: the PDU session resource could not be established.
    PduSessionResourceSetupFailure,
    /// AMF → gNodeB: release the UE context.
    UeContextReleaseCommand { amf_ue_ngap_id: u32, ran_ue_ngap_id: u32, cause: NgapCause },
    /// gNodeB → AMF: the UE context is released.
    UeContextReleaseComplete(NgapUeContextReleaseComplete),
}

#[derive(Debug, Clone)]
pub struct NgapInitialUeMessage {
    pub ran_ue_ngap_id: u32,
    pub nas_pdu: Bytes,
    /// PLMN (3 octets) and 5GS tracking area code (3 octets).
    pub tai: [u8; 6],
    pub nr_cgi: [u8; 9],
    pub rrc_establishment_cause: u8,
}

#[derive(Debug, Clone)]
pub struct NgapDownlinkNasTransport {
    pub amf_ue_ngap_id: u32,
    pub ran_ue_ngap_id: u32,
    pub nas_pdu: Bytes,
}

#[derive(Debug, Clone)]
pub struct NgapUplinkNasTransport {
    pub amf_ue_ngap_id: u32,
    pub ran_ue_ngap_id: u32,
    pub nas_pdu: Bytes,
    pub tai: [u8; 6],
    pub nr_cgi: [u8; 9],
}

#[derive(Debug)]
pub struct NgapInitialContextSetupRequest {
    pub amf_ue_ngap_id: u32,
    pub ran_ue_ngap_id: u32,
    /// PDU sessions to establish along with the security context.
    pub pdu_sessions: Vec<PduSessionToSetup>,
    /// A NAS PDU for the UE (RegistrationAccept).
    pub nas_pdu: Option<Bytes>,
    /// Aggregate maximum bit rate, downlink and uplink, in bits per second.
    pub ue_ambr: (u64, u64),
    /// Access stratum security anchor key.
    pub security_key: [u8; 32],
}

impl Clone for NgapInitialContextSetupRequest {
    fn clone(&self) -> (r: Self)
        ensures
            r@ == self@,
    {
        let r = NgapInitialContextSetupRequest {
            amf_ue_ngap_id: self.amf_ue_ngap_id,
            ran_ue_ngap_id: self.ran_ue_ngap_id,
            pdu_sessions: self.pdu_sessions.clone(),
            nas_pdu: match &self.nas_pdu {
                Some(b) => Some(b.clone()),
                None => None,
            },
            ue_ambr: self.ue_ambr,
            security_key: self.security_key,
        };
        assert(r.pdu_sessions@ =~= self.pdu_sessions@);
        r
    }
}

#[derive(Debug, Clone, Copy)]
pub struct PduSessionToSetup {
    pub pdu_session_id: u8,
    /// QoS flow identifier.
    pub qfi: u8,
    /// Uplink TEID of the UPF, big-endian.
    pub gtp_teid: [u8; 4],
    /// N3 IPv4 address of the UPF.
    pub transport_layer_addr: [u8; 4],
}

#[derive(Debug, Clone)]
pub struct NgapInitialContextSetupResponse {
    pub amf_ue_ngap_id: u32,
    pub ran_ue_ngap_id: u32,
    /// PDU sessions that were established.
    pub pdu_sessions_setup: Vec<PduSessionSetupItem>,
    /// Identifiers of the PDU sessions that were not.
    pub pdu_sessions_failed: Vec<u8>,
}

#[derive(Debug, Clone, Copy)]
pub struct PduSessionSetupItem {
    pub pdu_session_id: u8,
    /// N3 IPv4 address of the gNodeB.
    pub transport_layer_addr: [u8; 4],
    /// Downlink TEID that the gNodeB assigned, big-endian.
    pub gtp_teid: [u8; 4],
}

#[derive(Debug, Clone)]
pub struct NgapUeContextReleaseComplete {
    pub amf_ue_ngap_id: u32,
    pub ran_ue_ngap_id: u32,
}

/// NGAP cause, flattened.
#[derive(Debug, Clone, Copy, PartialEq, Eq, Structural)]
pub enum NgapCause {
    RadioNetworkUnspecified,
    TransportUnspecified,
    NasNormalRelease,
    NasDeregister,
    NasAuthFailure,
    ProtocolUnspecified,
    MiscUnspecified,
}

// ── Views ─────────────────────────────────────────────────────────────────────

#[verifier::ext_equal]
pub struct InitialUeMessageView {
    pub ran_ue_ngap_id: u32,
    pub nas_pdu: Seq<u8>,
    pub tai: Seq<u8>,
    pub nr_cgi: Seq<u8>,
    pub rrc_establishment_cause: u8,
}

#[verifier::ext_equal]
pub struct DownlinkNasTransportView {
    pub amf_ue_ngap_id: u32,
    pub ran_ue_ngap_id: u32,
    pub nas_pdu: Seq<u8>,
}

#[verifier::ext_equal]
pub struct UplinkNasTransportView {
    pub amf_ue_ngap_id: u32,
    pub ran_ue_ngap_id: u32,
    pub nas_pdu: Seq<u8>,
    pub tai: Seq<u8>,
    pub nr_cgi: Seq<u8>,
}

#[verifier::ext_equal]
pub struct PduSessionToSetupView {
    pub pdu_session_id: u8,
    pub qfi: u8,
    pub gtp_teid: Seq<u8>,
    pub transport_layer_addr: Seq<u8>,
}

#[verifier::ext_equal]
pub struct InitialContextSetupRequestView {
    pub amf_ue_ngap_id: u32,
    pub ran_ue_ngap_id: u32,
    pub pdu_sessions: Seq<PduSessionToSetupView>,
    pub nas_pdu: Option<Seq<u8>>,
    pub ue_ambr: (u64, u64),
    pub security_key: Seq<u8>,
}

#[verifier::ext_equal]
pub struct PduSessionSetupItemView {
    pub pdu_session_id: u8,
    pub transport_layer_addr: Seq<u8>,
    pub gtp_teid: Seq<u8>,
}

#[verifier::ext_equal]
pub struct InitialContextSetupResponseView {
    pub amf_ue_ngap_id: u32,
    pub ran_ue_ngap_id: u32,
    pub pdu_sessions_setup: Seq<PduSessionSetupItemView>,
    pub pdu_sessions_failed: Seq<u8>,
}

#[verifier::ext_equal]
pub struct UeContextReleaseCompleteView {
    pub amf_ue_ngap_id: u32,
    pub ran_ue_ngap_id: u32,
}

#[verifier::ext_equal]
pub enum NgapMessageView {
    NgSetupRequest,
    NgSetupResponse,
    InitialUeMessage(InitialUeMessageView),
    DownlinkNasTransport(DownlinkNasTransportView),
    UplinkNasTransport(UplinkNasTransportView),
    InitialContextSetupRequest(InitialContextSetupRequestView),
    InitialContextSetupResponse(InitialContextSetupResponseView),
    InitialContextSetupFailure { cause: NgapCause },
    PduSessionResourceSetupRequest,
    PduSessionResourceSetupResponse,
    PduSessionResourceSetupFailure,
    UeContextReleaseCommand { amf_ue_ngap_id: u32, ran_ue_ngap_id: u32, cause: NgapCause },
    UeContextReleaseComplete(UeContextReleaseCompleteView),
}

impl View for NgapInitialUeMessage {
    type V = InitialUeMessageView;

    open spec fn view(&self) -> InitialUeMessageView {
        InitialUeMessageView {
            ran_ue_ngap_id: self.ran_ue_ngap_id,
            nas_pdu: octets_of(self.nas_pdu),
            tai: self.tai@,
            nr_cgi: self.nr_cgi@,
            rrc_establishment_cause: self.rrc_establishment_cause,
        }
    }
}

impl View for NgapDownlinkNasTransport {
    type V = DownlinkNasTransportView;

    open spec fn view(&self) -> DownlinkNasTransportView {
        DownlinkNasTransportView {
            amf_ue_ngap_id: self.amf_ue_ngap_id,
            ran_ue_ngap_id: self.ran_ue_ngap_id,
            nas_pdu: octets_of(self.nas_pdu),
        }
    }
}

impl View for NgapUplinkNasTransport {
    type V = UplinkNasTransportView;

    open spec fn view(&self) -> UplinkNasTransportView {
        UplinkNasTransportView {
            amf_ue_ngap_id: self.amf_ue_ngap_id,
            ran_ue_ngap_id: self.ran_ue_ngap_id,
            nas_pdu: octets_of(self.nas_pdu),
            tai: self.tai@,
            nr_cgi: self.nr_cgi@,
        }
    }
}

impl View for PduSessionToSetup {
    type V = PduSessionToSetupView;

    open spec fn view(&self) -> PduSessionToSetupView {
        PduSessionToSetupView {
            pdu_session_id: self.pdu_session_id,
            qfi: self.qfi,
            gtp_teid: self.gtp_teid@,
            transport_layer_addr: self.transport_layer_addr@,
        }
    }
}

pub open spec fn sessions_to_setup_view(s: Seq<PduSessionToSetup>) -> Seq<PduSessionToSetupView> {
    s.map_values(|x: PduSessionToSetup| x@)
}

impl View for NgapInitialContextSetupRequest {
    type V = InitialContextSetupRequestView;

    open spec fn view(&self) -> InitialContextSetupRequestView {
        InitialContextSetupRequestView {
            amf_ue_ngap_id: self.amf_ue_ngap_id,
            ran_ue_ngap_id: self.ran_ue_ngap_id,
            pdu_sessions: sessions_to_setup_view(self.pdu_sessions@),
            nas_pdu: opt_octets_of(self.nas_pdu),
            ue_ambr: self.ue_ambr,
            security_key: self.security_key@,
        }
    }
}

impl View for PduSessionSetupItem {
    type V = PduSessionSetupItemView;

    open spec fn view(&self) -> PduSessionSetupItemView {
        PduSessionSetupItemView {
            pdu_session_id: self.pdu_session_id,
            transport_layer_addr: self.transport_layer_addr@,
            gtp_teid: self.gtp_teid@,
        }
    }
}

pub open spec fn sessions_setup_view(s: Seq<PduSessionSetupItem>) -> Seq<PduSessionSetupItemView> {
    s.map_values(|x: PduSessionSetupItem| x@)
}

impl View for NgapInitialContextSetupResponse {
    type V = InitialContextSetupResponseView;

    open spec fn view(&self) -> InitialContextSetupResponseView {
        InitialContextSetupResponseView {
            amf_ue_ngap_id: self.amf_ue_ngap_id,
            ran_ue_ngap_id: self.ran_ue_ngap_id,
            pdu_sessions_setup: sessions_setup_view(self.pdu_sessions_setup@),
            pdu_sessions_failed: self.pdu_sessions_failed@,
        }
    }
}

impl View for NgapUeContextReleaseComplete {
    type V = UeContextReleaseCompleteView;

    open spec fn view(&self) -> UeContextReleaseCompleteView {
        UeContextReleaseCompleteView { amf_ue_ngap_id: self.amf_ue_ngap_id, ran_ue_ngap_id: self.ran_ue_ngap_id }
    }
}

impl View for NgapMessage {
    type V = NgapMessageView;

    open spec fn view(&self) -> NgapMessageView {
        match *self {
            NgapMessage::NgSetupRequest => NgapMessageView::NgSetupRequest,
            NgapMessage::NgSetupResponse => NgapMessageView::NgSetupResponse,
            NgapMessage::InitialUeMessage(m) => NgapMessageView::InitialUeMessage(m@),
            NgapMessage::DownlinkNasTransport(m) => NgapMessageView::DownlinkNasTransport(m@),
            NgapMessage::UplinkNasTransport(m) => NgapMessageView::UplinkNasTransport(m@),
            NgapMessage::InitialContextSetupRequest(m) => NgapMessageView::InitialContextSetupRequest(m@),
            NgapMessage::InitialContextSetupResponse(m) => NgapMessageView::InitialContextSetupResponse(m@),
            NgapMessage::InitialContextSetupFailure { cause } => NgapMessageView::InitialContextSetupFailure { cause },
            NgapMessage::PduSessionResourceSetupRequest => NgapMessageView::PduSessionResourceSetupRequest,
            NgapMessage::PduSessionResourceSetupResponse => NgapMessageView::PduSessionResourceSetupResponse,
            NgapMessage::PduSessionResourceSetupFailure => NgapMessageView::PduSessionResourceSetupFailure,
            NgapMessage::UeContextReleaseCommand { amf_ue_ngap_id, ran_ue_ngap_id, cause } =>
                NgapMessageView::UeContextReleaseCommand { amf_ue_ngap_id, ran_ue_ngap_id, cause },
            NgapMessage::UeContextReleaseComplete(m) => NgapMessageView::UeContextReleaseComplete(m@),
        }
    }
}

} // verus!
