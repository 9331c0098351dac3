//! A simulated UE, with the eNodeB that serves it.
//!
//! The UE attaches, has its EPS bearer set up, sends a packet through the user
//! plane, and detaches:
//!
//! ```text
//! → AttachRequest             ← AuthenticationRequest
//! → AuthenticationResponse    ← SecurityModeCommand
//! → SecurityModeComplete      ← InitialContextSetupRequest(AttachAccept)
//! → InitialContextSetupResponse, AttachComplete
//!   a packet up, and down again
//! → DetachRequest             ← DetachAccept, UeContextReleaseCommand
//! → UeContextReleaseComplete
//! ```

use bytes::Bytes;
use vstd::prelude::*;

use crate::ecs::zeros;
use crate::error::ProtoError;
use crate::hss::{amf_field, MILENAGE_AMF_FIELD};
use crate::kdf::derive_kasme;
use crate::milenage::{self, mask_sqn, MilenageContext};
use crate::mme::attach::{activated, SELECTED_EEA, SELECTED_EIA};
use crate::mme::laws::{sim_kasme, uplink};
use crate::mme::state_machine::{messages_view, security_header_type};
use crate::nas::codec::{
    attach_request_octets, auth_response_octets, bare_octets, decode_nas, decode_protected_downlink,
    detach_request_octets, encode_attach_complete, encode_attach_request, encode_auth_response, encode_detach_request,
    encode_sec_mode_complete, nas_pdu, opt_ip, NasPdu, NasPduView, MT_ATTACH_COMPLETE, MT_SECURITY_MODE_COMPLETE,
    SHT_PLAIN,
};
use crate::nas::ie::high_nibble;
use crate::nas::security::{NasSecurityContext, NAS_BEARER};
use crate::octets::{bytes_as_slice, octets_of, octets_to_u32, octets_u32, u32_octets, u32_to_octets};
use crate::s1ap::codec::decode_s1ap_pdu;
use crate::s1ap::messages::{
    DownlinkNasTransport, DownlinkNasTransportView, ErabSetupItem, ErabSetupItemView, InitialContextSetupRequest,
    InitialContextSetupRequestView, InitialContextSetupResponse, InitialContextSetupResponseView, InitialUeMessage,
    InitialUeMessageView, S1apCause, S1apMessage, S1apMessageView, UeContextReleaseComplete, UplinkNasTransport,
};
use crate::s1ap::wire;
use crate::transport::{LinkEvent, LinkEventView};

verus! {

/// The IMSI of the UE.
pub const TEST_IMSI: u64 = 901_700_000_002;

/// The serving network of the UE.
pub const TEST_PLMN: [u8; 3] = [0x00, 0x11, 0x22];

/// The tracking area of the UE.
pub const TEST_TAI: [u8; 5] = [0x00, 0x11, 0x22, 0x00, 0x01];

/// By which the eNodeB knows the UE.
pub const ENB_UE_S1AP_ID: u32 = 7;

/// The TEID that downlink packets are to carry.
pub const MOCK_DL_TEID: u32 = 0xAABB_CCDD;

/// Attach type: EPS attach.
pub const EPS_ATTACH: u8 = 1;

/// Detach type: EPS detach.
pub const EPS_DETACH: u8 = 1;

pub open spec fn test_plmn() -> Seq<u8> {
    seq![0x00u8, 0x11, 0x22]
}

pub open spec fn test_tai() -> Seq<u8> {
    seq![0x00u8, 0x11, 0x22, 0x00, 0x01]
}

/// A UE, between messages.
pub struct Ue {
    pub imsi: u64,
    /// The S1-U address of the eNodeB.
    pub my_ip: [u8; 4],
    pub sim: MilenageContext,
    /// By which the MME knows the UE, once it is known.
    pub mme_ue_s1ap_id: Option<u32>,
    /// Once it is derived.
    pub kasme: Option<[u8; 32]>,
}

#[verifier::ext_equal]
pub struct UeView {
    pub imsi: u64,
    pub my_ip: Seq<u8>,
    pub k: Seq<u8>,
    pub opc: Seq<u8>,
    pub mme_ue_s1ap_id: Option<u32>,
    pub kasme: Option<Seq<u8>>,
}

impl View for Ue {
    type V = UeView;

    open spec fn view(&self) -> UeView {
        UeView {
            imsi: self.imsi,
            my_ip: self.my_ip@,
            k: self.sim.k@,
            opc: self.sim.opc@,
            mme_ue_s1ap_id: self.mme_ue_s1ap_id,
            kasme: match self.kasme {
                Some(k) => Some(k@),
                None => None,
            },
        }
    }
}

/// Why a UE gives up.
#[derive(Debug, Clone)]
pub enum UeError {
    /// Octets that are no S1AP message.
    S1ap(ProtoError),
    Nas(ProtoError),
    /// A protected PDU before Kasme was derived.
    NoKasme,
    /// The MAC-I of a protected PDU does not verify.
    NotVerified,
    /// A protected PDU in a DownlinkNasTransport that is no DetachAccept.
    NotDetachAccept,
    /// A plain PDU that the UE does not expect.
    UnexpectedNas,
    /// An InitialContextSetupRequest without a NAS PDU.
    NoNasPdu,
    /// An InitialContextSetupRequest whose NAS PDU is no AttachAccept.
    NotAttachAccept,
    /// An InitialContextSetupRequest without an E-RAB.
    NoErab,
    /// A release before the MME's identifier of the UE was known.
    ReleaseTooEarly,
    /// An S1AP message that an MME does not send.
    UnexpectedS1ap,
    /// The link is gone.
    Lost { reason: String },
    /// The link has ended.
    Closed,
}

#[verifier::ext_equal]
pub enum UeErrorView {
    S1ap(ProtoError),
    Nas(ProtoError),
    NoKasme,
    NotVerified,
    NotDetachAccept,
    UnexpectedNas,
    NoNasPdu,
    NotAttachAccept,
    NoErab,
    ReleaseTooEarly,
    UnexpectedS1ap,
    Lost { reason: Seq<char> },
    Closed,
}

impl View for UeError {
    type V = UeErrorView;

    open spec fn view(&self) -> UeErrorView {
        match *self {
            UeError::S1ap(e) => UeErrorView::S1ap(e),
            UeError::Nas(e) => UeErrorView::Nas(e),
            UeError::NoKasme => UeErrorView::NoKasme,
            UeError::NotVerified => UeErrorView::NotVerified,
            UeError::NotDetachAccept => UeErrorView::NotDetachAccept,
            UeError::UnexpectedNas => UeErrorView::UnexpectedNas,
            UeError::NoNasPdu => UeErrorView::NoNasPdu,
            UeError::NotAttachAccept => UeErrorView::NotAttachAccept,
            UeError::NoErab => UeErrorView::NoErab,
            UeError::ReleaseTooEarly => UeErrorView::ReleaseTooEarly,
            UeError::UnexpectedS1ap => UeErrorView::UnexpectedS1ap,
            UeError::Lost { reason } => UeErrorView::Lost { reason: reason@ },
            UeError::Closed => UeErrorView::Closed,
        }
    }
}

/// What a UE made out in a message.
#[derive(Debug, Clone, Copy)]
pub enum Heard {
    AuthenticationRequest,
    SecurityModeCommand,
    AttachAccept {
        attach_result: u8,
        ip_address: Option<[u8; 4]>,
        erab_id: u8,
        qci: u8,
        ul_teid: u32,
        upf_addr: [u8; 4],
    },
    DetachAccept,
    ReleaseCommand { cause: S1apCause },
}

/// How a UE goes on, once its messages are sent.
#[derive(Debug)]
pub enum Next {
    /// It waits for the next message.
    Wait,
    /// It checks the user plane, and then sends one more message.
    RoundTrip { upf_addr: [u8; 4], ul_teid: u32, farewell: S1apMessage },
    /// It is detached.
    Done,
}

/// What follows a message.
#[derive(Debug)]
pub struct UeStep {
    pub heard: Heard,
    pub send: Vec<S1apMessage>,
    pub next: Next,
}

#[verifier::ext_equal]
pub enum HeardView {
    AuthenticationRequest,
    SecurityModeCommand,
    AttachAccept {
        attach_result: u8,
        ip_address: Option<Seq<u8>>,
        erab_id: u8,
        qci: u8,
        ul_teid: u32,
        upf_addr: Seq<u8>,
    },
    DetachAccept,
    ReleaseCommand { cause: S1apCause },
}

#[verifier::ext_equal]
pub enum NextView {
    Wait,
    RoundTrip { upf_addr: Seq<u8>, ul_teid: u32, farewell: S1apMessageView },
    Done,
}

#[verifier::ext_equal]
pub struct UeStepView {
    pub heard: HeardView,
    pub send: Seq<S1apMessageView>,
    pub next: NextView,
}

impl View for Heard {
    type V = HeardView;

    open spec fn view(&self) -> HeardView {
        match *self {
            Heard::AuthenticationRequest => HeardView::AuthenticationRequest,
            Heard::SecurityModeCommand => HeardView::SecurityModeCommand,
            Heard::AttachAccept { attach_result, ip_address, erab_id, qci, ul_teid, upf_addr } =>
                HeardView::AttachAccept {
                attach_result,
                ip_address: opt_ip(ip_address),
                erab_id,
                qci,
                ul_teid,
                upf_addr: upf_addr@,
            },
            Heard::DetachAccept => HeardView::DetachAccept,
            Heard::ReleaseCommand { cause } => HeardView::ReleaseCommand { cause },
        }
    }
}

impl View for Next {
    type V = NextView;

    open spec fn view(&self) -> NextView {
        match *self {
            Next::Wait => NextView::Wait,
            Next::RoundTrip { upf_addr, ul_teid, farewell } => NextView::RoundTrip {
                upf_addr: upf_addr@,
                ul_teid,
                farewell: farewell@,
            },
            Next::Done => NextView::Done,
        }
    }
}

impl View for UeStep {
    type V = UeStepView;

    open spec fn view(&self) -> UeStepView {
        UeStepView { heard: self.heard@, send: messages_view(self.send@), next: self.next@ }
    }
}

/// A result over views.
pub open spec fn result_view(r: Result<UeStep, UeError>) -> Result<UeStepView, UeErrorView> {
    match r {
        Ok(s) => Ok(s@),
        Err(e) => Err(e@),
    }
}

// ── Messages of the UE ────────────────────────────────────────────────────────

/// The UE's first message.
pub open spec fn first_message(ue: UeView) -> InitialUeMessageView {
    InitialUeMessageView {
        enb_ue_s1ap_id: ENB_UE_S1AP_ID,
        nas_pdu: attach_request_octets(ue.imsi, EPS_ATTACH, 0),
        tai: test_tai(),
        eutran_cgi: zeros(7),
        rrc_cause: 0,
    }
}

/// A NAS PDU of the UE.
pub open spec fn ue_uplink(id: u32, pdu: Seq<u8>) -> S1apMessageView {
    uplink(id, ENB_UE_S1AP_ID, pdu, test_tai(), zeros(7))
}

/// One NAS PDU in answer to a message.
pub open spec fn answer(id: u32, heard: HeardView, pdu: Seq<u8>) -> UeStepView {
    UeStepView { heard, send: seq![ue_uplink(id, pdu)], next: NextView::Wait }
}

/// The eNodeB's confirmation of an E-RAB.
pub open spec fn bearer_confirmation(ue: UeView, id: u32, enb_ue_s1ap_id: u32, erab_id: u8) -> S1apMessageView {
    S1apMessageView::InitialContextSetupResponse(
        InitialContextSetupResponseView {
            mme_ue_s1ap_id: id,
            enb_ue_s1ap_id,
            e_rabs_setup: seq![
                ErabSetupItemView {
                    e_rab_id: erab_id,
                    transport_layer_addr: ue.my_ip,
                    gtp_teid: u32_octets(MOCK_DL_TEID),
                },
            ],
            e_rabs_failed: Seq::empty(),
        },
    )
}

// ── What a message leads to ───────────────────────────────────────────────────

/// The UE once it knows how the MME calls it; the first name stays.
pub open spec fn learned(ue: UeView, id: u32) -> UeView {
    if ue.mme_ue_s1ap_id is Some {
        ue
    } else {
        UeView { mme_ue_s1ap_id: Some(id), ..ue }
    }
}

/// The plain PDU that a protected downlink PDU holds, for a UE that makes a
/// fresh security context of Kasme each time.
pub open spec fn opened_downlink(ue: UeView, pdu: Seq<u8>) -> Result<Seq<u8>, UeErrorView> {
    match ue.kasme {
        None => Err(UeErrorView::NoKasme),
        Some(kasme) => match activated(kasme).unsealed_downlink(pdu, NAS_BEARER).0 {
            None => Err(UeErrorView::NotVerified),
            Some(plain) => Ok(plain),
        },
    }
}

/// What a protected downlink PDU leads to.
pub open spec fn protected_step(ue: UeView, pdu: Seq<u8>) -> Result<UeStepView, UeErrorView> {
    match opened_downlink(ue, pdu) {
        Err(e) => Err(e),
        Ok(plain) => match nas_pdu(plain) {
            Err(e) => Err(UeErrorView::Nas(e)),
            Ok(NasPduView::DetachAccept) => Ok(
                UeStepView { heard: HeardView::DetachAccept, send: Seq::empty(), next: NextView::Wait },
            ),
            Ok(_) => Err(UeErrorView::NotDetachAccept),
        },
    }
}

/// What a plain downlink PDU leads to, for a UE that the MME calls `id`.
pub open spec fn plain_step(ue: UeView, id: u32, pdu: Seq<u8>) -> (UeView, Result<UeStepView, UeErrorView>) {
    match nas_pdu(pdu) {
        Err(e) => (ue, Err(UeErrorView::Nas(e))),
        Ok(NasPduView::AuthenticationRequest { rand, .. }) => (
            UeView { kasme: Some(sim_kasme(ue.k, ue.opc, test_plmn(), rand, zeros(6))), ..ue },
            Ok(
                answer(
                    id,
                    HeardView::AuthenticationRequest,
                    auth_response_octets(milenage::res(ue.k, ue.opc, rand)),
                ),
            ),
        ),
        Ok(NasPduView::SecurityModeCommand { .. }) => (
            ue,
            Ok(answer(id, HeardView::SecurityModeCommand, bare_octets(MT_SECURITY_MODE_COMPLETE))),
        ),
        Ok(_) => (ue, Err(UeErrorView::UnexpectedNas)),
    }
}

pub open spec fn downlink_step(ue: UeView, m: DownlinkNasTransportView) -> (UeView, Result<UeStepView, UeErrorView>) {
    let known = learned(ue, m.mme_ue_s1ap_id);
    if security_header_type(m.nas_pdu) != SHT_PLAIN {
        (known, protected_step(known, m.nas_pdu))
    } else {
        plain_step(known, known.mme_ue_s1ap_id->0, m.nas_pdu)
    }
}

/// What an InitialContextSetupRequest leads to: the bearer is confirmed, the
/// attach completed, and the user plane checked.
pub open spec fn setup_step(ue: UeView, m: InitialContextSetupRequestView) -> Result<UeStepView, UeErrorView> {
    let id = ue.mme_ue_s1ap_id->0;
    if ue.kasme is None {
        Err(UeErrorView::NoKasme)
    } else {
        match m.nas_pdu {
            None => Err(UeErrorView::NoNasPdu),
            Some(pdu) => match opened_downlink(ue, pdu) {
                Err(e) => Err(e),
                Ok(plain) => match nas_pdu(plain) {
                    Err(e) => Err(UeErrorView::Nas(e)),
                    Ok(NasPduView::AttachAccept { attach_result, optional, .. }) => if m.e_rabs.len() == 0 {
                        Err(UeErrorView::NoErab)
                    } else {
                        let erab = m.e_rabs[0];
                        let ul_teid = octets_u32(erab.gtp_teid);
                        let upf_addr = erab.transport_layer_addr;
                        Ok(
                            UeStepView {
                                heard: HeardView::AttachAccept {
                                    attach_result,
                                    ip_address: optional.ip_address,
                                    erab_id: erab.erab_id,
                                    qci: erab.qci,
                                    ul_teid,
                                    upf_addr,
                                },
                                send: seq![
                                    bearer_confirmation(ue, id, m.enb_ue_s1ap_id, erab.erab_id),
                                    ue_uplink(id, bare_octets(MT_ATTACH_COMPLETE)),
                                ],
                                next: NextView::RoundTrip {
                                    upf_addr,
                                    ul_teid,
                                    farewell: ue_uplink(id, detach_request_octets(EPS_DETACH, false, 0, zeros(10))),
                                },
                            },
                        )
                    },
                    Ok(_) => Err(UeErrorView::NotAttachAccept),
                },
            },
        }
    }
}

/// What a UeContextReleaseCommand leads to.
pub open spec fn release_step(ue: UeView, cause: S1apCause) -> Result<UeStepView, UeErrorView> {
    match ue.mme_ue_s1ap_id {
        None => Err(UeErrorView::ReleaseTooEarly),
        Some(id) => Ok(
            UeStepView {
                heard: HeardView::ReleaseCommand { cause },
                send: seq![
                    S1apMessageView::UeContextReleaseComplete { mme_ue_s1ap_id: id, enb_ue_s1ap_id: ENB_UE_S1AP_ID },
                ],
                next: NextView::Done,
            },
        ),
    }
}

/// What an S1AP message leads to.
#[verifier::opaque]
pub open spec fn ue_step(ue: UeView, msg: S1apMessageView) -> (UeView, Result<UeStepView, UeErrorView>) {
    match msg {
        S1apMessageView::DownlinkNasTransport(m) => downlink_step(ue, m),
        S1apMessageView::InitialContextSetupRequest(m) => {
            let known = learned(ue, m.mme_ue_s1ap_id);
            (known, setup_step(known, m))
        },
        S1apMessageView::UeContextReleaseCommand { cause, .. } => (ue, release_step(ue, cause)),
        _ => (ue, Err(UeErrorView::UnexpectedS1ap)),
    }
}

impl Ue {
    /// A UE that has sent nothing yet.
    pub fn new(imsi: u64, my_ip: [u8; 4], sim: MilenageContext) -> (ue: Self)
        ensures
            ue@ == (UeView { imsi, my_ip: my_ip@, k: sim.k@, opc: sim.opc@, mme_ue_s1ap_id: None, kasme: None }),
    {
        Ue { imsi, my_ip, sim, mme_ue_s1ap_id: None, kasme: None }
    }

    /// The UE's first message.
    pub fn start(&self) -> (m: S1apMessage)
        ensures
            m@ == S1apMessageView::InitialUeMessage(first_message(self@)),
    {
        let tai: [u8; 5] = TEST_TAI;
        let eutran_cgi: [u8; 7] = [0; 7];
        assert(tai@ =~= test_tai());
        assert(eutran_cgi@ =~= zeros(7));
        S1apMessage::InitialUeMessage(
            InitialUeMessage {
                enb_ue_s1ap_id: ENB_UE_S1AP_ID,
                nas_pdu: encode_attach_request(self.imsi, EPS_ATTACH, 0),
                tai,
                eutran_cgi,
                rrc_cause: 0,
            },
        )
    }

    fn uplink(mme_ue_s1ap_id: u32, nas_pdu: Bytes) -> (m: S1apMessage)
        ensures
            m@ == ue_uplink(mme_ue_s1ap_id, octets_of(nas_pdu)),
    {
        let tai: [u8; 5] = TEST_TAI;
        let eutran_cgi: [u8; 7] = [0; 7];
        assert(tai@ =~= test_tai());
        assert(eutran_cgi@ =~= zeros(7));
        S1apMessage::UplinkNasTransport(
            UplinkNasTransport { mme_ue_s1ap_id, enb_ue_s1ap_id: ENB_UE_S1AP_ID, nas_pdu, tai, eutran_cgi },
        )
    }

    fn answer(mme_ue_s1ap_id: u32, heard: Heard, nas_pdu: Bytes) -> (s: UeStep)
        ensures
            s@ == answer(mme_ue_s1ap_id, heard@, octets_of(nas_pdu)),
    {
        let m = Self::uplink(mme_ue_s1ap_id, nas_pdu);
        let s = UeStep { heard, send: vec![m], next: Next::Wait };
        assert(messages_view(s.send@) =~= seq![m@]);
        s
    }

    /// How the MME calls the UE: by the first identifier that it used.
    fn learn(&mut self, id: u32) -> (known: u32)
        ensures
            final(self)@ == learned(old(self)@, id),
            final(self)@.mme_ue_s1ap_id == Some(known),
    {
        match self.mme_ue_s1ap_id {
            Some(known) => known,
            None => {
                self.mme_ue_s1ap_id = Some(id);
                id
            },
        }
    }

    fn open_downlink(&self, pdu: &[u8]) -> (r: Result<Vec<u8>, UeError>)
        ensures
            match opened_downlink(self@, pdu@) {
                Ok(plain) => r is Ok && r->Ok_0@ == plain,
                Err(e) => r is Err && r->Err_0@ == e,
            },
    {
        match self.kasme {
            None => Err(UeError::NoKasme),
            Some(kasme) => {
                let mut ctx = NasSecurityContext::new(&kasme, SELECTED_EEA, SELECTED_EIA);
                assert(ctx@ =~= activated(kasme@));
                match decode_protected_downlink(&mut ctx, pdu, NAS_BEARER) {
                    None => Err(UeError::NotVerified),
                    Some(plain) => Ok(plain),
                }
            },
        }
    }

    fn on_protected(&self, pdu: &[u8]) -> (r: Result<UeStep, UeError>)
        ensures
            result_view(r) == protected_step(self@, pdu@),
    {
        let plain = match self.open_downlink(pdu) {
            Ok(plain) => plain,
            Err(e) => return Err(e),
        };
        match decode_nas(plain.as_slice()) {
            Err(e) => Err(UeError::Nas(e)),
            Ok(NasPdu::DetachAccept) => {
                let send: Vec<S1apMessage> = Vec::new();
                assert(messages_view(send@) =~= Seq::<S1apMessageView>::empty());
                Ok(UeStep { heard: Heard::DetachAccept, send, next: Next::Wait })
            },
            Ok(_) => Err(UeError::NotDetachAccept),
        }
    }

    fn on_plain(&mut self, id: u32, pdu: &[u8]) -> (r: Result<UeStep, UeError>)
        ensures
            final(self)@ == plain_step(old(self)@, id, pdu@).0,
            result_view(r) == plain_step(old(self)@, id, pdu@).1,
    {
        match decode_nas(pdu) {
            Err(e) => Err(UeError::Nas(e)),
            Ok(NasPdu::AuthenticationRequest(req)) => {
                let sqn_used: [u8; 6] = [0; 6];
                let amf: [u8; 2] = MILENAGE_AMF_FIELD;
                assert(sqn_used@ =~= zeros(6));
                assert(amf@ =~= amf_field());
                let vector = self.sim.generate_vector_with_rand(&sqn_used, &amf, &req.rand);
                let plmn: [u8; 3] = TEST_PLMN;
                assert(plmn@ =~= test_plmn());
                let sqn_xor_ak = mask_sqn(&sqn_used, &vector.ak);
                self.kasme = Some(derive_kasme(&vector.ck, &vector.ik, &plmn, &sqn_xor_ak));
                Ok(Self::answer(id, Heard::AuthenticationRequest, encode_auth_response(&vector.res)))
            },
            Ok(NasPdu::SecurityModeCommand(_)) => Ok(
                Self::answer(id, Heard::SecurityModeCommand, encode_sec_mode_complete()),
            ),
            Ok(_) => Err(UeError::UnexpectedNas),
        }
    }

    fn on_downlink(&mut self, m: DownlinkNasTransport) -> (r: Result<UeStep, UeError>)
        ensures
            final(self)@ == downlink_step(old(self)@, m@).0,
            result_view(r) == downlink_step(old(self)@, m@).1,
    {
        let id = self.learn(m.mme_ue_s1ap_id);
        let pdu = bytes_as_slice(&m.nas_pdu);
        let sht = if pdu.len() > 0 {
            high_nibble(pdu[0])
        } else {
            SHT_PLAIN
        };
        if sht != SHT_PLAIN {
            self.on_protected(pdu)
        } else {
            self.on_plain(id, pdu)
        }
    }

    fn on_setup(&self, id: u32, m: InitialContextSetupRequest) -> (r: Result<UeStep, UeError>)
        requires
            self@.mme_ue_s1ap_id == Some(id),
        ensures
            result_view(r) == setup_step(self@, m@),
    {
        if self.kasme.is_none() {
            return Err(UeError::NoKasme);
        }
        let pdu = match &m.nas_pdu {
            Some(b) => bytes_as_slice(b),
            None => return Err(UeError::NoNasPdu),
        };
        let plain = match self.open_downlink(pdu) {
            Ok(plain) => plain,
            Err(e) => return Err(e),
        };
        let (attach_result, ip_address) = match decode_nas(plain.as_slice()) {
            Err(e) => return Err(UeError::Nas(e)),
            Ok(NasPdu::AttachAccept(acc)) => (acc.attach_result, acc.ip_address),
            Ok(_) => return Err(UeError::NotAttachAccept),
        };
        if m.e_rabs.len() == 0 {
            return Err(UeError::NoErab);
        }
        let erab = &m.e_rabs[0];
        assert(m@.e_rabs[0] == erab@);
        let ul_teid = octets_to_u32(&erab.gtp_teid);
        let upf_addr = erab.transport_layer_addr;
        let confirmed = ErabSetupItem {
            e_rab_id: erab.erab_id,
            transport_layer_addr: self.my_ip,
            gtp_teid: u32_to_octets(MOCK_DL_TEID),
        };
        let response = S1apMessage::InitialContextSetupResponse(
            InitialContextSetupResponse {
                mme_ue_s1ap_id: id,
                enb_ue_s1ap_id: m.enb_ue_s1ap_id,
                e_rabs_setup: vec![confirmed],
                e_rabs_failed: Vec::new(),
            },
        );
        assert(response@ =~= bearer_confirmation(self@, id, m.enb_ue_s1ap_id, erab.erab_id));
        let guti: [u8; 10] = [0; 10];
        assert(guti@ =~= zeros(10));
        let complete = Self::uplink(id, encode_attach_complete());
        let farewell = Self::uplink(id, encode_detach_request(EPS_DETACH, false, 0, &guti));
        let heard = Heard::AttachAccept {
            attach_result,
            ip_address,
            erab_id: erab.erab_id,
            qci: erab.qci,
            ul_teid,
            upf_addr,
        };
        let step = UeStep {
            heard,
            send: vec![response, complete],
            next: Next::RoundTrip { upf_addr, ul_teid, farewell },
        };
        assert(messages_view(step.send@) =~= seq![response@, complete@]);
        Ok(step)
    }

    fn on_release(&self, cause: S1apCause) -> (r: Result<UeStep, UeError>)
        ensures
            result_view(r) == release_step(self@, cause),
    {
        match self.mme_ue_s1ap_id {
            None => Err(UeError::ReleaseTooEarly),
            Some(id) => {
                let complete = S1apMessage::UeContextReleaseComplete(
                    UeContextReleaseComplete { mme_ue_s1ap_id: id, enb_ue_s1ap_id: ENB_UE_S1AP_ID },
                );
                let step = UeStep { heard: Heard::ReleaseCommand { cause }, send: vec![complete], next: Next::Done };
                assert(messages_view(step.send@) =~= seq![complete@]);
                Ok(step)
            },
        }
    }

    /// Processes a message of the MME.
    pub fn on_message(&mut self, msg: S1apMessage) -> (r: Result<UeStep, UeError>)
        ensures
            final(self)@ == ue_step(old(self)@, msg@).0,
            result_view(r) == ue_step(old(self)@, msg@).1,
    {
        proof {
            reveal(ue_step);
        }
        match msg {
            S1apMessage::DownlinkNasTransport(m) => self.on_downlink(m),
            S1apMessage::InitialContextSetupRequest(m) => {
                let id = self.learn(m.mme_ue_s1ap_id);
                self.on_setup(id, m)
            },
            S1apMessage::UeContextReleaseCommand { cause, .. } => self.on_release(cause),
            _ => Err(UeError::UnexpectedS1ap),
        }
    }

    /// Processes a link event; `None` is the end of the link. That the link is
    /// up is known already.
    pub fn on_link_event(&mut self, event: Option<LinkEvent>) -> (r: Result<Option<UeStep>, UeError>)
        ensures
            match opt_event(event) {
                None => final(self)@ == old(self)@ && r matches Err(UeError::Closed),
                Some(LinkEventView::Connected) => final(self)@ == old(self)@ && r matches Ok(None),
                Some(LinkEventView::Lost { reason }) => final(self)@ == old(self)@ && r is Err && r->Err_0@
                    == UeErrorView::Lost { reason },
                Some(LinkEventView::Message(b)) => match wire::message(b) {
                    Err(e) => final(self)@ == old(self)@ && r is Err && r->Err_0@ == UeErrorView::S1ap(e),
                    Ok(msg) => final(self)@ == ue_step(old(self)@, msg).0 && match ue_step(old(self)@, msg).1 {
                        Ok(step) => r is Ok && r->Ok_0 is Some && (r->Ok_0)->0@ == step,
                        Err(e) => r is Err && r->Err_0@ == e,
                    },
                },
            },
    {
        match event {
            None => Err(UeError::Closed),
            Some(LinkEvent::Connected) => Ok(None),
            Some(LinkEvent::Lost { reason }) => Err(UeError::Lost { reason }),
            Some(LinkEvent::Message(b)) => match decode_s1ap_pdu(bytes_as_slice(&b)) {
                Err(e) => Err(UeError::S1ap(e)),
                Ok(msg) => match self.on_message(msg) {
                    Ok(step) => Ok(Some(step)),
                    Err(e) => Err(e),
                },
            },
        }
    }
}

/// The view of an optional link event.
pub open spec fn opt_event(e: Option<LinkEvent>) -> Option<LinkEventView> {
    match e {
        Some(e) => Some(e@),
        None => None,
    }
}

} // verus!
