//! A simulated UE, with the part of the gNodeB that concerns it.
//!
//! The UE registers, has its PDU session set up, sends a packet through the
//! user plane, and deregisters:
//!
//! ```text
//! → RegistrationRequest       ← IdentityRequest
//! → IdentityResponse          ← AuthenticationRequest
//! → AuthenticationResponse    ← SecurityModeCommand
//! → SecurityModeComplete      ← InitialContextSetupRequest(RegistrationAccept)
//! → InitialContextSetupResponse, RegistrationComplete
//!   a packet up, and down again
//! → DeregistrationRequest     ← DeregistrationAccept, UeContextReleaseCommand
//! → UeContextReleaseComplete
//! ```

use bytes::Bytes;
use vstd::prelude::*;

use crate::amf::laws::{sim_kamf, sim_res_star, uplink};
use crate::amf::registration::{activated, derive_key_chain, imsi_suci, suci_for_imsi};
use crate::amf::state_machine::{messages_view, security_header_type};
use crate::ecs::{zeros, Nas5gsAkaContext};
use crate::error::ProtoError;
use crate::hss::{amf_field, MILENAGE_AMF_FIELD};
use crate::kdf::{derive_res_star, serving_network_name};
use crate::milenage::MilenageContext;
use crate::nas::ie::low_nibble;
use crate::nas5gs::codec::{
    auth_response_octets, decode_nas5gs, decode_protected_downlink, deregistration_request_octets,
    encode_auth_response, encode_deregistration_request, encode_identity_response_suci, encode_registration_complete,
    encode_registration_request, encode_sec_mode_complete, header, identity_response_octets, nas5gs_pdu,
    registration_request_octets, unsealed_downlink, Nas5gsPdu, Nas5gsPduView, MT5G_REGISTRATION_COMPLETE,
    MT5G_SECURITY_MODE_COMPLETE, NAS5GS_SHT_PLAIN,
};
use crate::nas5gs::security::Nas5gsSecurityContext;
use crate::ngap::messages::{
    DownlinkNasTransportView, InitialContextSetupRequestView, InitialContextSetupResponseView, InitialUeMessageView,
    NgapCause, NgapDownlinkNasTransport, NgapInitialContextSetupRequest, NgapInitialContextSetupResponse,
    NgapInitialUeMessage, NgapMessage, NgapMessageView, NgapUeContextReleaseComplete, NgapUplinkNasTransport,
    PduSessionSetupItem, PduSessionSetupItemView, UeContextReleaseCompleteView,
};
use crate::octets::{bytes_as_slice, octets_of, octets_to_u32, octets_u32, u32_octets, u32_to_octets};

verus! {

/// The serving network of every UE.
pub const TEST_PLMN: [u8; 3] = [0x00, 0x11, 0x22];

/// The tracking area of every UE.
pub const TEST_TAI: [u8; 6] = [0x00, 0x11, 0x22, 0x00, 0x00, 0x01];

/// Registration type: initial.
pub const INITIAL_REGISTRATION: u8 = 1;

/// The UE security capability that is sent.
pub const UE_SECURITY_CAP: u16 = 0x00C0;

pub open spec fn test_plmn() -> Seq<u8> {
    seq![0x00u8, 0x11, 0x22]
}

pub open spec fn test_tai() -> Seq<u8> {
    seq![0x00u8, 0x11, 0x22, 0x00, 0x00, 0x01]
}

/// A UE, between messages.
pub struct Ue {
    /// By which the gNodeB knows the UE.
    pub ran_ue_ngap_id: u32,
    /// The TEID that downlink packets are to carry.
    pub dl_teid: u32,
    pub imsi: u64,
    /// The N3 address of the gNodeB.
    pub my_ip: [u8; 4],
    pub sim: MilenageContext,
    /// By which the AMF knows the UE, once it is known.
    pub amf_ue_ngap_id: Option<u32>,
    /// Once it is derived.
    pub kamf: Option<[u8; 32]>,
}

#[verifier::ext_equal]
pub struct UeView {
    pub ran_ue_ngap_id: u32,
    pub dl_teid: u32,
    pub imsi: u64,
    pub my_ip: Seq<u8>,
    pub k: Seq<u8>,
    pub opc: Seq<u8>,
    pub amf_ue_ngap_id: Option<u32>,
    pub kamf: Option<Seq<u8>>,
}

impl View for Ue {
    type V = UeView;

    open spec fn view(&self) -> UeView {
        UeView {
            ran_ue_ngap_id: self.ran_ue_ngap_id,
            dl_teid: self.dl_teid,
            imsi: self.imsi,
            my_ip: self.my_ip@,
            k: self.sim.k@,
            opc: self.sim.opc@,
            amf_ue_ngap_id: self.amf_ue_ngap_id,
            kamf: match self.kamf {
                Some(k) => Some(k@),
                None => None,
            },
        }
    }
}

/// Why a UE gives up.
#[derive(Debug, Clone, Copy)]
pub enum UeError {
    /// A message for another UE.
    WrongUe { got: u32, expected: u32 },
    Nas(ProtoError),
    /// A protected PDU before KAMF was derived.
    NoKamf,
    /// The MAC-I of a protected PDU does not verify.
    NotVerified,
    /// A protected PDU in a DownlinkNasTransport that is no
    /// DeregistrationAccept.
    NotDeregistrationAccept,
    /// A plain PDU that the UE does not expect.
    UnexpectedNas,
    /// An InitialContextSetupRequest without a NAS PDU.
    NoNasPdu,
    /// An InitialContextSetupRequest whose NAS PDU is no RegistrationAccept.
    NotRegistrationAccept,
    /// An InitialContextSetupRequest without a PDU session.
    NoPduSession,
    /// An NGAP message that an AMF does not send.
    UnexpectedNgap,
}

/// What a UE made out in a message.
#[derive(Debug, Clone, Copy)]
pub enum Heard {
    IdentityRequest,
    AuthenticationRequest,
    SecurityModeCommand,
    RegistrationAccept {
        registration_result: u8,
        pdu_session_id: u8,
        qfi: u8,
        ul_teid: u32,
        upf_addr: [u8; 4],
    },
    DeregistrationAccept,
    ReleaseCommand { amf_ue_ngap_id: u32, ran_ue_ngap_id: u32, cause: NgapCause },
}

/// How a UE goes on, once its messages are sent.
#[derive(Debug)]
pub enum Next {
    /// It waits for the next message.
    Wait,
    /// It checks the user plane, and then sends one more message.
    RoundTrip { upf_addr: [u8; 4], ul_teid: u32, farewell: NgapMessage },
    /// It is deregistered.
    Done,
}

/// What follows a message.
#[derive(Debug)]
pub struct UeStep {
    pub heard: Heard,
    pub send: Vec<NgapMessage>,
    pub next: Next,
}

#[verifier::ext_equal]
pub enum HeardView {
    IdentityRequest,
    AuthenticationRequest,
    SecurityModeCommand,
    RegistrationAccept {
        registration_result: u8,
        pdu_session_id: u8,
        qfi: u8,
        ul_teid: u32,
        upf_addr: Seq<u8>,
    },
    DeregistrationAccept,
    ReleaseCommand { amf_ue_ngap_id: u32, ran_ue_ngap_id: u32, cause: NgapCause },
}

#[verifier::ext_equal]
pub enum NextView {
    Wait,
    RoundTrip { upf_addr: Seq<u8>, ul_teid: u32, farewell: NgapMessageView },
    Done,
}

#[verifier::ext_equal]
pub struct UeStepView {
    pub heard: HeardView,
    pub send: Seq<NgapMessageView>,
    pub next: NextView,
}

impl View for Heard {
    type V = HeardView;

    open spec fn view(&self) -> HeardView {
        match *self {
            Heard::IdentityRequest => HeardView::IdentityRequest,
            Heard::AuthenticationRequest => HeardView::AuthenticationRequest,
            Heard::SecurityModeCommand => HeardView::SecurityModeCommand,
            Heard::RegistrationAccept { registration_result, pdu_session_id, qfi, ul_teid, upf_addr } =>
                HeardView::RegistrationAccept {
                registration_result,
                pdu_session_id,
                qfi,
                ul_teid,
                upf_addr: upf_addr@,
            },
            Heard::DeregistrationAccept => HeardView::DeregistrationAccept,
            Heard::ReleaseCommand { amf_ue_ngap_id, ran_ue_ngap_id, cause } => HeardView::ReleaseCommand {
                amf_ue_ngap_id,
                ran_ue_ngap_id,
                cause,
            },
        }
    }
}

impl View for Next {
    type V = NextView;

    open spec fn view(&self) -> NextView {
        match *self {
            Next::Wait => NextView::Wait,
            Next::RoundTrip { upf_addr, ul_teid, farewell } => NextView::RoundTrip {
                upf_addr: upf_addr@,
                ul_teid,
                farewell: farewell@,
            },
            Next::Done => NextView::Done,
        }
    }
}

impl View for UeStep {
    type V = UeStepView;

    open spec fn view(&self) -> UeStepView {
        UeStepView { heard: self.heard@, send: messages_view(self.send@), next: self.next@ }
    }
}

/// A result over views.
pub open spec fn result_view(r: Result<UeStep, UeError>) -> Result<UeStepView, UeError> {
    match r {
        Ok(s) => Ok(s@),
        Err(e) => Err(e),
    }
}

// ── Messages of the UE ────────────────────────────────────────────────────────

/// The UE's first message.
pub open spec fn first_message(ue: UeView) -> InitialUeMessageView {
    InitialUeMessageView {
        ran_ue_ngap_id: ue.ran_ue_ngap_id,
        nas_pdu: registration_request_octets(INITIAL_REGISTRATION, 0, None, UE_SECURITY_CAP),
        tai: test_tai(),
        nr_cgi: zeros(9),
        rrc_establishment_cause: 0,
    }
}

/// A NAS PDU of the UE.
pub open spec fn ue_uplink(ue: UeView, id: u32, nas_pdu: Seq<u8>) -> NgapMessageView {
    uplink(id, ue.ran_ue_ngap_id, nas_pdu, test_tai(), zeros(9))
}

/// One NAS PDU in answer to a message.
pub open spec fn answer(ue: UeView, id: u32, heard: HeardView, nas_pdu: Seq<u8>) -> UeStepView {
    UeStepView { heard, send: seq![ue_uplink(ue, id, nas_pdu)], next: NextView::Wait }
}

/// The gNodeB's confirmation of a PDU session.
pub open spec fn session_confirmation(ue: UeView, id: u32, pdu_session_id: u8) -> NgapMessageView {
    NgapMessageView::InitialContextSetupResponse(
        InitialContextSetupResponseView {
            amf_ue_ngap_id: id,
            ran_ue_ngap_id: ue.ran_ue_ngap_id,
            pdu_sessions_setup: seq![
                PduSessionSetupItemView {
                    pdu_session_id,
                    transport_layer_addr: ue.my_ip,
                    gtp_teid: u32_octets(ue.dl_teid),
                },
            ],
            pdu_sessions_failed: Seq::empty(),
        },
    )
}

// ── What a message leads to ───────────────────────────────────────────────────

/// The RAN-UE-NGAP-ID that a message of the AMF carries.
pub open spec fn ran_id_of(msg: NgapMessageView) -> Option<u32> {
    match msg {
        NgapMessageView::DownlinkNasTransport(m) => Some(m.ran_ue_ngap_id),
        NgapMessageView::InitialContextSetupRequest(m) => Some(m.ran_ue_ngap_id),
        NgapMessageView::UeContextReleaseCommand { ran_ue_ngap_id, .. } => Some(ran_ue_ngap_id),
        _ => None,
    }
}

/// The UE once it knows how the AMF calls it; the first name stays.
pub open spec fn learned(ue: UeView, id: u32) -> UeView {
    if ue.amf_ue_ngap_id is Some {
        ue
    } else {
        UeView { amf_ue_ngap_id: Some(id), ..ue }
    }
}

/// The plain PDU that a protected downlink PDU holds, for a UE that makes a
/// fresh security context of KAMF each time.
pub open spec fn opened_downlink(ue: UeView, nas_pdu: Seq<u8>) -> Result<Seq<u8>, UeError> {
    match ue.kamf {
        None => Err(UeError::NoKamf),
        Some(kamf) => match unsealed_downlink(activated(kamf), nas_pdu).0 {
            None => Err(UeError::NotVerified),
            Some(plain) => Ok(plain),
        },
    }
}

/// What a protected downlink PDU leads to.
pub open spec fn protected_step(ue: UeView, nas_pdu: Seq<u8>) -> Result<UeStepView, UeError> {
    match opened_downlink(ue, nas_pdu) {
        Err(e) => Err(e),
        Ok(plain) => match nas5gs_pdu(plain) {
            Err(e) => Err(UeError::Nas(e)),
            Ok(Nas5gsPduView::DeregistrationAccept) => Ok(
                UeStepView { heard: HeardView::DeregistrationAccept, send: Seq::empty(), next: NextView::Wait },
            ),
            Ok(_) => Err(UeError::NotDeregistrationAccept),
        },
    }
}

/// What a plain downlink PDU leads to, for a UE that the AMF calls `id`.
pub open spec fn plain_step(ue: UeView, id: u32, nas_pdu: Seq<u8>) -> (UeView, Result<UeStepView, UeError>) {
    match nas5gs_pdu(nas_pdu) {
        Err(e) => (ue, Err(UeError::Nas(e))),
        Ok(Nas5gsPduView::IdentityRequest { .. }) => (
            ue,
            Ok(answer(ue, id, HeardView::IdentityRequest, identity_response_octets(imsi_suci(ue.imsi)))),
        ),
        Ok(Nas5gsPduView::AuthenticationRequest { rand, .. }) => (
            UeView { kamf: Some(sim_kamf(ue.k, ue.opc, test_plmn(), rand, zeros(6), ue.imsi)), ..ue },
            Ok(
                answer(
                    ue,
                    id,
                    HeardView::AuthenticationRequest,
                    auth_response_octets(sim_res_star(ue.k, ue.opc, test_plmn(), rand)),
                ),
            ),
        ),
        Ok(Nas5gsPduView::SecurityModeCommand { .. }) => (
            ue,
            Ok(answer(ue, id, HeardView::SecurityModeCommand, header(MT5G_SECURITY_MODE_COMPLETE))),
        ),
        Ok(_) => (ue, Err(UeError::UnexpectedNas)),
    }
}

pub open spec fn downlink_step(ue: UeView, m: DownlinkNasTransportView) -> (UeView, Result<UeStepView, UeError>) {
    let known = learned(ue, m.amf_ue_ngap_id);
    if security_header_type(m.nas_pdu) != NAS5GS_SHT_PLAIN {
        (known, protected_step(known, m.nas_pdu))
    } else {
        plain_step(known, known.amf_ue_ngap_id->0, m.nas_pdu)
    }
}

/// What an InitialContextSetupRequest leads to: the session is confirmed, the
/// registration completed, and the user plane checked.
pub open spec fn setup_step(ue: UeView, m: InitialContextSetupRequestView) -> Result<UeStepView, UeError> {
    let id = ue.amf_ue_ngap_id->0;
    if ue.kamf is None {
        Err(UeError::NoKamf)
    } else {
        match m.nas_pdu {
            None => Err(UeError::NoNasPdu),
            Some(nas_pdu) => match opened_downlink(ue, nas_pdu) {
                Err(e) => Err(e),
                Ok(plain) => match nas5gs_pdu(plain) {
                    Err(e) => Err(UeError::Nas(e)),
                    Ok(Nas5gsPduView::RegistrationAccept { registration_result, .. }) => if m.pdu_sessions.len()
                        == 0 {
                        Err(UeError::NoPduSession)
                    } else {
                        let session = m.pdu_sessions[0];
                        let ul_teid = octets_u32(session.gtp_teid);
                        let upf_addr = session.transport_layer_addr;
                        Ok(
                            UeStepView {
                                heard: HeardView::RegistrationAccept {
                                    registration_result,
                                    pdu_session_id: session.pdu_session_id,
                                    qfi: session.qfi,
                                    ul_teid,
                                    upf_addr,
                                },
                                send: seq![
                                    session_confirmation(ue, id, session.pdu_session_id),
                                    ue_uplink(ue, id, header(MT5G_REGISTRATION_COMPLETE)),
                                ],
                                next: NextView::RoundTrip {
                                    upf_addr,
                                    ul_teid,
                                    farewell: ue_uplink(ue, id, deregistration_request_octets(false)),
                                },
                            },
                        )
                    },
                    Ok(_) => Err(UeError::NotRegistrationAccept),
                },
            },
        }
    }
}

/// What a UeContextReleaseCommand leads to: the release is confirmed with the
/// identifiers of the command.
pub open spec fn release_step(amf_ue_ngap_id: u32, ran_ue_ngap_id: u32, cause: NgapCause) -> UeStepView {
    UeStepView {
        heard: HeardView::ReleaseCommand { amf_ue_ngap_id, ran_ue_ngap_id, cause },
        send: seq![
            NgapMessageView::UeContextReleaseComplete(
                UeContextReleaseCompleteView { amf_ue_ngap_id, ran_ue_ngap_id },
            ),
        ],
        next: NextView::Done,
    }
}

/// What an NGAP message leads to.
#[verifier::opaque]
pub open spec fn ue_step(ue: UeView, msg: NgapMessageView) -> (UeView, Result<UeStepView, UeError>) {
    match ran_id_of(msg) {
        Some(got) if got != ue.ran_ue_ngap_id => (
            ue,
            Err(UeError::WrongUe { got, expected: ue.ran_ue_ngap_id }),
        ),
        _ => match msg {
            NgapMessageView::DownlinkNasTransport(m) => downlink_step(ue, m),
            NgapMessageView::InitialContextSetupRequest(m) => {
                let known = learned(ue, m.amf_ue_ngap_id);
                (known, setup_step(known, m))
            },
            NgapMessageView::UeContextReleaseCommand { amf_ue_ngap_id, ran_ue_ngap_id, cause } => (
                ue,
                Ok(release_step(amf_ue_ngap_id, ran_ue_ngap_id, cause)),
            ),
            _ => (ue, Err(UeError::UnexpectedNgap)),
        },
    }
}

/// The RAN-UE-NGAP-ID that a message of the AMF carries.
pub fn ran_ue_ngap_id_of(msg: &NgapMessage) -> (id: Option<u32>)
    ensures
        id == ran_id_of(msg@),
{
    match msg {
        NgapMessage::DownlinkNasTransport(dl) => Some(dl.ran_ue_ngap_id),
        NgapMessage::InitialContextSetupRequest(icsr) => Some(icsr.ran_ue_ngap_id),
        NgapMessage::UeContextReleaseCommand { ran_ue_ngap_id, .. } => Some(*ran_ue_ngap_id),
        _ => None,
    }
}

/// Confirms a release with the identifiers of the command.
fn released(amf_ue_ngap_id: u32, ran_ue_ngap_id: u32, cause: NgapCause) -> (step: UeStep)
    ensures
        step@ == release_step(amf_ue_ngap_id, ran_ue_ngap_id, cause),
{
    let complete = NgapMessage::UeContextReleaseComplete(
        NgapUeContextReleaseComplete { amf_ue_ngap_id, ran_ue_ngap_id },
    );
    let heard = Heard::ReleaseCommand { amf_ue_ngap_id, ran_ue_ngap_id, cause };
    let step = UeStep { heard, send: vec![complete], next: Next::Done };
    assert(messages_view(step.send@) =~= seq![complete@]);
    step
}

impl Ue {
    /// A UE that has sent nothing yet.
    pub fn new(ran_ue_ngap_id: u32, dl_teid: u32, imsi: u64, my_ip: [u8; 4], sim: MilenageContext) -> (ue: Self)
        ensures
            ue@ == (UeView {
                ran_ue_ngap_id,
                dl_teid,
                imsi,
                my_ip: my_ip@,
                k: sim.k@,
                opc: sim.opc@,
                amf_ue_ngap_id: None,
                kamf: None,
            }),
    {
        Ue { ran_ue_ngap_id, dl_teid, imsi, my_ip, sim, amf_ue_ngap_id: None, kamf: None }
    }

    /// The UE's first message.
    pub fn start(&self) -> (m: NgapMessage)
        ensures
            m@ == NgapMessageView::InitialUeMessage(first_message(self@)),
    {
        let tai: [u8; 6] = TEST_TAI;
        let nr_cgi: [u8; 9] = [0; 9];
        assert(tai@ =~= test_tai());
        assert(nr_cgi@ =~= zeros(9));
        NgapMessage::InitialUeMessage(
            NgapInitialUeMessage {
                ran_ue_ngap_id: self.ran_ue_ngap_id,
                nas_pdu: encode_registration_request(INITIAL_REGISTRATION, 0, None, UE_SECURITY_CAP),
                tai,
                nr_cgi,
                rrc_establishment_cause: 0,
            },
        )
    }

    fn uplink(&self, amf_ue_ngap_id: u32, nas_pdu: Bytes) -> (m: NgapMessage)
        ensures
            m@ == ue_uplink(self@, amf_ue_ngap_id, octets_of(nas_pdu)),
    {
        let tai: [u8; 6] = TEST_TAI;
        let nr_cgi: [u8; 9] = [0; 9];
        assert(tai@ =~= test_tai());
        assert(nr_cgi@ =~= zeros(9));
        NgapMessage::UplinkNasTransport(
            NgapUplinkNasTransport { amf_ue_ngap_id, ran_ue_ngap_id: self.ran_ue_ngap_id, nas_pdu, tai, nr_cgi },
        )
    }

    fn answer(&self, amf_ue_ngap_id: u32, heard: Heard, nas_pdu: Bytes) -> (s: UeStep)
        ensures
            s@ == answer(self@, amf_ue_ngap_id, heard@, octets_of(nas_pdu)),
    {
        let m = self.uplink(amf_ue_ngap_id, nas_pdu);
        let s = UeStep { heard, send: vec![m], next: Next::Wait };
        assert(messages_view(s.send@) =~= seq![m@]);
        s
    }

    /// How the AMF calls the UE: by the first identifier that it used.
    fn learn(&mut self, id: u32) -> (known: u32)
        ensures
            final(self)@ == learned(old(self)@, id),
            final(self)@.amf_ue_ngap_id == Some(known),
    {
        match self.amf_ue_ngap_id {
            Some(known) => known,
            None => {
                self.amf_ue_ngap_id = Some(id);
                id
            },
        }
    }

    fn open_downlink(&self, nas_pdu: &[u8]) -> (r: Result<Vec<u8>, UeError>)
        ensures
            match opened_downlink(self@, nas_pdu@) {
                Ok(plain) => r is Ok && r->Ok_0@ == plain,
                Err(e) => r is Err && r->Err_0 == e,
            },
    {
        match self.kamf {
            None => Err(UeError::NoKamf),
            Some(kamf) => {
                let mut ctx = Nas5gsSecurityContext::new(&kamf, 2, 2);
                match decode_protected_downlink(&mut ctx, nas_pdu) {
                    None => Err(UeError::NotVerified),
                    Some(plain) => Ok(plain),
                }
            },
        }
    }

    fn on_protected(&self, nas_pdu: &[u8]) -> (r: Result<UeStep, UeError>)
        ensures
            result_view(r) == protected_step(self@, nas_pdu@),
    {
        let plain = match self.open_downlink(nas_pdu) {
            Ok(plain) => plain,
            Err(e) => return Err(e),
        };
        match decode_nas5gs(plain.as_slice()) {
            Err(e) => Err(UeError::Nas(e)),
            Ok(Nas5gsPdu::DeregistrationAccept) => {
                let send: Vec<NgapMessage> = Vec::new();
                assert(messages_view(send@) =~= Seq::<NgapMessageView>::empty());
                Ok(UeStep { heard: Heard::DeregistrationAccept, send, next: Next::Wait })
            },
            Ok(_) => Err(UeError::NotDeregistrationAccept),
        }
    }

    fn on_plain(&mut self, id: u32, nas_pdu: &[u8]) -> (r: Result<UeStep, UeError>)
        ensures
            final(self)@ == plain_step(old(self)@, id, nas_pdu@).0,
            result_view(r) == plain_step(old(self)@, id, nas_pdu@).1,
    {
        match decode_nas5gs(nas_pdu) {
            Err(e) => Err(UeError::Nas(e)),
            Ok(Nas5gsPdu::IdentityRequest { .. }) => {
                let suci = suci_for_imsi(self.imsi);
                Ok(self.answer(id, Heard::IdentityRequest, encode_identity_response_suci(&suci)))
            },
            Ok(Nas5gsPdu::AuthenticationRequest(req)) => {
                let sqn_used: [u8; 6] = [0; 6];
                let amf: [u8; 2] = MILENAGE_AMF_FIELD;
                assert(sqn_used@ =~= zeros(6));
                assert(amf@ =~= amf_field());
                let vector = self.sim.generate_vector_with_rand(&sqn_used, &amf, &req.rand);
                let plmn: [u8; 3] = TEST_PLMN;
                assert(plmn@ =~= test_plmn());
                let snn = serving_network_name(&plmn);
                let res_star = derive_res_star(&vector.ck, &vector.ik, snn.as_slice(), &req.rand, &vector.res);
                let aka = Nas5gsAkaContext {
                    pending_rand: req.rand,
                    pending_xres_star: res_star,
                    ck: vector.ck,
                    ik: vector.ik,
                    ak: vector.ak,
                    plmn,
                    sqn_used,
                };
                let step = self.answer(id, Heard::AuthenticationRequest, encode_auth_response(&res_star));
                self.kamf = Some(derive_key_chain(&aka, self.imsi));
                Ok(step)
            },
            Ok(Nas5gsPdu::SecurityModeCommand(_)) => Ok(
                self.answer(id, Heard::SecurityModeCommand, encode_sec_mode_complete()),
            ),
            Ok(_) => Err(UeError::UnexpectedNas),
        }
    }

    fn on_downlink(&mut self, m: NgapDownlinkNasTransport) -> (r: Result<UeStep, UeError>)
        ensures
            final(self)@ == downlink_step(old(self)@, m@).0,
            result_view(r) == downlink_step(old(self)@, m@).1,
    {
        let id = self.learn(m.amf_ue_ngap_id);
        let nas_pdu = bytes_as_slice(&m.nas_pdu);
        let sht = if nas_pdu.len() > 1 {
            low_nibble(nas_pdu[1])
        } else {
            NAS5GS_SHT_PLAIN
        };
        if sht != NAS5GS_SHT_PLAIN {
            self.on_protected(nas_pdu)
        } else {
            self.on_plain(id, nas_pdu)
        }
    }

    fn on_setup(&self, id: u32, m: NgapInitialContextSetupRequest) -> (r: Result<UeStep, UeError>)
        requires
            self@.amf_ue_ngap_id == Some(id),
        ensures
            result_view(r) == setup_step(self@, m@),
    {
        if self.kamf.is_none() {
            return Err(UeError::NoKamf);
        }
        let nas_pdu = match &m.nas_pdu {
            Some(b) => bytes_as_slice(b),
            None => return Err(UeError::NoNasPdu),
        };
        let plain = match self.open_downlink(nas_pdu) {
            Ok(plain) => plain,
            Err(e) => return Err(e),
        };
        let registration_result = match decode_nas5gs(plain.as_slice()) {
            Err(e) => return Err(UeError::Nas(e)),
            Ok(Nas5gsPdu::RegistrationAccept(acc)) => acc.registration_result,
            Ok(_) => return Err(UeError::NotRegistrationAccept),
        };
        if m.pdu_sessions.len() == 0 {
            return Err(UeError::NoPduSession);
        }
        let session = &m.pdu_sessions[0];
        assert(m@.pdu_sessions[0] == session@);
        let ul_teid = octets_to_u32(&session.gtp_teid);
        let upf_addr = session.transport_layer_addr;
        let confirmed = PduSessionSetupItem {
            pdu_session_id: session.pdu_session_id,
            transport_layer_addr: self.my_ip,
            gtp_teid: u32_to_octets(self.dl_teid),
        };
        let response = NgapMessage::InitialContextSetupResponse(
            NgapInitialContextSetupResponse {
                amf_ue_ngap_id: id,
                ran_ue_ngap_id: self.ran_ue_ngap_id,
                pdu_sessions_setup: vec![confirmed],
                pdu_sessions_failed: Vec::new(),
            },
        );
        assert(response@ =~= session_confirmation(self@, id, session.pdu_session_id));
        let complete = self.uplink(id, encode_registration_complete());
        let farewell = self.uplink(id, encode_deregistration_request(false));
        let heard = Heard::RegistrationAccept {
            registration_result,
            pdu_session_id: session.pdu_session_id,
            qfi: session.qfi,
            ul_teid,
            upf_addr,
        };
        let step = UeStep {
            heard,
            send: vec![response, complete],
            next: Next::RoundTrip { upf_addr, ul_teid, farewell },
        };
        assert(messages_view(step.send@) =~= seq![response@, complete@]);
        Ok(step)
    }

    /// Processes a message of the AMF.
    pub fn on_message(&mut self, msg: NgapMessage) -> (r: Result<UeStep, UeError>)
        ensures
            final(self)@ == ue_step(old(self)@, msg@).0,
            result_view(r) == ue_step(old(self)@, msg@).1,
    {
        proof {
            reveal(ue_step);
        }
        if let Some(got) = ran_ue_ngap_id_of(&msg) {
            if got != self.ran_ue_ngap_id {
                return Err(UeError::WrongUe { got, expected: self.ran_ue_ngap_id });
            }
        }
        match msg {
            NgapMessage::DownlinkNasTransport(m) => self.on_downlink(m),
            NgapMessage::InitialContextSetupRequest(m) => {
                let id = self.learn(m.amf_ue_ngap_id);
                self.on_setup(id, m)
            },
            NgapMessage::UeContextReleaseCommand { amf_ue_ngap_id, ran_ue_ngap_id, cause } => Ok(
                released(amf_ue_ngap_id, ran_ue_ngap_id, cause),
            ),
            _ => Err(UeError::UnexpectedNgap),
        }
    }
}

} // verus!
