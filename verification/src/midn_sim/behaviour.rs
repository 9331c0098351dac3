//! Laws of what the UEs, the gNodeB and the node of the AMF do, message by
//! message, and of what a command line asks for.

use vstd::prelude::*;
use vstd::utf8::encode_utf8;

use crate::amf::registration::activated;
use crate::amf::state_machine::ngap_step;
use crate::cli::{endpoint_text, first_error, u32_text, value_of, EndpointView};
use crate::ecs::zeros;
use crate::error::ProtoError;
use crate::gtp::datagram_parts;
use crate::kdf::{kamf, kausf, kseaf, network_name, res_star, supi_text};
use crate::midn_sim::args::{known_options, role_of, ArgsErrorView, RoleView};
use crate::midn_sim::gnb::{demuxed, dispatched, slot_of, DispatchView, UserPlaneView};
use crate::midn_sim::labels::{connection_label, label_of};
use crate::midn_sim::node::{
    encode_failure, encoded, fresh_node, node_step, summary_of, AmfNodeView, AmfOutputView,
};
use crate::midn_sim::ue::{first_message, ue_step, HeardView, NextView, UeError, UeStepView, UeView};
use crate::milenage;
use crate::nas5gs::codec::{nas5gs_pdu, unsealed_downlink, Nas5gsPduView};
use crate::nas5gs::formats::{
    authentication_formats, bare_formats, deregistration_request_format,
    identity_response_format, registration_request_format,
};
use crate::ngap::messages::{
    DownlinkNasTransportView, InitialContextSetupRequestView, InitialContextSetupResponseView, InitialUeMessageView,
    NgapCause, NgapMessageView, PduSessionSetupItemView, UeContextReleaseCompleteView,
    UplinkNasTransportView,
};
use crate::ngap::wire;
use crate::text::decimal_text;
use crate::transport::LinkEventView;

verus! {

/// The tracking area that every UE is in.
pub open spec fn tracking_area() -> Seq<u8> {
    seq![0x00u8, 0x11, 0x22, 0x00, 0x00, 0x01]
}

/// A NAS PDU of a UE on its way to the AMF.
pub open spec fn from_ue(ue: UeView, id: u32, nas_pdu: Seq<u8>) -> NgapMessageView {
    NgapMessageView::UplinkNasTransport(
        UplinkNasTransportView {
            amf_ue_ngap_id: id,
            ran_ue_ngap_id: ue.ran_ue_ngap_id,
            nas_pdu,
            tai: tracking_area(),
            nr_cgi: seq![0u8, 0, 0, 0, 0, 0, 0, 0, 0],
        },
    )
}

/// The response of a SIM to a challenge: RES*, for the network 00 11 22.
pub open spec fn response_of(k: Seq<u8>, opc: Seq<u8>, rand: Seq<u8>) -> Seq<u8> {
    res_star(
        milenage::ck(k, opc, rand),
        milenage::ik(k, opc, rand),
        network_name(seq![0x00u8, 0x11, 0x22]),
        rand,
        milenage::res(k, opc, rand),
    )
}

/// The KAMF that it derives, for SQN 0.
pub open spec fn key_of(k: Seq<u8>, opc: Seq<u8>, rand: Seq<u8>, imsi: u64) -> Seq<u8> {
    let name = network_name(seq![0x00u8, 0x11, 0x22]);
    let masked = milenage::masked_sqn(seq![0u8, 0, 0, 0, 0, 0], milenage::ak(k, opc, rand));
    kamf(
        kseaf(kausf(milenage::ck(k, opc, rand), milenage::ik(k, opc, rand), name, masked), name),
        supi_text(imsi),
        seq![0u8, 0],
    )
}

// ── The UE ────────────────────────────────────────────────────────────────────

/// A UE starts with a RegistrationRequest: initial registration, no GUTI,
/// capabilities 00C0.
pub proof fn ue_registers_first(ue: UeView)
    ensures
        first_message(ue) == (InitialUeMessageView {
            ran_ue_ngap_id: ue.ran_ue_ngap_id,
            nas_pdu: seq![0x7Eu8, 0x00, 0x41, 0x01, 0x00, 0x00, 0xC0],
            tai: tracking_area(),
            nr_cgi: seq![0u8, 0, 0, 0, 0, 0, 0, 0, 0],
            rrc_establishment_cause: 0,
        }),
{
    registration_request_format(1, 0, None, 0x00C0);
    assert(seq![0x7Eu8, 0x00, 0x41, 0x01] + seq![0x00u8] + seq![0x00u8, 0xC0] =~= seq![
        0x7Eu8,
        0x00,
        0x41,
        0x01,
        0x00,
        0x00,
        0xC0,
    ]);
    assert(zeros(9) =~= seq![0u8, 0, 0, 0, 0, 0, 0, 0, 0]);
}

/// The UE knows itself by the first name that the AMF gave it.
pub open spec fn named(ue: UeView, id: u32) -> u32 {
    match ue.amf_ue_ngap_id {
        Some(first) => first,
        None => id,
    }
}

/// What a UE answers: a request for its identity with the null-scheme SUCI
/// whose MSIN is the low five octets of its IMSI; a challenge with RES*, and it
/// has KAMF then; SecurityModeCommand with SecurityModeComplete. Anything else
/// in the plain is an error.
pub proof fn ue_answers(ue: UeView, m: DownlinkNasTransportView)
    requires
        m.ran_ue_ngap_id == ue.ran_ue_ngap_id,
        m.nas_pdu.len() < 2 || m.nas_pdu[1] % 16 == 0,
    ensures
        ({
            let (next, r) = ue_step(ue, NgapMessageView::DownlinkNasTransport(m));
            let id = named(ue, m.amf_ue_ngap_id);
            &&& next == UeView { amf_ue_ngap_id: Some(id), kamf: next.kamf, ..ue }
            &&& match nas5gs_pdu(m.nas_pdu) {
                Ok(Nas5gsPduView::IdentityRequest { .. }) => {
                    &&& next.kamf == ue.kamf
                    &&& r matches Ok(step) && step.heard == HeardView::IdentityRequest && step.next == NextView::Wait
                        && step.send == seq![
                        from_ue(
                            ue,
                            id,
                            seq![0x7Eu8, 0x00, 0x5C, 0x10, 0x01, 0, 0, 0, 0, 0, 0, 0, 0, 0, 0] + seq![
                                (ue.imsi / 0x1_0000_0000 % 256) as u8,
                                (ue.imsi / 0x100_0000 % 256) as u8,
                                (ue.imsi / 0x1_0000 % 256) as u8,
                                (ue.imsi / 0x100 % 256) as u8,
                                (ue.imsi % 256) as u8,
                            ],
                        ),
                    ]
                },
                Ok(Nas5gsPduView::AuthenticationRequest { rand, .. }) => {
                    &&& next.kamf == Some(key_of(ue.k, ue.opc, rand, ue.imsi))
                    &&& r matches Ok(step) && step.heard == HeardView::AuthenticationRequest && step.next
                        == NextView::Wait && step.send == seq![
                        from_ue(
                            ue,
                            id,
                            seq![0x7Eu8, 0x00, 0x57, 0x10] + response_of(ue.k, ue.opc, rand),
                        ),
                    ]
                },
                Ok(Nas5gsPduView::SecurityModeCommand { .. }) => {
                    &&& next.kamf == ue.kamf
                    &&& r matches Ok(step) && step.heard == HeardView::SecurityModeCommand && step.next
                        == NextView::Wait && step.send == seq![from_ue(ue, id, seq![0x7Eu8, 0x00, 0x5E])]
                },
                Ok(_) => next.kamf == ue.kamf && r == Err::<UeStepView, UeError>(UeError::UnexpectedNas),
                Err(e) => next.kamf == ue.kamf && r == Err::<UeStepView, UeError>(UeError::Nas(e)),
            }
        }),
{
    reveal(ue_step);
    assert(zeros(9) =~= seq![0u8, 0, 0, 0, 0, 0, 0, 0, 0]);
    assert(zeros(6) =~= seq![0u8, 0, 0, 0, 0, 0]);
    assert(zeros(3) =~= seq![0u8, 0, 0]);
    let suci = crate::amf::registration::imsi_suci(ue.imsi);
    identity_response_format(suci);
    assert(crate::nas5gs::codec::identity_response_octets(suci) =~= seq![
        0x7Eu8,
        0x00,
        0x5C,
        0x10,
        0x01,
        0,
        0,
        0,
        0,
        0,
        0,
        0,
        0,
        0,
        0,
    ] + suci.msin);
    bare_formats();
    if nas5gs_pdu(m.nas_pdu) is Ok && nas5gs_pdu(m.nas_pdu)->Ok_0 is AuthenticationRequest {
        let rand = nas5gs_pdu(m.nas_pdu)->Ok_0->rand;
        let answer = response_of(ue.k, ue.opc, rand);
        assert(answer.len() == 16);
        authentication_formats(0, answer, answer, answer);
    }
}

/// What a protected PDU is to a UE: an error before it has KAMF, where the
/// MAC-I does not verify, and where it is no DeregistrationAccept.
pub proof fn ue_opens_protected_downlinks(ue: UeView, m: DownlinkNasTransportView)
    requires
        m.ran_ue_ngap_id == ue.ran_ue_ngap_id,
        m.nas_pdu.len() >= 2,
        m.nas_pdu[1] % 16 != 0,
    ensures
        ({
            let (next, r) = ue_step(ue, NgapMessageView::DownlinkNasTransport(m));
            &&& next == UeView { amf_ue_ngap_id: Some(named(ue, m.amf_ue_ngap_id)), ..ue }
            &&& ue.kamf is None ==> r == Err::<UeStepView, UeError>(UeError::NoKamf)
            &&& ue.kamf is Some ==> match unsealed_downlink(activated(ue.kamf->0), m.nas_pdu).0 {
                None => r == Err::<UeStepView, UeError>(UeError::NotVerified),
                Some(plain) => match nas5gs_pdu(plain) {
                    Ok(Nas5gsPduView::DeregistrationAccept) => r == Ok::<UeStepView, UeError>(
                        UeStepView {
                            heard: HeardView::DeregistrationAccept,
                            send: Seq::empty(),
                            next: NextView::Wait,
                        },
                    ),
                    Ok(_) => r == Err::<UeStepView, UeError>(UeError::NotDeregistrationAccept),
                    Err(e) => r == Err::<UeStepView, UeError>(UeError::Nas(e)),
                },
            }
        }),
{
    reveal(ue_step);
}

/// A context setup with a RegistrationAccept that verifies and a PDU session is
/// answered with the confirmation of that session, at the address and under
/// the TEID of the UE, and RegistrationComplete. Then the user plane is checked
/// towards the address and the TEID of the session, and the UE deregisters.
pub proof fn ue_confirms_the_session(ue: UeView, m: InitialContextSetupRequestView)
    requires
        m.ran_ue_ngap_id == ue.ran_ue_ngap_id,
        m.pdu_sessions.len() > 0 ==> m.pdu_sessions[0].gtp_teid.len() == 4,
    ensures
        ({
            let (next, r) = ue_step(ue, NgapMessageView::InitialContextSetupRequest(m));
            let id = named(ue, m.amf_ue_ngap_id);
            let s = m.pdu_sessions[0];
            let t = s.gtp_teid;
            let ul_teid = (t[0] * 0x100_0000 + t[1] * 0x1_0000 + t[2] * 0x100 + t[3]) as u32;
            &&& next == UeView { amf_ue_ngap_id: Some(id), ..ue }
            &&& ue.kamf is None ==> r == Err::<UeStepView, UeError>(UeError::NoKamf)
            &&& ue.kamf is Some && m.nas_pdu is None ==> r == Err::<UeStepView, UeError>(UeError::NoNasPdu)
            &&& ue.kamf is Some && m.nas_pdu is Some ==> match unsealed_downlink(
                activated(ue.kamf->0),
                m.nas_pdu->0,
            ).0 {
                None => r == Err::<UeStepView, UeError>(UeError::NotVerified),
                Some(plain) => match nas5gs_pdu(plain) {
                    Ok(Nas5gsPduView::RegistrationAccept { registration_result, .. }) => if m.pdu_sessions.len()
                        == 0 {
                        r == Err::<UeStepView, UeError>(UeError::NoPduSession)
                    } else {
                        r == Ok::<UeStepView, UeError>(
                            UeStepView {
                                heard: HeardView::RegistrationAccept {
                                    registration_result,
                                    pdu_session_id: s.pdu_session_id,
                                    qfi: s.qfi,
                                    ul_teid,
                                    upf_addr: s.transport_layer_addr,
                                },
                                send: seq![
                                    NgapMessageView::InitialContextSetupResponse(
                                        InitialContextSetupResponseView {
                                            amf_ue_ngap_id: id,
                                            ran_ue_ngap_id: ue.ran_ue_ngap_id,
                                            pdu_sessions_setup: seq![
                                                PduSessionSetupItemView {
                                                    pdu_session_id: s.pdu_session_id,
                                                    transport_layer_addr: ue.my_ip,
                                                    gtp_teid: crate::ngap::forms::four_octets(ue.dl_teid),
                                                },
                                            ],
                                            pdu_sessions_failed: Seq::empty(),
                                        },
                                    ),
                                    from_ue(ue, id, seq![0x7Eu8, 0x00, 0x43]),
                                ],
                                next: NextView::RoundTrip {
                                    upf_addr: s.transport_layer_addr,
                                    ul_teid,
                                    farewell: from_ue(ue, id, seq![0x7Eu8, 0x00, 0x45, 0x01]),
                                },
                            },
                        )
                    },
                    Ok(_) => r == Err::<UeStepView, UeError>(UeError::NotRegistrationAccept),
                    Err(e) => r == Err::<UeStepView, UeError>(UeError::Nas(e)),
                },
            }
        }),
{
    reveal(ue_step);
    assert(zeros(9) =~= seq![0u8, 0, 0, 0, 0, 0, 0, 0, 0]);
    bare_formats();
    deregistration_request_format(false);
    assert(crate::octets::u32_octets(ue.dl_teid) =~= crate::ngap::forms::four_octets(ue.dl_teid));
}

/// A release command is confirmed with its own identifiers, and ends the UE. A
/// message for another UE is an error and changes nothing, and so is one that
/// the AMF never sends.
pub proof fn ue_confirms_its_release(ue: UeView, amf_ue_ngap_id: u32, ran_ue_ngap_id: u32, cause: NgapCause, msg: NgapMessageView)
    ensures
        ({
            let (next, r) = ue_step(
                ue,
                NgapMessageView::UeContextReleaseCommand { amf_ue_ngap_id, ran_ue_ngap_id, cause },
            );
            &&& next == ue
            &&& ran_ue_ngap_id == ue.ran_ue_ngap_id ==> r == Ok::<UeStepView, UeError>(
                UeStepView {
                    heard: HeardView::ReleaseCommand { amf_ue_ngap_id, ran_ue_ngap_id, cause },
                    send: seq![
                        NgapMessageView::UeContextReleaseComplete(
                            UeContextReleaseCompleteView { amf_ue_ngap_id, ran_ue_ngap_id },
                        ),
                    ],
                    next: NextView::Done,
                },
            )
            &&& ran_ue_ngap_id != ue.ran_ue_ngap_id ==> r == Err::<UeStepView, UeError>(
                UeError::WrongUe { got: ran_ue_ngap_id, expected: ue.ran_ue_ngap_id },
            )
        }),
        msg matches NgapMessageView::DownlinkNasTransport(m) && m.ran_ue_ngap_id != ue.ran_ue_ngap_id ==> ue_step(
            ue,
            msg,
        ) == (
            ue,
            Err::<UeStepView, UeError>(
                UeError::WrongUe { got: msg->DownlinkNasTransport_0.ran_ue_ngap_id, expected: ue.ran_ue_ngap_id },
            ),
        ),
        msg matches NgapMessageView::InitialContextSetupRequest(m) && m.ran_ue_ngap_id != ue.ran_ue_ngap_id
            ==> ue_step(ue, msg) == (
            ue,
            Err::<UeStepView, UeError>(
                UeError::WrongUe {
                    got: msg->InitialContextSetupRequest_0.ran_ue_ngap_id,
                    expected: ue.ran_ue_ngap_id,
                },
            ),
        ),
        !(msg is DownlinkNasTransport) && !(msg is InitialContextSetupRequest) && !(msg is UeContextReleaseCommand)
            ==> ue_step(ue, msg) == (ue, Err::<UeStepView, UeError>(UeError::UnexpectedNgap)),
{
    reveal(ue_step);
}

// ── The gNodeB ────────────────────────────────────────────────────────────────

/// The UEs are numbered on from RAN-UE-NGAP-ID 7, TEID AABBCCDD and IMSI
/// 901700000001.
pub proof fn ues_are_numbered(index: u32)
    requires
        index < 0x5544_3323,
    ensures
        slot_of(index).ran_ue_ngap_id == 7 + index,
        slot_of(index).dl_teid == 0xAABB_CCDD + index,
        slot_of(index).imsi == 901_700_000_001 + index,
{
}

/// A message goes to the UE whose RAN-UE-NGAP-ID it carries, a datagram to the
/// UE whose TEID it carries; other events of the link are told apart.
pub proof fn gnb_dispatches(n_ues: u32, octets: Seq<u8>, reason: Seq<char>)
    requires
        n_ues <= 0x5544_3323,
    ensures
        dispatched(n_ues, None) == DispatchView::Closed,
        dispatched(n_ues, Some(LinkEventView::Connected)) == DispatchView::Ignore,
        dispatched(n_ues, Some(LinkEventView::Lost { reason })) == (DispatchView::Lost { reason }),
        match wire::message(octets) {
            Err(e) => dispatched(n_ues, Some(LinkEventView::Message(octets))) == DispatchView::BadPdu(e),
            Ok(msg) => {
                let d = dispatched(n_ues, Some(LinkEventView::Message(octets)));
                let named = match msg {
                    NgapMessageView::DownlinkNasTransport(m) => Some(m.ran_ue_ngap_id),
                    NgapMessageView::InitialContextSetupRequest(m) => Some(m.ran_ue_ngap_id),
                    NgapMessageView::UeContextReleaseCommand { ran_ue_ngap_id, .. } => Some(ran_ue_ngap_id),
                    _ => None,
                };
                match named {
                    None => d == (DispatchView::NoUeId { msg }),
                    Some(id) => if 7 <= id < 7 + n_ues {
                        d == (DispatchView::Deliver { index: (id - 7) as u32, msg })
                    } else {
                        d == (DispatchView::UnknownUe { id, msg })
                    },
                }
            },
        },
        match datagram_parts(octets) {
            None => demuxed(n_ues, octets) == UserPlaneView::Malformed,
            Some((h, payload)) => if 0xAABB_CCDD <= h.teid < 0xAABB_CCDD + n_ues {
                demuxed(n_ues, octets) == (UserPlaneView::Deliver { index: (h.teid - 0xAABB_CCDD) as u32, payload })
            } else {
                demuxed(n_ues, octets) == (UserPlaneView::UnknownTeid { teid: h.teid })
            },
        },
{
}

/// The labels of the log: one for a single UE; otherwise the connection has
/// its own, and the UEs are numbered from 1.
pub proof fn labels_are_shown(n_ues: u32, index: u32)
    ensures
        connection_label(1) == "[UE ]"@,
        label_of(1, index) == "[UE ]"@,
        n_ues != 1 ==> connection_label(n_ues) == "[gNB]"@,
        n_ues != 1 ==> label_of(n_ues, index) == "[UE"@ + decimal_text((index + 1) as nat) + "]"@,
{
}

// ── The node ──────────────────────────────────────────────────────────────────

/// Replies go out in order, each as its octets. One that has no encoding ends
/// them, and its error is reported.
pub proof fn replies_go_out_in_order(messages: Seq<NgapMessageView>, n: int)
    requires
        0 <= n <= messages.len(),
        forall|i: int| 0 <= i < n ==> wire::encodable(#[trigger] messages[i]),
        n < messages.len() ==> !wire::encodable(messages[n]),
    ensures
        encoded(messages).len() == n,
        forall|i: int| 0 <= i < n ==> #[trigger] encoded(messages)[i] == wire::octets(messages[i]),
        n == messages.len() ==> encode_failure(messages) is None,
        n < messages.len() ==> encode_failure(messages) == Some(
            ProtoError::MalformedNgap {
                reason: if wire::supported(messages[n]) {
                    wire::REASON_NOT_ENCODABLE
                } else {
                    wire::REASON_UNSUPPORTED_MESSAGE
                },
            },
        ),
    decreases messages.len(),
{
    if messages.len() > 0 && n > 0 {
        let rest = messages.subrange(1, messages.len() as int);
        assert forall|i: int| 0 <= i < n - 1 implies wire::encodable(#[trigger] rest[i]) by {
            assert(rest[i] == messages[i + 1]);
        }
        replies_go_out_in_order(rest, n - 1);
        assert(encoded(messages) == seq![wire::octets(messages[0])] + encoded(rest));
        assert forall|i: int| 0 <= i < n implies #[trigger] encoded(messages)[i] == wire::octets(messages[i]) by {
            if i > 0 {
                assert(encoded(messages)[i] == encoded(rest)[i - 1]);
                assert(rest[i - 1] == messages[i]);
            }
        }
    }
}

/// A message of the link is decoded, taken to the AMF, and its events to the
/// sessions; octets that are no message are dropped; the other events of the
/// link change nothing.
pub proof fn node_processes(node: AmfNodeView, octets: Seq<u8>, reason: Seq<char>, rand: Seq<u8>)
    ensures
        node_step(node, None, rand) == (node, AmfOutputView::Closed),
        node_step(node, Some(LinkEventView::Connected), rand) == (node, AmfOutputView::Established),
        node_step(node, Some(LinkEventView::Lost { reason }), rand) == (node, AmfOutputView::Lost { reason }),
        match wire::message(octets) {
            Err(e) => node_step(node, Some(LinkEventView::Message(octets)), rand) == (node, AmfOutputView::BadPdu(e)),
            Ok(msg) => {
                let (next, out) = node_step(node, Some(LinkEventView::Message(octets)), rand);
                let step = ngap_step(node.amf, msg, rand);
                &&& next.amf == step.amf
                &&& next.sessions == node.sessions.apply_all_n3(step.events)
                &&& out matches AmfOutputView::Processed { summary, events, replies, failed } && summary
                    == summary_of(msg) && events == step.events && replies == encoded(step.messages) && failed
                    == encode_failure(step.messages)
            },
        },
{
}

/// The names by which messages are logged.
pub proof fn summaries_are_names(msg: NgapMessageView)
    ensures
        summary_of(msg) == match msg {
            NgapMessageView::InitialUeMessage(_) => "InitialUeMessage",
            NgapMessageView::UplinkNasTransport(_) => "UplinkNasTransport",
            NgapMessageView::DownlinkNasTransport(_) => "DownlinkNasTransport",
            NgapMessageView::InitialContextSetupRequest(_) => "InitialContextSetupRequest",
            NgapMessageView::InitialContextSetupResponse(_) => "InitialContextSetupResponse",
            NgapMessageView::UeContextReleaseCommand { .. } => "UeContextReleaseCommand",
            NgapMessageView::UeContextReleaseComplete(_) => "UeContextReleaseComplete",
            _ => "(other NGAP message)",
        },
{
}

/// A new node has a subscription with SQN 0 for each UE and for nobody else,
/// its UPF, and no sessions.
pub proof fn new_node_serves_the_ues(upf_ip: Seq<u8>, n_ues: u32, k: Seq<u8>, opc: Seq<u8>, imsi: u64)
    ensures
        ({
            let node = fresh_node(upf_ip, n_ues, k, opc);
            &&& node.amf.phase_b_upf == Some(upf_ip)
            &&& node.amf.hss.contains_key(imsi) <==> 901_700_000_001 <= imsi < 901_700_000_001 + n_ues
            &&& node.amf.hss.contains_key(imsi) ==> node.amf.hss[imsi].k == k && node.amf.hss[imsi].opc == opc
                && node.amf.hss[imsi].sqn == 0
            &&& node.amf.teids.first() == 0x0002_0000
            &&& node.amf.world.slots.len() == 0 && node.amf.registry.dom() == Set::<u64>::empty()
            &&& node.sessions.sessions.dom() == Set::<u32>::empty()
        }),
{
    crate::midn_sim::node::every_ue_is_a_subscriber(n_ues as nat, k, opc, imsi);
}

// ── The command line ──────────────────────────────────────────────────────────

/// The role that a command line without a faulty option asks for: both sides
/// unless it says otherwise, with one UE unless it says otherwise, and the AMF
/// at 127.0.0.1:38412 unless it says otherwise. The UE needs both endpoints.
pub proof fn roles_are_read(args: Seq<Seq<char>>)
    ensures
        known_options() == seq!["--role"@, "--bind"@, "--amf"@, "--n-ues"@],
        first_error(args, known_options(), 0) is Some ==> role_of(args) == Err::<RoleView, ArgsErrorView>(
            ArgsErrorView::Options(first_error(args, known_options(), 0)->0),
        ),
        first_error(args, known_options(), 0) is None ==> {
            let count = value_of(args, "--n-ues"@);
            let role = value_of(args, "--role"@);
            let bind = value_of(args, "--bind"@);
            let amf = value_of(args, "--amf"@);
            let n = match count {
                None => Some(1nat),
                Some(s) => u32_text(encode_utf8(s)),
            };
            let here = match bind {
                None => None,
                Some(s) => endpoint_text(encode_utf8(s)),
            };
            let there = match amf {
                None => None,
                Some(s) => endpoint_text(encode_utf8(s)),
            };
            let r = role_of(args);
            &&& n is None ==> r == Err::<RoleView, ArgsErrorView>(ArgsErrorView::BadUeCount)
            &&& n == Some(0nat) ==> r == Err::<RoleView, ArgsErrorView>(ArgsErrorView::ZeroUeCount)
            &&& n is Some && n->0 > 0 ==> {
                let n_ues = n->0 as u32;
                &&& role is None || role->0 == "both"@ ==> r == Ok::<RoleView, ArgsErrorView>(
                    RoleView::Both { n_ues },
                )
                &&& role is Some && role->0 != "both"@ && role->0 == "amf"@ ==> {
                    &&& bind is None ==> r == Ok::<RoleView, ArgsErrorView>(
                        RoleView::Amf { bind: EndpointView { ip: seq![127u8, 0, 0, 1], port: 38412 }, n_ues },
                    )
                    &&& bind is Some && here is Some ==> r == Ok::<RoleView, ArgsErrorView>(
                        RoleView::Amf { bind: here->0, n_ues },
                    )
                    &&& bind is Some && here is None ==> r == Err::<RoleView, ArgsErrorView>(ArgsErrorView::BadBind)
                }
                &&& role is Some && role->0 != "both"@ && role->0 != "amf"@ && role->0 == "ue"@ ==> {
                    &&& bind is None ==> r == Err::<RoleView, ArgsErrorView>(ArgsErrorView::UeNeedsBind)
                    &&& bind is Some && here is None ==> r == Err::<RoleView, ArgsErrorView>(ArgsErrorView::BadBind)
                    &&& here is Some && amf is None ==> r == Err::<RoleView, ArgsErrorView>(
                        ArgsErrorView::UeNeedsAmf,
                    )
                    &&& here is Some && amf is Some && there is None ==> r == Err::<RoleView, ArgsErrorView>(
                        ArgsErrorView::BadAmf,
                    )
                    &&& here is Some && there is Some ==> r == Ok::<RoleView, ArgsErrorView>(
                        RoleView::Ue { bind: here->0, amf: there->0, n_ues },
                    )
                }
                &&& role is Some && role->0 != "both"@ && role->0 != "amf"@ && role->0 != "ue"@ ==> r == Err::<
                    RoleView,
                    ArgsErrorView,
                >(ArgsErrorView::UnknownRole(role->0))
            }
        },
{
    assert(crate::midn_sim::args::AMF_BIND_IP@ =~= seq![127u8, 0, 0, 1]);
}

/// The names of the roles differ, so that each can be asked for.
pub proof fn role_names_differ()
    ensures
        "both"@ != "amf"@,
        "both"@ != "ue"@,
        "amf"@ != "ue"@,
{
    reveal_strlit("both");
    reveal_strlit("amf");
    reveal_strlit("ue");
    assert("both"@.len() == 4 && "amf"@.len() == 3 && "ue"@.len() == 2);
}

} // verus!
