//! Laws of what the UE and the node of the MME do, message by message, and of
//! what a command line asks for.

use vstd::prelude::*;
use vstd::utf8::encode_utf8;

use crate::cli::{endpoint_text, first_error, value_of, EndpointView};
use crate::ecs::zeros;
use crate::error::ProtoError;
use crate::kdf::kasme;
use crate::milenage;
use crate::mme::attach::activated;
use crate::mme::state_machine::s1ap_step;
use crate::mme_sim::args::{known_options, role_of, ArgsErrorView, RoleView};
use crate::mme_sim::node::{encode_failure, encoded, fresh_node, node_step, summary_of, MmeNodeView, MmeOutputView};
use crate::mme_sim::ue::{first_message, ue_step, HeardView, NextView, UeErrorView, UeStepView, UeView};
use crate::nas::codec::{nas_pdu, NasPduView};
use crate::nas::formats::{attach_request_format, auth_response_format, bare_formats, detach_request_format};
use crate::nas::ie::imsi_octets;
use crate::s1ap::messages::{
    DownlinkNasTransportView, ErabSetupItemView, InitialContextSetupRequestView, InitialContextSetupResponseView,
    InitialUeMessageView, S1apCause, S1apMessageView, UplinkNasTransportView,
};
use crate::s1ap::wire;
use crate::transport::LinkEventView;

verus! {

/// The tracking area that the UE is in.
pub open spec fn tracking_area() -> Seq<u8> {
    seq![0x00u8, 0x11, 0x22, 0x00, 0x01]
}

/// A NAS PDU of the UE on its way to the MME.
pub open spec fn from_ue(id: u32, pdu: Seq<u8>) -> S1apMessageView {
    S1apMessageView::UplinkNasTransport(
        UplinkNasTransportView {
            mme_ue_s1ap_id: id,
            enb_ue_s1ap_id: 7,
            nas_pdu: pdu,
            tai: tracking_area(),
            eutran_cgi: seq![0u8, 0, 0, 0, 0, 0, 0],
        },
    )
}

/// The Kasme that a SIM derives for the network 00 11 22 and SQN 0.
pub open spec fn key_of(k: Seq<u8>, opc: Seq<u8>, rand: Seq<u8>) -> Seq<u8> {
    kasme(
        milenage::ck(k, opc, rand),
        milenage::ik(k, opc, rand),
        seq![0x00u8, 0x11, 0x22],
        milenage::masked_sqn(seq![0u8, 0, 0, 0, 0, 0], milenage::ak(k, opc, rand)),
    )
}

// ── The UE ────────────────────────────────────────────────────────────────────

/// A UE starts with an AttachRequest for EPS with its IMSI.
pub proof fn ue_attaches_first(ue: UeView)
    requires
        imsi_octets(ue.imsi as nat).len() <= 255,
    ensures
        ({
            let identity = imsi_octets(ue.imsi as nat);
            first_message(ue) == (InitialUeMessageView {
                enb_ue_s1ap_id: 7,
                nas_pdu: seq![0x07u8, 0x41, 0x01, identity.len() as u8] + identity + seq![0x02u8, 0x20, 0x40],
                tai: tracking_area(),
                eutran_cgi: seq![0u8, 0, 0, 0, 0, 0, 0],
                rrc_cause: 0,
            })
        }),
{
    attach_request_format(ue.imsi, 1, 0);
    assert(zeros(7) =~= seq![0u8, 0, 0, 0, 0, 0, 0]);
}

/// The UE knows itself by the first name that the MME gave it.
pub open spec fn named(ue: UeView, id: u32) -> u32 {
    match ue.mme_ue_s1ap_id {
        Some(first) => first,
        None => id,
    }
}

/// What a UE answers: a challenge with RES, and it has Kasme then;
/// SecurityModeCommand with SecurityModeComplete. Anything else in the plain is
/// an error.
pub proof fn ue_answers(ue: UeView, m: DownlinkNasTransportView)
    requires
        m.nas_pdu.len() == 0 || m.nas_pdu[0] < 16,
    ensures
        ({
            let (next, r) = ue_step(ue, S1apMessageView::DownlinkNasTransport(m));
            let id = named(ue, m.mme_ue_s1ap_id);
            &&& next == UeView { mme_ue_s1ap_id: Some(id), kasme: next.kasme, ..ue }
            &&& match nas_pdu(m.nas_pdu) {
                Ok(NasPduView::AuthenticationRequest { rand, .. }) => {
                    &&& next.kasme == Some(key_of(ue.k, ue.opc, rand))
                    &&& r matches Ok(step) && step.heard == HeardView::AuthenticationRequest && step.next
                        == NextView::Wait && step.send == seq![
                        from_ue(id, seq![0x07u8, 0x53, 0x08] + milenage::res(ue.k, ue.opc, rand)),
                    ]
                },
                Ok(NasPduView::SecurityModeCommand { .. }) => {
                    &&& next.kasme == ue.kasme
                    &&& r matches Ok(step) && step.heard == HeardView::SecurityModeCommand && step.next
                        == NextView::Wait && step.send == seq![from_ue(id, seq![0x07u8, 0x5E])]
                },
                Ok(_) => next.kasme == ue.kasme && r == Err::<UeStepView, UeErrorView>(UeErrorView::UnexpectedNas),
                Err(e) => next.kasme == ue.kasme && r == Err::<UeStepView, UeErrorView>(UeErrorView::Nas(e)),
            }
        }),
{
    reveal(ue_step);
    assert(zeros(7) =~= seq![0u8, 0, 0, 0, 0, 0, 0]);
    assert(zeros(6) =~= seq![0u8, 0, 0, 0, 0, 0]);
    bare_formats();
    if nas_pdu(m.nas_pdu) is Ok && nas_pdu(m.nas_pdu)->Ok_0 is AuthenticationRequest {
        let rand = nas_pdu(m.nas_pdu)->Ok_0->rand;
        assert(milenage::res(ue.k, ue.opc, rand).len() == 8);
        auth_response_format(milenage::res(ue.k, ue.opc, rand));
    }
}

/// What a protected PDU is to a UE: an error before it has Kasme, where the
/// MAC-I does not verify, and where it is no DetachAccept.
pub proof fn ue_opens_protected_downlinks(ue: UeView, m: DownlinkNasTransportView)
    requires
        m.nas_pdu.len() > 0,
        m.nas_pdu[0] >= 16,
    ensures
        ({
            let (next, r) = ue_step(ue, S1apMessageView::DownlinkNasTransport(m));
            &&& next == UeView { mme_ue_s1ap_id: Some(named(ue, m.mme_ue_s1ap_id)), ..ue }
            &&& ue.kasme is None ==> r == Err::<UeStepView, UeErrorView>(UeErrorView::NoKasme)
            &&& ue.kasme is Some ==> match activated(ue.kasme->0).unsealed_downlink(m.nas_pdu, 0).0 {
                None => r == Err::<UeStepView, UeErrorView>(UeErrorView::NotVerified),
                Some(plain) => match nas_pdu(plain) {
                    Ok(NasPduView::DetachAccept) => r == Ok::<UeStepView, UeErrorView>(
                        UeStepView { heard: HeardView::DetachAccept, send: Seq::empty(), next: NextView::Wait },
                    ),
                    Ok(_) => r == Err::<UeStepView, UeErrorView>(UeErrorView::NotDetachAccept),
                    Err(e) => r == Err::<UeStepView, UeErrorView>(UeErrorView::Nas(e)),
                },
            }
        }),
{
    reveal(ue_step);
}

/// A context setup with an AttachAccept that verifies and an E-RAB is answered
/// with the confirmation of that E-RAB, at the address of the UE and under TEID
/// AABBCCDD, and AttachComplete. Then the user plane is checked towards the
/// address and the TEID of the E-RAB, and the UE detaches.
pub proof fn ue_confirms_the_bearer(ue: UeView, m: InitialContextSetupRequestView)
    requires
        m.e_rabs.len() > 0 ==> m.e_rabs[0].gtp_teid.len() == 4,
    ensures
        ({
            let (next, r) = ue_step(ue, S1apMessageView::InitialContextSetupRequest(m));
            let id = named(ue, m.mme_ue_s1ap_id);
            let s = m.e_rabs[0];
            let t = s.gtp_teid;
            let ul_teid = (t[0] * 0x100_0000 + t[1] * 0x1_0000 + t[2] * 0x100 + t[3]) as u32;
            &&& next == UeView { mme_ue_s1ap_id: Some(id), ..ue }
            &&& ue.kasme is None ==> r == Err::<UeStepView, UeErrorView>(UeErrorView::NoKasme)
            &&& ue.kasme is Some && m.nas_pdu is None ==> r == Err::<UeStepView, UeErrorView>(UeErrorView::NoNasPdu)
            &&& ue.kasme is Some && m.nas_pdu is Some ==> match activated(ue.kasme->0).unsealed_downlink(
                m.nas_pdu->0,
                0,
            ).0 {
                None => r == Err::<UeStepView, UeErrorView>(UeErrorView::NotVerified),
                Some(plain) => match nas_pdu(plain) {
                    Ok(NasPduView::AttachAccept { attach_result, optional, .. }) => if m.e_rabs.len() == 0 {
                        r == Err::<UeStepView, UeErrorView>(UeErrorView::NoErab)
                    } else {
                        r == Ok::<UeStepView, UeErrorView>(
                            UeStepView {
                                heard: HeardView::AttachAccept {
                                    attach_result,
                                    ip_address: optional.ip_address,
                                    erab_id: s.erab_id,
                                    qci: s.qci,
                                    ul_teid,
                                    upf_addr: s.transport_layer_addr,
                                },
                                send: seq![
                                    S1apMessageView::InitialContextSetupResponse(
                                        InitialContextSetupResponseView {
                                            mme_ue_s1ap_id: id,
                                            enb_ue_s1ap_id: m.enb_ue_s1ap_id,
                                            e_rabs_setup: seq![
                                                ErabSetupItemView {
                                                    e_rab_id: s.erab_id,
                                                    transport_layer_addr: ue.my_ip,
                                                    gtp_teid: seq![0xAAu8, 0xBB, 0xCC, 0xDD],
                                                },
                                            ],
                                            e_rabs_failed: Seq::empty(),
                                        },
                                    ),
                                    from_ue(id, seq![0x07u8, 0x43]),
                                ],
                                next: NextView::RoundTrip {
                                    upf_addr: s.transport_layer_addr,
                                    ul_teid,
                                    farewell: from_ue(
                                        id,
                                        seq![0x07u8, 0x45, 0x01, 0x0A] + seq![0u8, 0, 0, 0, 0, 0, 0, 0, 0, 0],
                                    ),
                                },
                            },
                        )
                    },
                    Ok(_) => r == Err::<UeStepView, UeErrorView>(UeErrorView::NotAttachAccept),
                    Err(e) => r == Err::<UeStepView, UeErrorView>(UeErrorView::Nas(e)),
                },
            }
        }),
{
    reveal(ue_step);
    assert(zeros(7) =~= seq![0u8, 0, 0, 0, 0, 0, 0]);
    assert(zeros(10) =~= seq![0u8, 0, 0, 0, 0, 0, 0, 0, 0, 0]);
    bare_formats();
    detach_request_format(1, false, 0, zeros(10));
    assert(crate::octets::u32_octets(0xAABB_CCDD) =~= seq![0xAAu8, 0xBB, 0xCC, 0xDD]);
}

/// A release command ends a UE that knows its name, and is confirmed with that
/// name and identifier 7. One that comes too early, and a message that the MME
/// never sends, is an error and changes nothing.
pub proof fn ue_confirms_its_release(
    ue: UeView,
    mme_ue_s1ap_id: u32,
    enb_ue_s1ap_id: u32,
    cause: S1apCause,
    msg: S1apMessageView,
)
    ensures
        ({
            let (next, r) = ue_step(
                ue,
                S1apMessageView::UeContextReleaseCommand { mme_ue_s1ap_id, enb_ue_s1ap_id, cause },
            );
            &&& next == ue
            &&& ue.mme_ue_s1ap_id is Some ==> r == Ok::<UeStepView, UeErrorView>(
                UeStepView {
                    heard: HeardView::ReleaseCommand { cause },
                    send: seq![
                        S1apMessageView::UeContextReleaseComplete {
                            mme_ue_s1ap_id: ue.mme_ue_s1ap_id->0,
                            enb_ue_s1ap_id: 7,
                        },
                    ],
                    next: NextView::Done,
                },
            )
            &&& ue.mme_ue_s1ap_id is None ==> r == Err::<UeStepView, UeErrorView>(UeErrorView::ReleaseTooEarly)
        }),
        !(msg is DownlinkNasTransport) && !(msg is InitialContextSetupRequest) && !(msg is UeContextReleaseCommand)
            ==> ue_step(ue, msg) == (ue, Err::<UeStepView, UeErrorView>(UeErrorView::UnexpectedS1ap)),
{
    reveal(ue_step);
}

// ── The node ──────────────────────────────────────────────────────────────────

/// Replies go out in order, each as its octets. One that has no encoding ends
/// them, and its error is reported.
pub proof fn replies_go_out_in_order(messages: Seq<S1apMessageView>, n: int)
    requires
        0 <= n <= messages.len(),
        forall|i: int| 0 <= i < n ==> wire::encodable(#[trigger] messages[i]),
        n < messages.len() ==> !wire::encodable(messages[n]),
    ensures
        encoded(messages).len() == n,
        forall|i: int| 0 <= i < n ==> #[trigger] encoded(messages)[i] == wire::octets(messages[i]),
        n == messages.len() ==> encode_failure(messages) is None,
        n < messages.len() ==> encode_failure(messages) == Some(
            ProtoError::MalformedS1ap {
                reason: if wire::supported(messages[n]) {
                    wire::REASON_NOT_ENCODABLE
                } else {
                    wire::REASON_UNSUPPORTED_MESSAGE
                },
            },
        ),
    decreases messages.len(),
{
    if messages.len() > 0 && n > 0 {
        let rest = messages.subrange(1, messages.len() as int);
        assert forall|i: int| 0 <= i < n - 1 implies wire::encodable(#[trigger] rest[i]) by {
            assert(rest[i] == messages[i + 1]);
        }
        replies_go_out_in_order(rest, n - 1);
        assert(encoded(messages) == seq![wire::octets(messages[0])] + encoded(rest));
        assert forall|i: int| 0 <= i < n implies #[trigger] encoded(messages)[i] == wire::octets(messages[i]) by {
            if i > 0 {
                assert(encoded(messages)[i] == encoded(rest)[i - 1]);
                assert(rest[i - 1] == messages[i]);
            }
        }
    }
}

/// A message of the link is decoded, taken to the MME, and its events to the
/// sessions; octets that are no message are dropped; the other events of the
/// link change nothing.
pub proof fn node_processes(node: MmeNodeView, octets: Seq<u8>, reason: Seq<char>, rand: Seq<u8>)
    ensures
        node_step(node, None, rand) == (node, MmeOutputView::Closed),
        node_step(node, Some(LinkEventView::Connected), rand) == (node, MmeOutputView::Established),
        node_step(node, Some(LinkEventView::Lost { reason }), rand) == (node, MmeOutputView::Lost { reason }),
        match wire::message(octets) {
            Err(e) => node_step(node, Some(LinkEventView::Message(octets)), rand) == (node, MmeOutputView::BadPdu(e)),
            Ok(msg) => {
                let (next, out) = node_step(node, Some(LinkEventView::Message(octets)), rand);
                let step = s1ap_step(node.mme, msg, rand);
                &&& next.mme == step.mme
                &&& next.sessions == node.sessions.apply_all_upf(step.events)
                &&& out matches MmeOutputView::Processed { summary, events, replies, failed } && summary
                    == summary_of(msg) && events == step.events && replies == encoded(step.messages) && failed
                    == encode_failure(step.messages)
            },
        },
{
}

/// The names by which messages are logged.
pub proof fn summaries_are_names(msg: S1apMessageView)
    ensures
        summary_of(msg) == match msg {
            S1apMessageView::InitialUeMessage(_) => "InitialUeMessage",
            S1apMessageView::UplinkNasTransport(_) => "UplinkNasTransport",
            S1apMessageView::DownlinkNasTransport(_) => "DownlinkNasTransport",
            S1apMessageView::InitialContextSetupRequest(_) => "InitialContextSetupRequest",
            S1apMessageView::InitialContextSetupResponse(_) => "InitialContextSetupResponse",
            S1apMessageView::UeContextReleaseCommand { .. } => "UeContextReleaseCommand",
            S1apMessageView::UeContextReleaseComplete { .. } => "UeContextReleaseComplete",
            _ => "(other S1AP message)",
        },
{
}

/// A new node has the subscription of IMSI 901700000002, with SQN 0, its
/// gateway, and no sessions.
pub proof fn new_node_serves_the_ue(upf_ip: Seq<u8>, k: Seq<u8>, opc: Seq<u8>, imsi: u64)
    ensures
        ({
            let node = fresh_node(upf_ip, k, opc);
            &&& node.mme.phase3_upf == Some(upf_ip)
            &&& node.mme.hss.contains_key(imsi) <==> imsi == 901_700_000_002
            &&& node.mme.hss.contains_key(imsi) ==> node.mme.hss[imsi].k == k && node.mme.hss[imsi].opc == opc
                && node.mme.hss[imsi].sqn == 0
            &&& node.mme.teids.first() == 0x0001_0000
            &&& node.mme.world.slots.len() == 0 && node.mme.registry.dom() == Set::<u64>::empty()
            &&& node.sessions.sessions.dom() == Set::<u32>::empty()
        }),
{
}

// ── The command line ──────────────────────────────────────────────────────────

/// The role that a command line without a faulty option asks for: both sides
/// unless it says otherwise, and the MME at 127.0.0.1:36412 unless it says
/// otherwise. The UE needs both endpoints.
pub proof fn roles_are_read(args: Seq<Seq<char>>)
    ensures
        known_options() == seq!["--role"@, "--bind"@, "--mme"@],
        first_error(args, known_options(), 0) is Some ==> role_of(args) == Err::<RoleView, ArgsErrorView>(
            ArgsErrorView::Options(first_error(args, known_options(), 0)->0),
        ),
        first_error(args, known_options(), 0) is None ==> {
            let role = value_of(args, "--role"@);
            let bind = value_of(args, "--bind"@);
            let mme = value_of(args, "--mme"@);
            let here = match bind {
                None => None,
                Some(s) => endpoint_text(encode_utf8(s)),
            };
            let there = match mme {
                None => None,
                Some(s) => endpoint_text(encode_utf8(s)),
            };
            let r = role_of(args);
            &&& role is None || role->0 == "both"@ ==> r == Ok::<RoleView, ArgsErrorView>(RoleView::Both)
            &&& role is Some && role->0 != "both"@ && role->0 == "mme"@ ==> {
                &&& bind is None ==> r == Ok::<RoleView, ArgsErrorView>(
                    RoleView::Mme { bind: EndpointView { ip: seq![127u8, 0, 0, 1], port: 36412 } },
                )
                &&& bind is Some && here is Some ==> r == Ok::<RoleView, ArgsErrorView>(
                    RoleView::Mme { bind: here->0 },
                )
                &&& bind is Some && here is None ==> r == Err::<RoleView, ArgsErrorView>(ArgsErrorView::BadBind)
            }
            &&& role is Some && role->0 != "both"@ && role->0 != "mme"@ && role->0 == "ue"@ ==> {
                &&& bind is None ==> r == Err::<RoleView, ArgsErrorView>(ArgsErrorView::UeNeedsBind)
                &&& bind is Some && here is None ==> r == Err::<RoleView, ArgsErrorView>(ArgsErrorView::BadBind)
                &&& here is Some && mme is None ==> r == Err::<RoleView, ArgsErrorView>(ArgsErrorView::UeNeedsMme)
                &&& here is Some && mme is Some && there is None ==> r == Err::<RoleView, ArgsErrorView>(
                    ArgsErrorView::BadMme,
                )
                &&& here is Some && there is Some ==> r == Ok::<RoleView, ArgsErrorView>(
                    RoleView::Ue { bind: here->0, mme: there->0 },
                )
            }
            &&& role is Some && role->0 != "both"@ && role->0 != "mme"@ && role->0 != "ue"@ ==> r == Err::<
                RoleView,
                ArgsErrorView,
            >(ArgsErrorView::UnknownRole(role->0))
        },
{
    assert(crate::mme_sim::args::MME_BIND_IP@ =~= seq![127u8, 0, 0, 1]);
}

/// The names of the roles differ, so that each can be asked for.
pub proof fn role_names_differ()
    ensures
        "both"@ != "mme"@,
        "both"@ != "ue"@,
        "mme"@ != "ue"@,
{
    reveal_strlit("both");
    reveal_strlit("mme");
    reveal_strlit("ue");
    assert("both"@.len() == 4 && "mme"@.len() == 3 && "ue"@.len() == 2);
}

} // verus!
