//! The simulations: UEs and core nodes that are given each other's octets.

use bytes::Bytes;
use midn_core::error::ProtoError;
use midn_core::gtp::encapsulate;
use midn_core::hss::{key_from_hex, KeyFormatError};
use midn_core::midn_sim::gnb::{dispatch, expect_connected, ue_slot, ConnectError, Dispatch};
use midn_core::midn_sim::labels::{gnb_label, ue_label};
use midn_core::midn_sim::node::{ngap_summary, AmfNode, AmfOutput};
use midn_core::midn_sim::ue::{Heard, Next, Ue, UeError};
use midn_core::milenage::MilenageContext;
use midn_core::mme_sim::node::{s1ap_summary, MmeNode, MmeOutput};
use midn_core::mme_sim::ue as lte;
use midn_core::nas5gs::encode_registration_complete;
use midn_core::ngap::{
    decode_ngap_pdu, encode_ngap_pdu, NgapCause, NgapDownlinkNasTransport, NgapInitialContextSetupRequest, NgapMessage,
    NgapUeContextReleaseComplete,
};
use midn_core::s1ap::{decode_s1ap_pdu, encode_s1ap_pdu, S1apMessage, UeContextReleaseComplete};
use midn_core::sessions::echo;
use midn_core::transport::LinkEvent;

const K: &str = "465b5ce8b199b49faa5f0a2ee238a6bc";
const OPC: &str = "cd63cb71954a9f4e48a5994e37a02baf";
const CORE: [u8; 4] = [127, 0, 0, 1];
const RAN: [u8; 4] = [127, 0, 0, 2];
const RAND: [u8; 16] = [0x3D; 16];

fn sim() -> MilenageContext {
    MilenageContext::new(key_from_hex(K).unwrap(), key_from_hex(OPC).unwrap())
}

fn new_ue(index: u32) -> Ue {
    let slot = ue_slot(index);
    Ue::new(slot.ran_ue_ngap_id, slot.dl_teid, slot.imsi, RAN, sim())
}

// ── 5G ────────────────────────────────────────────────────────────────────────

fn tell_amf(node: &mut AmfNode, msg: &NgapMessage) -> Vec<Bytes> {
    assert!(node.has_room());
    let octets = encode_ngap_pdu(msg).unwrap();
    match node.on_link_event(Some(LinkEvent::Message(octets)), RAND) {
        AmfOutput::Processed { summary, replies, failed, .. } => {
            assert_eq!(summary, ngap_summary(msg));
            assert!(failed.is_none());
            replies
        }
        other => panic!("expected Processed, got {other:?}"),
    }
}

/// Runs a UE until it checks the user plane.
fn attach_5g(node: &mut AmfNode, ue: &mut Ue, n_ues: u32, index: u32) -> (u32, NgapMessage) {
    let mut replies = tell_amf(node, &ue.start());
    loop {
        assert_eq!(replies.len(), 1);
        let msg = match dispatch(n_ues, Some(LinkEvent::Message(replies.remove(0)))) {
            Dispatch::Deliver { index: to, msg } => {
                assert_eq!(to, index);
                msg
            }
            other => panic!("expected a delivery, got {other:?}"),
        };
        let step = ue.on_message(msg).unwrap();
        for m in &step.send {
            replies.extend(tell_amf(node, m));
        }
        if let Next::RoundTrip { upf_addr, ul_teid, farewell } = step.next {
            assert_eq!(upf_addr, CORE);
            return (ul_teid, farewell);
        }
    }
}

#[test]
fn one_ue_registers_uses_the_user_plane_and_deregisters() {
    let mut node = AmfNode::new(CORE, 1, K, OPC).unwrap();
    let mut ue = new_ue(0);
    assert!(matches!(node.on_link_event(Some(LinkEvent::Connected), RAND), AmfOutput::Established));
    let (ul_teid, farewell) = attach_5g(&mut node, &mut ue, 1, 0);
    assert_eq!(
        echo(&node.sessions, &encapsulate(ul_teid, b"hi")),
        Some((RAN, encapsulate(ue_slot(0).dl_teid, b"hi")))
    );
    let replies = tell_amf(&mut node, &farewell);
    assert_eq!(replies.len(), 2);
    let step = ue.on_message(decode_ngap_pdu(&replies[0]).unwrap()).unwrap();
    assert!(matches!(step.heard, Heard::DeregistrationAccept));
    let step = ue.on_message(decode_ngap_pdu(&replies[1]).unwrap()).unwrap();
    assert!(matches!(
        step.heard,
        Heard::ReleaseCommand { amf_ue_ngap_id: 0, ran_ue_ngap_id: 7, cause: NgapCause::NasDeregister }
    ));
    assert!(matches!(step.next, Next::Done));
    assert!(tell_amf(&mut node, &step.send[0]).is_empty());
    assert_eq!(node.amf.subscriber_count(), 0);
    assert_eq!(echo(&node.sessions, &encapsulate(ul_teid, b"hi")), None);
}

#[test]
fn three_ues_share_one_connection() {
    let mut node = AmfNode::new(CORE, 3, K, OPC).unwrap();
    let mut tunnels: Vec<u32> = Vec::new();
    let mut ues: Vec<(Ue, NgapMessage)> = Vec::new();
    for index in 0..3 {
        let mut ue = new_ue(index);
        let (ul_teid, farewell) = attach_5g(&mut node, &mut ue, 3, index);
        tunnels.push(ul_teid);
        ues.push((ue, farewell));
    }
    assert_eq!(node.amf.subscriber_count(), 3);
    for index in 0..3u32 {
        assert_eq!(
            echo(&node.sessions, &encapsulate(tunnels[index as usize], b"hi")),
            Some((RAN, encapsulate(ue_slot(index).dl_teid, b"hi")))
        );
    }
    // Each deregisters, the one in the middle first.
    for (left, number) in [(2, 1u32), (1, 0), (0, 2)] {
        let (ue, farewell) = &mut ues[number as usize];
        let replies = tell_amf(&mut node, farewell);
        assert_eq!(replies.len(), 2);
        let mut done = false;
        for reply in replies {
            let step = match dispatch(3, Some(LinkEvent::Message(reply))) {
                Dispatch::Deliver { index, msg } => {
                    assert_eq!(index, number);
                    ue.on_message(msg).unwrap()
                }
                other => panic!("expected a delivery, got {other:?}"),
            };
            for m in &step.send {
                assert!(tell_amf(&mut node, m).is_empty());
            }
            done = matches!(step.next, Next::Done);
        }
        assert!(done);
        assert_eq!(node.amf.subscriber_count(), left);
        assert_eq!(echo(&node.sessions, &encapsulate(tunnels[number as usize], b"hi")), None);
    }
}

#[test]
fn octets_that_are_no_message_are_dropped_by_the_amf() {
    let mut node = AmfNode::new(CORE, 1, K, OPC).unwrap();
    let junk = Some(LinkEvent::Message(Bytes::from_static(b"junk")));
    assert!(matches!(node.on_link_event(junk, RAND), AmfOutput::BadPdu(_)));
    let lost = Some(LinkEvent::Lost { reason: "gone".to_string() });
    assert!(matches!(node.on_link_event(lost, RAND), AmfOutput::Lost { reason } if reason == "gone"));
    assert!(matches!(node.on_link_event(None, RAND), AmfOutput::Closed));
}

#[test]
fn nodes_need_keys_of_32_digits() {
    assert!(matches!(AmfNode::new(CORE, 1, "00", OPC), Err(KeyFormatError::WrongLength { got: 2 })));
    assert!(matches!(MmeNode::new(CORE, K, "0"), Err(KeyFormatError::WrongLength { got: 1 })));
}

#[test]
fn messages_go_to_the_ue_that_they_name() {
    let downlink = |ran_ue_ngap_id: u32| {
        let msg = NgapMessage::DownlinkNasTransport(NgapDownlinkNasTransport {
            amf_ue_ngap_id: 0,
            ran_ue_ngap_id,
            nas_pdu: Bytes::from_static(b"x"),
        });
        Some(LinkEvent::Message(encode_ngap_pdu(&msg).unwrap()))
    };
    let release = |ran_ue_ngap_id: u32| {
        let msg = NgapMessage::UeContextReleaseCommand {
            amf_ue_ngap_id: 0,
            ran_ue_ngap_id,
            cause: NgapCause::NasDeregister,
        };
        Some(LinkEvent::Message(encode_ngap_pdu(&msg).unwrap()))
    };
    let nameless = || {
        let msg = NgapMessage::UeContextReleaseComplete(NgapUeContextReleaseComplete {
            amf_ue_ngap_id: 0,
            ran_ue_ngap_id: 7,
        });
        Some(LinkEvent::Message(encode_ngap_pdu(&msg).unwrap()))
    };
    assert!(matches!(dispatch(2, downlink(8)), Dispatch::Deliver { index: 1, .. }));
    assert!(matches!(dispatch(2, downlink(9)), Dispatch::UnknownUe { id: 9, .. }));
    assert!(matches!(dispatch(1, release(7)), Dispatch::Deliver { index: 0, .. }));
    assert!(matches!(dispatch(3, release(9)), Dispatch::Deliver { index: 2, .. }));
    assert!(matches!(dispatch(3, release(10)), Dispatch::UnknownUe { id: 10, .. }));
    assert!(matches!(dispatch(1, nameless()), Dispatch::NoUeId { .. }));
    assert!(matches!(dispatch(2, nameless()), Dispatch::NoUeId { .. }));
    assert!(matches!(dispatch(2, Some(LinkEvent::Connected)), Dispatch::Ignore));
    assert!(matches!(dispatch(2, Some(LinkEvent::Message(Bytes::new()))), Dispatch::BadPdu(_)));
    let lost = Some(LinkEvent::Lost { reason: "gone".to_string() });
    assert!(matches!(dispatch(2, lost), Dispatch::Lost { .. }));
    assert!(matches!(dispatch(2, None), Dispatch::Closed));
}

#[test]
fn a_link_must_first_come_up() {
    assert!(expect_connected(Some(LinkEvent::Connected)).is_ok());
    let lost = Some(LinkEvent::Lost { reason: "gone".to_string() });
    assert!(matches!(expect_connected(lost), Err(ConnectError::Lost { reason }) if reason == "gone"));
    let early = Some(LinkEvent::Message(Bytes::new()));
    assert!(matches!(expect_connected(early), Err(ConnectError::Unexpected)));
    assert!(matches!(expect_connected(None), Err(ConnectError::Closed)));
}

#[test]
fn labels_number_the_ues() {
    assert_eq!(gnb_label(1), "[UE ]");
    assert_eq!(gnb_label(2), "[gNB]");
    assert_eq!(ue_label(1, 0), "[UE ]");
    assert_eq!(ue_label(2, 0), "[UE1]");
    assert_eq!(ue_label(12, 11), "[UE12]");
    assert_eq!(ue_label(0, u32::MAX), "[UE4294967296]");
}

fn down(ran_ue_ngap_id: u32, nas_pdu: Bytes) -> NgapMessage {
    NgapMessage::DownlinkNasTransport(NgapDownlinkNasTransport { amf_ue_ngap_id: 0, ran_ue_ngap_id, nas_pdu })
}

fn setup_request(nas_pdu: Option<Bytes>) -> NgapMessage {
    NgapMessage::InitialContextSetupRequest(NgapInitialContextSetupRequest {
        amf_ue_ngap_id: 0,
        ran_ue_ngap_id: 7,
        pdu_sessions: vec![],
        nas_pdu,
        ue_ambr: (1, 1),
        security_key: [0; 32],
    })
}

#[test]
fn a_ue_gives_up_on_what_it_cannot_use() {
    let mut ue = new_ue(0);
    let r = ue.on_message(down(8, Bytes::new()));
    assert!(matches!(r, Err(UeError::WrongUe { got: 8, expected: 7 })));
    let release = NgapMessage::UeContextReleaseCommand {
        amf_ue_ngap_id: 0,
        ran_ue_ngap_id: 9,
        cause: NgapCause::NasDeregister,
    };
    assert!(matches!(ue.on_message(release), Err(UeError::WrongUe { got: 9, expected: 7 })));
    assert!(matches!(ue.on_message(ue.start()), Err(UeError::UnexpectedNgap)));
    assert!(matches!(ue.on_message(down(7, Bytes::new())), Err(UeError::Nas(ProtoError::TooShort { .. }))));
    assert!(matches!(ue.on_message(down(7, encode_registration_complete())), Err(UeError::UnexpectedNas)));
    assert!(matches!(ue.on_message(down(7, Bytes::from_static(&[0x7E, 2]))), Err(UeError::NoKamf)));
    assert!(matches!(ue.on_message(setup_request(None)), Err(UeError::NoKamf)));
    ue.kamf = Some([5; 32]);
    assert!(matches!(ue.on_message(setup_request(None)), Err(UeError::NoNasPdu)));
    let unsigned = Bytes::from_static(&[0x7E, 2, 0, 0, 0, 0, 0, 1]);
    assert!(matches!(ue.on_message(setup_request(Some(unsigned.clone()))), Err(UeError::NotVerified)));
    assert!(matches!(ue.on_message(down(7, unsigned)), Err(UeError::NotVerified)));
}

// ── LTE ───────────────────────────────────────────────────────────────────────

fn tell_mme(node: &mut MmeNode, msg: &S1apMessage) -> (Vec<Bytes>, Option<ProtoError>) {
    assert!(node.has_room());
    let octets = encode_s1ap_pdu(msg).unwrap();
    match node.on_link_event(Some(LinkEvent::Message(octets)), RAND) {
        MmeOutput::Processed { summary, replies, failed, .. } => {
            assert_eq!(summary, s1ap_summary(msg));
            (replies, failed)
        }
        other => panic!("expected Processed, got {other:?}"),
    }
}

#[test]
fn lte_ue_attaches_uses_the_user_plane_and_detaches() {
    let mut node = MmeNode::new(CORE, K, OPC).unwrap();
    let mut ue = lte::Ue::new(lte::TEST_IMSI, RAN, sim());
    assert!(matches!(node.on_link_event(Some(LinkEvent::Connected), RAND), MmeOutput::Established));
    let (mut replies, _) = tell_mme(&mut node, &ue.start());
    let (ul_teid, farewell) = loop {
        let event = Some(LinkEvent::Message(replies.remove(0)));
        let step = ue.on_link_event(event).unwrap().unwrap();
        for m in &step.send {
            let (more, failed) = tell_mme(&mut node, m);
            assert!(failed.is_none());
            replies.extend(more);
        }
        if let lte::Next::RoundTrip { upf_addr, ul_teid, farewell } = step.next {
            assert_eq!(upf_addr, CORE);
            break (ul_teid, farewell);
        }
    };
    assert_eq!(
        echo(&node.sessions, &encapsulate(ul_teid, b"hi")),
        Some((RAN, encapsulate(lte::MOCK_DL_TEID, b"hi")))
    );
    let (replies, failed) = tell_mme(&mut node, &farewell);
    assert_eq!(replies.len(), 1);
    assert!(matches!(failed, Some(ProtoError::MalformedS1ap { .. })), "a release command has no wire encoding");
    let step = ue.on_message(decode_s1ap_pdu(&replies[0]).unwrap()).unwrap();
    assert!(matches!(step.heard, lte::Heard::DetachAccept));
    let id = ue.mme_ue_s1ap_id.unwrap();
    let done = S1apMessage::UeContextReleaseComplete(UeContextReleaseComplete { mme_ue_s1ap_id: id, enb_ue_s1ap_id: 7 });
    let (_, events) = node.mme.process_s1ap(done, RAND);
    assert_eq!(events.len(), 1);
    assert_eq!(node.mme.subscriber_count(), 0);
}

#[test]
fn lte_link_events_reach_the_ue() {
    let mut ue = lte::Ue::new(lte::TEST_IMSI, RAN, sim());
    assert!(matches!(ue.on_link_event(Some(LinkEvent::Connected)), Ok(None)));
    let lost = Some(LinkEvent::Lost { reason: "gone".to_string() });
    assert!(matches!(ue.on_link_event(lost), Err(lte::UeError::Lost { reason }) if reason == "gone"));
    assert!(matches!(ue.on_link_event(None), Err(lte::UeError::Closed)));
    let junk = Some(LinkEvent::Message(Bytes::from_static(b"junk")));
    assert!(matches!(ue.on_link_event(junk), Err(lte::UeError::S1ap(_))));
    assert!(matches!(ue.on_message(ue.start()), Err(lte::UeError::UnexpectedS1ap)));
}

#[test]
fn octets_that_are_no_message_are_dropped_by_the_mme() {
    let mut node = MmeNode::new(CORE, K, OPC).unwrap();
    let junk = Some(LinkEvent::Message(Bytes::from_static(b"junk")));
    assert!(matches!(node.on_link_event(junk, RAND), MmeOutput::BadPdu(_)));
    let lost = Some(LinkEvent::Lost { reason: "gone".to_string() });
    assert!(matches!(node.on_link_event(lost, RAND), MmeOutput::Lost { reason } if reason == "gone"));
    assert!(matches!(node.on_link_event(None, RAND), MmeOutput::Closed));
}
