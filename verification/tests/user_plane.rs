//! GTP-U, sessions, and the check of the user plane.

use midn_core::amf::N3Event;
use midn_core::gtp::{encapsulate, GtpuHeader, GTPU_MSG_GPDU, GTP_PORT};
use midn_core::midn_sim::gnb::{demux, ue_slot, UserPlane};
use midn_core::mme::UpfEvent;
use midn_core::round_trip::{on_event, uplink_gpdu, RoundTripAction, RoundTripEvent, MAX_ATTEMPTS, PAYLOAD};
use midn_core::sessions::{echo, forward_downlink, forward_uplink, SessionManager};

const UE: [u8; 4] = [10, 45, 0, 7];
const RAN: [u8; 4] = [172, 16, 0, 5];

#[test]
fn gpdu_on_the_wire() {
    assert_eq!(GTP_PORT, 2152);
    assert_eq!(
        encapsulate(0xAABB_CCDD, b"ab"),
        vec![0x30, 0xFF, 0x00, 0x02, 0xAA, 0xBB, 0xCC, 0xDD, b'a', b'b']
    );
    let header = GtpuHeader::new_gpdu(0x0102_0304, 0x0506);
    assert_eq!(header.to_bytes(), [0x30, 0xFF, 0x05, 0x06, 0x01, 0x02, 0x03, 0x04]);
}

#[test]
fn datagram_is_read_back() {
    let gpdu = encapsulate(7, b"payload");
    let (h, payload) = GtpuHeader::parse(&gpdu).unwrap();
    assert_eq!(h, GtpuHeader { message_type: GTPU_MSG_GPDU, length: 7, teid: 7 });
    assert_eq!(payload, b"payload");
    let mut longer = gpdu.clone();
    longer.push(0);
    assert_eq!(GtpuHeader::parse(&longer).unwrap().1, b"payload");
    assert!(GtpuHeader::parse(&gpdu[..14]).is_none());
    assert!(GtpuHeader::parse(&gpdu[..7]).is_none());
    let mut other_version = gpdu;
    other_version[0] = 0x50;
    assert!(GtpuHeader::parse(&other_version).is_none());
}

fn session() -> SessionManager {
    let mut m = SessionManager::new();
    m.create_session_with_teid(0x2_0000, 3, 901_700_000_001, UE, [0; 4], 9);
    m
}

#[test]
fn packet_comes_back_once_the_session_is_complete() {
    let mut m = session();
    let up = encapsulate(0x2_0000, b"hello");
    assert_eq!(forward_uplink(&m, &up), Some((UE, b"hello".to_vec())));
    assert_eq!(echo(&m, &up), None, "the downlink side is not known yet");
    assert!(m.update_bearer_info(0x2_0000, 0xAABB_CCDD, RAN));
    assert_eq!(echo(&m, &up), Some((RAN, encapsulate(0xAABB_CCDD, b"hello"))));
    assert_eq!(forward_downlink(&m, &UE, b"x"), Some((RAN, encapsulate(0xAABB_CCDD, b"x"))));
    assert!(m.remove_session(0x2_0000));
    assert_eq!(echo(&m, &up), None);
    assert!(!m.remove_session(0x2_0000));
}

#[test]
fn packets_without_a_session_are_dropped() {
    let m = session();
    assert_eq!(forward_uplink(&m, &encapsulate(1, b"x")), None);
    assert_eq!(forward_uplink(&m, b"junk"), None);
    let mut echo_request = encapsulate(0x2_0000, b"x");
    echo_request[1] = 1;
    assert_eq!(forward_uplink(&m, &echo_request), None);
    assert_eq!(forward_downlink(&m, &[1, 2, 3, 4], b"x"), None);
}

#[test]
fn sessions_are_found_both_ways() {
    let m = session();
    let s = m.lookup_ul(0x2_0000).unwrap();
    assert_eq!((s.entity_id, s.imsi, s.ue_ip, s.dl_teid, s.qos), (3, 901_700_000_001, UE, 0, 9));
    assert_eq!(m.lookup_dl(&UE).unwrap().entity_id, 3);
    assert!(m.lookup_ul(1).is_none() && m.lookup_dl(&RAN).is_none());
}

#[test]
fn events_of_the_amf_are_applied() {
    let mut m = SessionManager::new();
    let update = N3Event::UpdateBearer { ul_teid: 5, dl_teid: 6, gnb_addr: RAN };
    assert!(!m.apply_n3_event(&update), "there is no session yet");
    assert!(m.apply_n3_event(&N3Event::CreateSession {
        ul_teid: 5,
        entity_id: 1,
        imsi: 2,
        pdu_session_id: 1,
        qfi: 9,
        ue_ip: UE,
        gnb_addr: [0; 4],
    }));
    assert!(m.apply_n3_event(&update));
    assert_eq!(m.lookup_ul(5).unwrap().dl_teid, 6);
    assert!(m.apply_n3_event(&N3Event::RemoveSession { ul_teid: 5 }));
    assert!(m.lookup_ul(5).is_none());
}

#[test]
fn events_of_the_mme_are_applied() {
    let mut m = SessionManager::new();
    assert!(m.apply_upf_event(&UpfEvent::CreateSession {
        ul_teid: 5,
        entity_id: 1,
        imsi: 2,
        qci: 9,
        ue_ip: UE,
        enb_addr: [0; 4],
    }));
    assert!(m.apply_upf_event(&UpfEvent::UpdateBearer { ul_teid: 5, dl_teid: 6, enb_addr: RAN }));
    assert!(!m.apply_upf_event(&UpfEvent::UpdateBearer { ul_teid: 7, dl_teid: 6, enb_addr: RAN }));
    assert_eq!(m.lookup_ul(5).unwrap().ran_addr, RAN);
    assert!(m.apply_upf_event(&UpfEvent::RemoveSession { ul_teid: 5 }));
    assert!(m.lookup_ul(5).is_none());
}

#[test]
fn round_trip_is_tried_five_times() {
    assert_eq!(MAX_ATTEMPTS, 5);
    assert_eq!(&PAYLOAD[..], b"real user data over a real GTP-U tunnel");
    assert_eq!(uplink_gpdu(9), encapsulate(9, &PAYLOAD));
    let mut attempt = 1;
    while let RoundTripAction::Send { attempt: next } = on_event(attempt, &RoundTripEvent::TimedOut) {
        assert_eq!(next, attempt + 1);
        attempt = next;
    }
    assert_eq!(attempt, 5);
    assert_eq!(on_event(5, &RoundTripEvent::TimedOut), RoundTripAction::NoEcho);
    assert_eq!(on_event(5, &RoundTripEvent::Received(PAYLOAD.to_vec())), RoundTripAction::Confirmed);
    assert_eq!(on_event(1, &RoundTripEvent::Received(b"other".to_vec())), RoundTripAction::Mismatch);
}

#[test]
fn downlink_packets_go_to_the_ue_of_their_teid() {
    let teid = ue_slot(2).dl_teid;
    match demux(3, &encapsulate(teid, b"x")) {
        UserPlane::Deliver { index: 2, payload } => assert_eq!(payload, b"x"),
        other => panic!("expected a delivery, got {other:?}"),
    }
    assert!(matches!(demux(2, &encapsulate(teid, b"x")), UserPlane::UnknownTeid { teid: t } if t == teid));
    assert!(matches!(demux(2, b"junk"), UserPlane::Malformed));
}
