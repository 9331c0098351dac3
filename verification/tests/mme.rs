//! The MME: attach with EPS-AKA, the EPS bearer, and detach.

use bytes::Bytes;
use midn_core::ecs::{AuthFailReason, AuthState, IdentityComponent, SecurityContext, World};
use midn_core::hss::key_from_hex;
use midn_core::kdf::derive_kasme;
use midn_core::milenage::{mask_sqn, MilenageContext};
use midn_core::mme::detach::handle_detach_request;
use midn_core::mme::{Mme, UpfEvent};
use midn_core::nas::{
    decode_nas, decode_protected_downlink, derive_nas_keys, eea2_apply, eia2_verify_mac, encode_attach_complete,
    encode_attach_request, encode_auth_response, encode_detach_request, encode_sec_mode_complete, Direction,
    NasEeaAlgorithm, NasEiaAlgorithm, NasPdu, NasSecurityContext, NAS_BEARER,
};
use midn_core::s1ap::{
    ErabSetupItem, InitialContextSetupResponse, InitialUeMessage, S1apCause, S1apMessage, UeContextReleaseComplete,
    UplinkNasTransport,
};

fn world_with_entity() -> (World, u32) {
    let mut w = World::new();
    let entity = w.spawn();
    w.insert_identity(entity, IdentityComponent { imsi: 1, enb_ue_s1ap_id: 0, ue_ip: [0; 4] });
    w.insert_security(entity, SecurityContext::new_empty());
    (w, entity)
}

#[test]
fn normal_detach_sends_accept_then_release_command() {
    let (mut world, entity) = world_with_entity();
    let nas_pdu = encode_detach_request(1, false, 0, &[0; 10]);
    let out = handle_detach_request(&mut world, 1, entity, &nas_pdu);

    assert_eq!(out.len(), 2, "expect DetachAccept + UeContextReleaseCommand");
    assert!(matches!(out[0], S1apMessage::DownlinkNasTransport(_)));
    assert!(matches!(
        out[1],
        S1apMessage::UeContextReleaseCommand { mme_ue_s1ap_id, enb_ue_s1ap_id: 1, cause: S1apCause::NasDetach }
        if mme_ue_s1ap_id == entity
    ));
}

#[test]
fn switch_off_detach_skips_accept() {
    let (mut world, entity) = world_with_entity();
    let nas_pdu = encode_detach_request(1, true, 0, &[0; 10]);
    let out = handle_detach_request(&mut world, 1, entity, &nas_pdu);

    assert_eq!(out.len(), 1, "switch-off skips DetachAccept");
    assert!(matches!(
        out[0],
        S1apMessage::UeContextReleaseCommand { mme_ue_s1ap_id, enb_ue_s1ap_id: 1, cause: S1apCause::NasDetach }
        if mme_ue_s1ap_id == entity
    ));
}

#[test]
fn detach_for_unknown_entity_is_noop() {
    let mut world = World::new();
    let nas_pdu = encode_detach_request(1, false, 0, &[0; 10]);
    let out = handle_detach_request(&mut world, 1, 999, &nas_pdu);
    assert!(out.is_empty());
}

#[test]
fn detach_bad_nas_pdu_is_noop() {
    let (mut world, entity) = world_with_entity();
    let out = handle_detach_request(&mut world, 1, entity, &[0xFF, 0xFF]);
    assert!(out.is_empty());
}

#[test]
fn detach_accept_is_protected_when_nas_security_is_active() {
    let kasme = [0x5Au8; 32];
    let mut world = World::new();
    let entity = world.spawn();
    world.insert_identity(entity, IdentityComponent { imsi: 1, enb_ue_s1ap_id: 0, ue_ip: [0; 4] });
    world.insert_security(entity, SecurityContext::new_empty());
    world.set_nas_security(
        entity,
        NasSecurityContext::new(&kasme, NasEeaAlgorithm::Eea2, NasEiaAlgorithm::Eia2),
    );

    let nas_pdu = encode_detach_request(1, false, 0, &[0; 10]);
    let out = handle_detach_request(&mut world, 1, entity, &nas_pdu);

    assert_eq!(out.len(), 2);
    let envelope = match &out[0] {
        S1apMessage::DownlinkNasTransport(m) => m.nas_pdu.clone(),
        _ => panic!("expected DownlinkNasTransport"),
    };

    let sht = (envelope[0] >> 4) & 0x0F;
    assert_ne!(sht, 0, "DetachAccept should be protected once NAS security is active");

    let mac_i: [u8; 4] = envelope[1..5].try_into().unwrap();
    let count = envelope[5] as u32;
    let mut ciphertext = envelope[6..].to_vec();

    let (k_enc, k_int) = derive_nas_keys(&kasme, NasEeaAlgorithm::Eea2, NasEiaAlgorithm::Eia2);
    assert!(eia2_verify_mac(&k_int, count, NAS_BEARER, Direction::Downlink, &ciphertext, &mac_i));

    eea2_apply(&k_enc, count, NAS_BEARER, Direction::Downlink, &mut ciphertext);
    assert!(matches!(decode_nas(&ciphertext).unwrap(), NasPdu::DetachAccept));
}

// ── The state machine ─────────────────────────────────────────────────────────

const IMSI: u64 = 901_700_000_002;
const K: &str = "465b5ce8b199b49faa5f0a2ee238a6bc";
const OPC: &str = "cd63cb71954a9f4e48a5994e37a02baf";
const TAI: [u8; 5] = [0x00, 0x11, 0x22, 0x00, 0x01];
const RAND: [u8; 16] = [0x5C; 16];
const UPF: [u8; 4] = [10, 0, 0, 1];

fn process(mme: &mut Mme, msg: S1apMessage) -> (Vec<S1apMessage>, Vec<UpfEvent>) {
    assert!(mme.has_room());
    mme.process_s1ap(msg, RAND)
}

fn first(nas_pdu: Bytes) -> S1apMessage {
    S1apMessage::InitialUeMessage(InitialUeMessage {
        enb_ue_s1ap_id: 7,
        nas_pdu,
        tai: TAI,
        eutran_cgi: [0; 7],
        rrc_cause: 0,
    })
}

fn up(mme_ue_s1ap_id: u32, nas_pdu: Bytes) -> S1apMessage {
    S1apMessage::UplinkNasTransport(UplinkNasTransport {
        mme_ue_s1ap_id,
        enb_ue_s1ap_id: 7,
        nas_pdu,
        tai: TAI,
        eutran_cgi: [0; 7],
    })
}

fn one_downlink(out: Vec<S1apMessage>) -> (u32, Bytes) {
    assert_eq!(out.len(), 1);
    match &out[0] {
        S1apMessage::DownlinkNasTransport(m) => (m.mme_ue_s1ap_id, m.nas_pdu.clone()),
        other => panic!("expected DownlinkNasTransport, got {other:?}"),
    }
}

/// As far as the SecurityModeCommand; the UE derives Kasme by itself.
fn challenge_and_response(mme: &mut Mme) -> (u32, [u8; 32]) {
    let (out, _) = process(mme, first(encode_attach_request(IMSI, 1, 0)));
    let (id, pdu) = one_downlink(out);
    let d = match decode_nas(&pdu) {
        Ok(NasPdu::AuthenticationRequest(d)) => d,
        other => panic!("expected AuthenticationRequest, got {other:?}"),
    };
    assert_eq!(d.rand, RAND);
    let sim = MilenageContext::new(key_from_hex(K).unwrap(), key_from_hex(OPC).unwrap());
    let v = sim.generate_vector_with_rand(&[0; 6], &[0x80, 0x00], &d.rand);
    assert_eq!(d.autn, v.autn(&[0; 6], &[0x80, 0x00]));
    let (out, _) = process(mme, up(id, encode_auth_response(&v.res)));
    let (_, pdu) = one_downlink(out);
    assert!(matches!(decode_nas(&pdu), Ok(NasPdu::SecurityModeCommand(_))));
    let kasme = derive_kasme(&v.ck, &v.ik, &[0x00, 0x11, 0x22], &mask_sqn(&[0; 6], &v.ak));
    (id, kasme)
}

#[test]
fn attach_in_phase_2_ends_with_a_protected_accept() {
    let mut mme = Mme::new();
    mme.hss_mut().provision_hex(IMSI, K, OPC).unwrap();
    let (id, kasme) = challenge_and_response(&mut mme);
    let (out, events) = process(&mut mme, up(id, encode_sec_mode_complete()));
    assert!(events.is_empty());
    let (_, envelope) = one_downlink(out);
    let mut ue = NasSecurityContext::new(&kasme, NasEeaAlgorithm::Eea2, NasEiaAlgorithm::Eia2);
    let plain = decode_protected_downlink(&mut ue, &envelope, NAS_BEARER).unwrap();
    match decode_nas(&plain) {
        Ok(NasPdu::AttachAccept(d)) => assert_eq!(d.attach_result, 1),
        other => panic!("expected AttachAccept, got {other:?}"),
    }
    assert!(mme.world().is_authenticated(id));
}

#[test]
fn attach_in_phase_3_sets_up_a_bearer_and_detach_gives_it_back() {
    let mut mme = Mme::new().with_phase3(UPF);
    mme.hss_mut().provision_hex(IMSI, K, OPC).unwrap();
    let (id, kasme) = challenge_and_response(&mut mme);
    let (out, events) = process(&mut mme, up(id, encode_sec_mode_complete()));
    let teid = match &out[0] {
        S1apMessage::InitialContextSetupRequest(m) => {
            assert_eq!(m.security_key, kasme);
            assert_eq!(m.e_rabs.len(), 1);
            assert_eq!(m.e_rabs[0].transport_layer_addr, UPF);
            u32::from_be_bytes(m.e_rabs[0].gtp_teid)
        }
        other => panic!("expected InitialContextSetupRequest, got {other:?}"),
    };
    match &events[0] {
        UpfEvent::CreateSession { ul_teid, entity_id, imsi, .. } => {
            assert_eq!((*ul_teid, *entity_id, *imsi), (teid, id, IMSI));
        }
        other => panic!("expected CreateSession, got {other:?}"),
    }

    let confirm = S1apMessage::InitialContextSetupResponse(InitialContextSetupResponse {
        mme_ue_s1ap_id: id,
        enb_ue_s1ap_id: 7,
        e_rabs_setup: vec![ErabSetupItem {
            e_rab_id: 5,
            transport_layer_addr: [172, 16, 0, 5],
            gtp_teid: [0xAA, 0xBB, 0xCC, 0xDD],
        }],
        e_rabs_failed: vec![],
    });
    let (out, events) = process(&mut mme, confirm);
    assert!(out.is_empty());
    match &events[0] {
        UpfEvent::UpdateBearer { ul_teid, dl_teid, enb_addr } => {
            assert_eq!((*ul_teid, *dl_teid, *enb_addr), (teid, 0xAABB_CCDD, [172, 16, 0, 5]));
        }
        other => panic!("expected UpdateBearer, got {other:?}"),
    }

    let (out, events) = process(&mut mme, up(id, encode_attach_complete()));
    assert!(out.is_empty() && events.is_empty());

    let (out, _) = process(&mut mme, up(id, encode_detach_request(1, false, 0, &[0; 10])));
    assert_eq!(out.len(), 2);
    assert_eq!(mme.subscriber_count(), 1);

    let done = S1apMessage::UeContextReleaseComplete(UeContextReleaseComplete { mme_ue_s1ap_id: id, enb_ue_s1ap_id: 7 });
    let (_, events) = process(&mut mme, done);
    match &events[0] {
        UpfEvent::RemoveSession { ul_teid } => assert_eq!(*ul_teid, teid),
        other => panic!("expected RemoveSession, got {other:?}"),
    }
    assert_eq!(mme.subscriber_count(), 0);
    assert_eq!(mme.free_teid_count(), 1);
}

#[test]
fn wrong_res_fails_the_authentication() {
    let mut mme = Mme::new();
    mme.hss_mut().provision_hex(IMSI, K, OPC).unwrap();
    let (out, _) = process(&mut mme, first(encode_attach_request(IMSI, 1, 0)));
    let (id, _) = one_downlink(out);
    let (out, events) = process(&mut mme, up(id, encode_auth_response(&[0xFF; 8])));
    assert!(out.is_empty() && events.is_empty());
    assert_eq!(mme.world().auth_state(id), Some(AuthState::Failed(AuthFailReason::ResMismatch)));
}

#[test]
fn attach_of_an_unknown_subscriber_is_dropped() {
    let mut mme = Mme::new();
    let (out, events) = process(&mut mme, first(encode_attach_request(IMSI, 1, 0)));
    assert!(out.is_empty() && events.is_empty());
    assert_eq!(mme.subscriber_count(), 0);
    let (out, _) = process(&mut mme, first(encode_attach_complete()));
    assert!(out.is_empty());
}
