//! The AMF: registration with 5G-AKA, the PDU session, and deregistration.

use bytes::Bytes;
use midn_core::amf::deregistration::handle_deregistration_request;
use midn_core::amf::registration::{
    ct_eq_16, derive_key_chain, handle_security_mode_complete, placeholder_guti, resolve_suci_to_imsi,
    start_registration, suci_for_imsi,
};
use midn_core::amf::{Amf, N3Event};
use midn_core::ecs::{AuthFailReason, AuthState, IdentityComponent, Nas5gsAkaContext, World};
use midn_core::hss::key_from_hex;
use midn_core::kdf::{derive_kamf, derive_kausf, derive_kseaf, derive_res_star, serving_network_name};
use midn_core::milenage::MilenageContext;
use midn_core::nas5gs::{
    decode_nas5gs, decode_protected_downlink, encode_auth_response, encode_deregistration_request,
    encode_identity_response_suci, encode_protected_uplink, encode_registration_complete, encode_registration_request,
    encode_sec_mode_complete, Nas5gsPdu, Nas5gsSecurityContext, Suci, IDTYPE_SUCI, NAS5GS_SHT_INTEGRITY_CIPHERED,
    NAS5GS_SHT_PLAIN,
};
use midn_core::ngap::{
    NgapCause, NgapDownlinkNasTransport, NgapInitialContextSetupResponse, NgapInitialUeMessage, NgapMessage,
    NgapUeContextReleaseComplete, NgapUplinkNasTransport, PduSessionSetupItem,
};
use midn_core::teid::TeidAllocator;

const TEST_IMSI: u64 = 901_700_000_001;
const TEST_K: &str = "465b5ce8b199b49faa5f0a2ee238a6bc";
const TEST_OPC: &str = "cd63cb71954a9f4e48a5994e37a02baf";
const TEST_PLMN: [u8; 3] = [0x00, 0x11, 0x22];
const TEST_TAI: [u8; 6] = [0x00, 0x11, 0x22, 0x00, 0x00, 0x01];
const TEST_UPF_ADDR: [u8; 4] = [10, 0, 0, 1];
const TEST_RAND: [u8; 16] = [
    0x23, 0x55, 0x3c, 0xbe, 0x96, 0x37, 0xa8, 0x9d, 0x21, 0x8a, 0xe6, 0x4d, 0xae, 0x47, 0xbf, 0x35,
];

fn test_amf() -> Amf {
    let mut amf = Amf::new();
    amf.hss_mut().provision_hex(TEST_IMSI, TEST_K, TEST_OPC).expect("valid test hex");
    amf
}

fn test_amf_phase_b() -> Amf {
    let mut amf = Amf::new().with_phase_b(TEST_UPF_ADDR);
    amf.hss_mut().provision_hex(TEST_IMSI, TEST_K, TEST_OPC).expect("valid test hex");
    amf
}

fn process(amf: &mut Amf, msg: NgapMessage) -> (Vec<NgapMessage>, Vec<N3Event>) {
    assert!(amf.has_room());
    amf.process_ngap(msg, TEST_RAND)
}

fn initial_ue_message(ran_ue_ngap_id: u32) -> NgapMessage {
    let nas = encode_registration_request(1, 0, None, 0x00C0);
    NgapMessage::InitialUeMessage(NgapInitialUeMessage {
        ran_ue_ngap_id,
        nas_pdu: nas,
        tai: TEST_TAI,
        nr_cgi: [0u8; 9],
        rrc_establishment_cause: 0,
    })
}

fn uplink(ran_ue_ngap_id: u32, amf_ue_ngap_id: u32, nas_pdu: Bytes) -> NgapMessage {
    NgapMessage::UplinkNasTransport(NgapUplinkNasTransport {
        amf_ue_ngap_id,
        ran_ue_ngap_id,
        nas_pdu,
        tai: TEST_TAI,
        nr_cgi: [0u8; 9],
    })
}

fn expect_single_downlink(resp: Vec<NgapMessage>) -> (u32, u32, Bytes) {
    assert_eq!(resp.len(), 1, "expected exactly one response message");
    match resp.into_iter().next().unwrap() {
        NgapMessage::DownlinkNasTransport(NgapDownlinkNasTransport { amf_ue_ngap_id, ran_ue_ngap_id, nas_pdu }) => {
            (amf_ue_ngap_id, ran_ue_ngap_id, nas_pdu)
        }
        _ => panic!("expected DownlinkNasTransport"),
    }
}

/// Takes a UE as far as the SecurityModeCommand. The UE derives KAMF by
/// itself.
fn run_through_security_mode_command(amf: &mut Amf, ran_ue_ngap_id: u32) -> (u32, u32, [u8; 32]) {
    let (resp, _events) = process(amf, initial_ue_message(ran_ue_ngap_id));
    let (amf_ue_ngap_id, ran_ue_ngap_id, id_req_pdu) = expect_single_downlink(resp);
    assert!(matches!(decode_nas5gs(&id_req_pdu), Ok(Nas5gsPdu::IdentityRequest { .. })));

    let id_resp_pdu = encode_identity_response_suci(&suci_for_imsi(TEST_IMSI));
    let (resp, _events) = process(amf, uplink(ran_ue_ngap_id, amf_ue_ngap_id, id_resp_pdu));
    let (_, _, auth_req_pdu) = expect_single_downlink(resp);
    let rand = match decode_nas5gs(&auth_req_pdu) {
        Ok(Nas5gsPdu::AuthenticationRequest(d)) => d.rand,
        other => panic!("expected AuthenticationRequest, got {other:?}"),
    };

    let mock_ctx = MilenageContext::new(key_from_hex(TEST_K).unwrap(), key_from_hex(TEST_OPC).unwrap());
    let sqn_used = [0u8; 6];
    let vector = mock_ctx.generate_vector_with_rand(&sqn_used, &[0x80, 0x00], &rand);
    let snn = serving_network_name(&TEST_PLMN);
    let res_star = derive_res_star(&vector.ck, &vector.ik, &snn, &rand, &vector.res);

    let auth_resp_pdu = encode_auth_response(&res_star);
    let (resp, _events) = process(amf, uplink(ran_ue_ngap_id, amf_ue_ngap_id, auth_resp_pdu));
    let (_, _, sec_cmd_pdu) = expect_single_downlink(resp);
    assert!(matches!(decode_nas5gs(&sec_cmd_pdu), Ok(Nas5gsPdu::SecurityModeCommand(_))));
    assert!(amf.world().is_authenticated(amf_ue_ngap_id));

    let mut sqn_xor_ak = [0u8; 6];
    for i in 0..6 {
        sqn_xor_ak[i] = sqn_used[i] ^ vector.ak[i];
    }
    let kausf = derive_kausf(&vector.ck, &vector.ik, &snn, &sqn_xor_ak);
    let kseaf = derive_kseaf(&kausf, &snn);
    let supi = TEST_IMSI.to_string().into_bytes();
    let kamf = derive_kamf(&kseaf, &supi, &[0x00, 0x00]);

    (amf_ue_ngap_id, ran_ue_ngap_id, kamf)
}

// ── Deregistration ────────────────────────────────────────────────────────────

fn world_with_entity() -> (World, u32) {
    let mut w = World::new();
    let entity = w.spawn();
    w.insert_identity(entity, IdentityComponent { imsi: 1, enb_ue_s1ap_id: 0, ue_ip: [0; 4] });
    (w, entity)
}

#[test]
fn normal_deregistration_sends_accept_then_release_command() {
    let (mut world, entity) = world_with_entity();
    let nas_pdu = encode_deregistration_request(false);
    let out = handle_deregistration_request(&mut world, 1, entity, &nas_pdu);

    assert_eq!(out.len(), 2, "expect DeregistrationAccept + UeContextReleaseCommand");
    assert!(matches!(out[0], NgapMessage::DownlinkNasTransport(_)));
    assert!(matches!(
        out[1],
        NgapMessage::UeContextReleaseCommand { amf_ue_ngap_id: a, ran_ue_ngap_id: 1, cause: NgapCause::NasDeregister }
        if a == entity
    ));
}

#[test]
fn switch_off_deregistration_skips_accept() {
    let (mut world, entity) = world_with_entity();
    let nas_pdu = encode_deregistration_request(true);
    let out = handle_deregistration_request(&mut world, 1, entity, &nas_pdu);

    assert_eq!(out.len(), 1, "switch-off skips DeregistrationAccept");
    assert!(matches!(
        out[0],
        NgapMessage::UeContextReleaseCommand { amf_ue_ngap_id: a, ran_ue_ngap_id: 1, cause: NgapCause::NasDeregister }
        if a == entity
    ));
}

#[test]
fn deregistration_for_unknown_entity_is_noop() {
    let mut world = World::new();
    let nas_pdu = encode_deregistration_request(false);
    let out = handle_deregistration_request(&mut world, 1, 999, &nas_pdu);
    assert!(out.is_empty());
}

#[test]
fn deregistration_bad_nas_pdu_is_noop() {
    let (mut world, entity) = world_with_entity();
    let out = handle_deregistration_request(&mut world, 1, entity, &[0xFF, 0xFF]);
    assert!(out.is_empty());
}

#[test]
fn deregistration_accept_is_protected_when_nas_security_is_active() {
    let kamf = [0x5Au8; 32];
    let (mut world, entity) = world_with_entity();
    world.set_nas_security5g(entity, Nas5gsSecurityContext::new(&kamf, 2, 2));

    let nas_pdu = encode_deregistration_request(false);
    let out = handle_deregistration_request(&mut world, 1, entity, &nas_pdu);

    assert_eq!(out.len(), 2);
    let envelope = match &out[0] {
        NgapMessage::DownlinkNasTransport(m) => m.nas_pdu.clone(),
        _ => panic!("expected DownlinkNasTransport"),
    };

    let sht = envelope.get(1).map(|b| b & 0x0F).unwrap_or(0);
    assert_ne!(sht, NAS5GS_SHT_PLAIN, "DeregistrationAccept should be protected once NAS security is active");

    let mut mock_ue_nas_ctx = Nas5gsSecurityContext::new(&kamf, 2, 2);
    let plain = decode_protected_downlink(&mut mock_ue_nas_ctx, &envelope)
        .expect("mock UE must be able to decrypt+verify what the AMF sent");
    assert!(matches!(decode_nas5gs(&plain), Ok(Nas5gsPdu::DeregistrationAccept)));
}

// ── The state machine ─────────────────────────────────────────────────────────

#[test]
fn new_amf_has_no_subscribers() {
    let amf = Amf::new();
    assert_eq!(amf.subscriber_count(), 0);
}

#[test]
fn start_registration_rejects_guti_based_request() {
    let mut amf = test_amf();
    let nas = encode_registration_request(1, 0, Some(&[0xABu8; 11]), 0x00C0);
    let msg = NgapMessage::InitialUeMessage(NgapInitialUeMessage {
        ran_ue_ngap_id: 1,
        nas_pdu: nas,
        tai: TEST_TAI,
        nr_cgi: [0u8; 9],
        rrc_establishment_cause: 0,
    });
    let (resp, events) = process(&mut amf, msg);
    assert!(resp.is_empty(), "GUTI-based registration isn't supported — should be silently dropped, not crash");
    assert!(events.is_empty());
    assert_eq!(amf.subscriber_count(), 0, "no entity should be spawned for an unsupported GUTI attempt");
}

#[test]
fn start_registration_sends_identity_request_and_spawns_entity() {
    let mut amf = test_amf();
    let (resp, events) = process(&mut amf, initial_ue_message(7));
    assert!(events.is_empty(), "no N3Event this early in the flow, Phase A or B");
    let (_amf_ue_ngap_id, ran_ue_ngap_id, nas_pdu) = expect_single_downlink(resp);
    assert_eq!(ran_ue_ngap_id, 7);
    assert_eq!(amf.subscriber_count(), 1);

    match decode_nas5gs(&nas_pdu) {
        Ok(Nas5gsPdu::IdentityRequest { identity_type }) => {
            assert_eq!(identity_type, IDTYPE_SUCI);
        }
        other => panic!("expected IdentityRequest, got {other:?}"),
    }
}

#[test]
fn full_registration_flow_end_to_end() {
    let mut amf = test_amf();

    let (amf_ue_ngap_id, ran_ue_ngap_id, kamf) = run_through_security_mode_command(&mut amf, 7);

    let (resp, events) = process(&mut amf, uplink(ran_ue_ngap_id, amf_ue_ngap_id, encode_sec_mode_complete()));
    assert!(events.is_empty(), "Phase A never emits N3Event — no PDU session bundled");
    let (_, _, accept_envelope) = expect_single_downlink(resp);

    let mut mock_ue_nas_ctx = Nas5gsSecurityContext::new(&kamf, 2, 2);
    let accept_plain = decode_protected_downlink(&mut mock_ue_nas_ctx, &accept_envelope)
        .expect("mock UE must be able to decrypt+verify what the AMF sent");
    match decode_nas5gs(&accept_plain) {
        Ok(Nas5gsPdu::RegistrationAccept(d)) => {
            assert_eq!(d.registration_result, 1);
            assert_eq!(d.guti, placeholder_guti(amf_ue_ngap_id));
        }
        other => panic!("expected RegistrationAccept, got {other:?}"),
    }
    assert!(amf.world().nas_security5g(amf_ue_ngap_id).is_some());

    let (resp, events) = process(&mut amf, uplink(ran_ue_ngap_id, amf_ue_ngap_id, encode_registration_complete()));
    assert!(resp.is_empty());
    assert!(events.is_empty());
    assert!(amf.world().is_authenticated(amf_ue_ngap_id));
}

#[test]
fn full_registration_flow_phase_b_bundles_pdu_session_and_completes_ics() {
    let mut amf = test_amf_phase_b();

    let (amf_ue_ngap_id, ran_ue_ngap_id, kamf) = run_through_security_mode_command(&mut amf, 7);

    let (resp, events) = process(&mut amf, uplink(ran_ue_ngap_id, amf_ue_ngap_id, encode_sec_mode_complete()));
    assert_eq!(resp.len(), 1);
    let icsr = match resp.into_iter().next().unwrap() {
        NgapMessage::InitialContextSetupRequest(icsr) => icsr,
        other => panic!("expected InitialContextSetupRequest, got {other:?}"),
    };
    assert_eq!(icsr.amf_ue_ngap_id, amf_ue_ngap_id);
    assert_eq!(icsr.ran_ue_ngap_id, ran_ue_ngap_id);
    assert_eq!(icsr.security_key, kamf);
    assert_eq!(icsr.pdu_sessions.len(), 1);
    assert_eq!(icsr.pdu_sessions[0].pdu_session_id, 1);
    let ul_teid = u32::from_be_bytes(icsr.pdu_sessions[0].gtp_teid);
    assert_eq!(icsr.pdu_sessions[0].transport_layer_addr, TEST_UPF_ADDR);

    assert_eq!(events.len(), 1);
    match &events[0] {
        N3Event::CreateSession { ul_teid: evt_teid, entity_id, imsi, pdu_session_id, .. } => {
            assert_eq!(*evt_teid, ul_teid);
            assert_eq!(*entity_id, amf_ue_ngap_id);
            assert_eq!(*imsi, TEST_IMSI);
            assert_eq!(*pdu_session_id, 1);
        }
        other => panic!("expected N3Event::CreateSession, got {other:?}"),
    }

    let mut mock_ue_nas_ctx = Nas5gsSecurityContext::new(&kamf, 2, 2);
    let accept_envelope = icsr.nas_pdu.clone().expect("Phase B ICSR must piggyback RegistrationAccept");
    let accept_plain = decode_protected_downlink(&mut mock_ue_nas_ctx, &accept_envelope)
        .expect("mock UE must be able to decrypt+verify what the AMF sent");
    assert!(matches!(decode_nas5gs(&accept_plain), Ok(Nas5gsPdu::RegistrationAccept(_))));

    let gnb_addr = [172, 16, 0, 5];
    let dl_teid: u32 = 0xAABB_CCDD;
    let icrsp = NgapMessage::InitialContextSetupResponse(NgapInitialContextSetupResponse {
        amf_ue_ngap_id,
        ran_ue_ngap_id,
        pdu_sessions_setup: vec![PduSessionSetupItem {
            pdu_session_id: 1,
            transport_layer_addr: gnb_addr,
            gtp_teid: dl_teid.to_be_bytes(),
        }],
        pdu_sessions_failed: vec![],
    });
    let (resp, events) = process(&mut amf, icrsp);
    assert!(resp.is_empty(), "ICSResponse produces no NGAP reply, only an N3Event");
    assert_eq!(events.len(), 1);
    match &events[0] {
        N3Event::UpdateBearer { ul_teid: evt_ul, dl_teid: evt_dl, gnb_addr: evt_addr } => {
            assert_eq!(*evt_ul, ul_teid);
            assert_eq!(*evt_dl, dl_teid);
            assert_eq!(*evt_addr, gnb_addr);
        }
        other => panic!("expected N3Event::UpdateBearer, got {other:?}"),
    }

    let tunnel = amf.world().tunnel(amf_ue_ngap_id).expect("tunnel component set in Phase B's Step 4");
    assert_eq!(tunnel.ul_teid, ul_teid);
    assert_eq!(tunnel.dl_teid, dl_teid);
    assert_eq!(tunnel.enb_addr, gnb_addr);
}

#[test]
fn phase_b_deregistration_releases_teid_and_despawns_entity() {
    let mut amf = test_amf_phase_b();

    let (amf_ue_ngap_id, ran_ue_ngap_id, _kamf) = run_through_security_mode_command(&mut amf, 7);

    let (resp, events) = process(&mut amf, uplink(ran_ue_ngap_id, amf_ue_ngap_id, encode_sec_mode_complete()));
    assert_eq!(resp.len(), 1);
    let icsr = match resp.into_iter().next().unwrap() {
        NgapMessage::InitialContextSetupRequest(icsr) => icsr,
        other => panic!("expected InitialContextSetupRequest, got {other:?}"),
    };
    let ul_teid = u32::from_be_bytes(icsr.pdu_sessions[0].gtp_teid);
    assert!(matches!(&events[0], N3Event::CreateSession { .. }));
    assert_eq!(amf.free_teid_count(), 0, "freshly allocated TEID is not free");
    assert_eq!(amf.subscriber_count(), 1);

    let icrsp = NgapMessage::InitialContextSetupResponse(NgapInitialContextSetupResponse {
        amf_ue_ngap_id,
        ran_ue_ngap_id,
        pdu_sessions_setup: vec![PduSessionSetupItem {
            pdu_session_id: 1,
            transport_layer_addr: [172, 16, 0, 5],
            gtp_teid: 0xAABB_CCDDu32.to_be_bytes(),
        }],
        pdu_sessions_failed: vec![],
    });
    process(&mut amf, icrsp);

    let (resp, events) =
        process(&mut amf, uplink(ran_ue_ngap_id, amf_ue_ngap_id, encode_deregistration_request(false)));
    assert_eq!(resp.len(), 2, "expect DeregistrationAccept + UeContextReleaseCommand");
    assert!(matches!(resp[0], NgapMessage::DownlinkNasTransport(_)));
    assert!(matches!(
        resp[1],
        NgapMessage::UeContextReleaseCommand { amf_ue_ngap_id: a, ran_ue_ngap_id: r, cause: NgapCause::NasDeregister }
        if a == amf_ue_ngap_id && r == ran_ue_ngap_id
    ));
    assert!(events.is_empty(), "no N3Event until UeContextReleaseComplete");

    let release_complete =
        NgapMessage::UeContextReleaseComplete(NgapUeContextReleaseComplete { amf_ue_ngap_id, ran_ue_ngap_id });
    let (resp, events) = process(&mut amf, release_complete);
    assert!(resp.is_empty());
    match &events[0] {
        N3Event::RemoveSession { ul_teid: t } => assert_eq!(*t, ul_teid),
        other => panic!("expected RemoveSession, got {other:?}"),
    }
    assert_eq!(amf.subscriber_count(), 0, "entity despawned");
    assert_eq!(amf.free_teid_count(), 1, "TEID returned to the free list");
}

#[test]
fn handle_auth_response_rejects_wrong_res_star() {
    let mut amf = test_amf();
    let (resp, _events) = process(&mut amf, initial_ue_message(7));
    let (amf_ue_ngap_id, ran_ue_ngap_id, _) = expect_single_downlink(resp);

    let id_resp_pdu = encode_identity_response_suci(&suci_for_imsi(TEST_IMSI));
    process(&mut amf, uplink(ran_ue_ngap_id, amf_ue_ngap_id, id_resp_pdu));

    let wrong_res_star = [0xFFu8; 16];
    let auth_resp_pdu = encode_auth_response(&wrong_res_star);
    let (resp, events) = process(&mut amf, uplink(ran_ue_ngap_id, amf_ue_ngap_id, auth_resp_pdu));

    assert!(resp.is_empty(), "wrong RES* must not produce a SecurityModeCommand");
    assert!(events.is_empty());
    assert_eq!(amf.world().auth_state(amf_ue_ngap_id), Some(AuthState::Failed(AuthFailReason::ResMismatch)));
}

#[test]
fn unknown_subscriber_is_silently_dropped() {
    let mut amf = Amf::new(); // no provisioning at all
    let (resp, _events) = process(&mut amf, initial_ue_message(7));
    let (amf_ue_ngap_id, ran_ue_ngap_id, _) = expect_single_downlink(resp);

    let id_resp_pdu = encode_identity_response_suci(&suci_for_imsi(999_999_999));
    let (resp, events) = process(&mut amf, uplink(ran_ue_ngap_id, amf_ue_ngap_id, id_resp_pdu));
    assert!(resp.is_empty(), "unknown subscriber must not produce an AuthenticationRequest");
    assert!(events.is_empty());
}

// ── Further cases ─────────────────────────────────────────────────────────────

#[test]
fn suci_of_the_null_scheme_carries_the_imsi() {
    for imsi in [0u64, 1, TEST_IMSI, 0xFF_FFFF_FFFF] {
        assert_eq!(resolve_suci_to_imsi(&suci_for_imsi(imsi)), Some(imsi));
    }
    let suci = suci_for_imsi(0x01_0203_0405);
    assert_eq!(suci.msin, [1, 2, 3, 4, 5]);
    let concealed = Suci { protection_scheme: 1, ..suci };
    assert_eq!(resolve_suci_to_imsi(&concealed), None);
}

#[test]
fn gutis_of_two_ues_differ() {
    assert_ne!(placeholder_guti(1), placeholder_guti(2));
    assert_ne!(placeholder_guti(1), placeholder_guti(1 << 24));
}

#[test]
fn constant_time_comparison_sees_every_octet() {
    let a = [0x11u8; 16];
    assert!(ct_eq_16(&a, &a));
    for i in 0..16 {
        let mut b = a;
        b[i] ^= 0x80;
        assert!(!ct_eq_16(&a, &b));
    }
}

#[test]
fn key_chain_is_that_of_the_ue() {
    let mut amf = test_amf_phase_b();
    let (id, _, kamf) = run_through_security_mode_command(&mut amf, 7);
    let aka: Nas5gsAkaContext = *amf.world().security5g(id).unwrap();
    assert_eq!(derive_key_chain(&aka, TEST_IMSI), kamf);
    assert_ne!(derive_key_chain(&aka, TEST_IMSI + 1), kamf);
    assert_eq!(aka.pending_rand, [0u8; 16]);
    assert_eq!(aka.pending_xres_star, [0u8; 16]);
}

#[test]
fn keys_are_wiped_once_security_is_active() {
    let mut amf = test_amf();
    let (id, ran, _) = run_through_security_mode_command(&mut amf, 7);
    process(&mut amf, uplink(ran, id, encode_sec_mode_complete()));
    let aka = amf.world().security5g(id).unwrap();
    assert_eq!((aka.ck, aka.ik), ([0u8; 16], [0u8; 16]));
}

#[test]
fn protected_deregistration_is_processed() {
    let mut amf = test_amf_phase_b();
    let (id, ran, kamf) = run_through_security_mode_command(&mut amf, 7);
    process(&mut amf, uplink(ran, id, encode_sec_mode_complete()));
    let mut ue = Nas5gsSecurityContext::new(&kamf, 2, 2);
    let request = encode_deregistration_request(false);
    let envelope = encode_protected_uplink(&mut ue, NAS5GS_SHT_INTEGRITY_CIPHERED, &request);
    let (resp, _) = process(&mut amf, uplink(ran, id, envelope.clone()));
    assert_eq!(resp.len(), 2);
    let mut broken = envelope.to_vec();
    let last = broken.len() - 1;
    broken[last] ^= 1;
    let (resp, events) = process(&mut amf, uplink(ran, id, Bytes::from(broken)));
    assert!(resp.is_empty() && events.is_empty());
}

#[test]
fn protected_uplink_before_security_is_dropped() {
    let mut amf = test_amf();
    let (resp, _) = process(&mut amf, initial_ue_message(7));
    let (id, ran, _) = expect_single_downlink(resp);
    let mut ue = Nas5gsSecurityContext::new(&[1u8; 32], 2, 2);
    let envelope = encode_protected_uplink(&mut ue, NAS5GS_SHT_INTEGRITY_CIPHERED, &encode_sec_mode_complete());
    let (resp, events) = process(&mut amf, uplink(ran, id, envelope));
    assert!(resp.is_empty() && events.is_empty());
    assert_eq!(amf.subscriber_count(), 1);
}

#[test]
fn released_teid_is_given_out_again() {
    let mut amf = test_amf_phase_b();
    let mut teids: Vec<u32> = Vec::new();
    for ran in [7u32, 8] {
        amf.hss_mut().provision_hex(TEST_IMSI, TEST_K, TEST_OPC).expect("valid test hex");
        let (id, ran, _) = run_through_security_mode_command(&mut amf, ran);
        let (resp, _) = process(&mut amf, uplink(ran, id, encode_sec_mode_complete()));
        match &resp[0] {
            NgapMessage::InitialContextSetupRequest(m) => teids.push(u32::from_be_bytes(m.pdu_sessions[0].gtp_teid)),
            other => panic!("expected InitialContextSetupRequest, got {other:?}"),
        }
        let done = NgapMessage::UeContextReleaseComplete(NgapUeContextReleaseComplete {
            amf_ue_ngap_id: id,
            ran_ue_ngap_id: ran,
        });
        let (_, events) = process(&mut amf, done.clone());
        assert_eq!(events.len(), 1);
        let (_, events) = process(&mut amf, done);
        assert!(events.is_empty(), "a second release does nothing");
    }
    assert_eq!(teids[0], teids[1]);
    assert_eq!(amf.subscriber_count(), 0);
}

#[test]
fn live_sessions_have_different_teids() {
    let mut amf = test_amf_phase_b();
    let first = amf.alloc_ul_teid();
    let second = amf.alloc_ul_teid();
    assert_ne!(first, second);
    amf.release_ul_teid(first);
    assert_eq!(amf.free_teid_count(), 1);
    assert_eq!(amf.alloc_ul_teid(), first);
    assert_eq!(amf.free_teid_count(), 0);
}

#[test]
fn session_response_without_a_tunnel_is_dropped() {
    let mut amf = test_amf();
    let (resp, _) = process(&mut amf, initial_ue_message(7));
    let (id, ran, _) = expect_single_downlink(resp);
    let icrsp = NgapMessage::InitialContextSetupResponse(NgapInitialContextSetupResponse {
        amf_ue_ngap_id: id,
        ran_ue_ngap_id: ran,
        pdu_sessions_setup: vec![],
        pdu_sessions_failed: vec![1],
    });
    let (resp, events) = process(&mut amf, icrsp);
    assert!(resp.is_empty() && events.is_empty());
}

#[test]
fn first_message_that_is_no_registration_is_dropped() {
    let mut world = World::new();
    let (resp, events) = start_registration(&mut world, 7, &encode_registration_complete(), TEST_TAI);
    assert!(resp.is_empty() && events.is_empty());
    let (resp, _) = start_registration(&mut world, 7, &[], TEST_TAI);
    assert!(resp.is_empty());
    assert_eq!(world.subscriber_count(), 0);
}

#[test]
fn default_amf_is_a_new_one() {
    let amf = Amf::default();
    assert_eq!(amf.subscriber_count(), 0);
    assert_eq!(amf.free_teid_count(), 0);
}

fn session_address(world: &mut World, teids: &mut TeidAllocator, entity: u32) -> ([u8; 4], u32) {
    world.insert_identity(entity, IdentityComponent { imsi: TEST_IMSI, enb_ue_s1ap_id: 7, ue_ip: [0; 4] });
    world.insert_security5g(entity, Nas5gsAkaContext::new_empty());
    let (_, events) = handle_security_mode_complete(world, 7, entity, Some(TEST_UPF_ADDR), teids);
    match events[..] {
        [N3Event::CreateSession { ue_ip, ul_teid, .. }] => (ue_ip, ul_teid),
        _ => panic!("expected one session"),
    }
}

#[test]
fn session_addresses_are_unique_beyond_65536_ues() {
    let mut world = World::new();
    let mut teids = TeidAllocator::new(0x0002_0000);
    for _ in 0..0x1_0102u32 {
        world.spawn();
    }
    assert_eq!(session_address(&mut world, &mut teids, 0x0101), ([10, 45, 1, 1], 0x0002_0000));
    assert_eq!(session_address(&mut world, &mut teids, 0x1_0101), ([10, 46, 1, 1], 0x0002_0001));
    assert_eq!(session_address(&mut world, &mut teids, 0xFFFF), ([10, 45, 255, 255], 0x0002_0002));
}

#[test]
fn both_phases_send_the_same_registration_accept() {
    let mut phase_a = test_amf();
    let (id, ran, kamf) = run_through_security_mode_command(&mut phase_a, 7);
    let (resp, events) = process(&mut phase_a, uplink(ran, id, encode_sec_mode_complete()));
    let (_, _, accept) = expect_single_downlink(resp);
    assert!(events.is_empty());
    assert!(phase_a.world().tunnel(id).is_none());

    let mut phase_b = test_amf_phase_b();
    let (id, ran, kamf_b) = run_through_security_mode_command(&mut phase_b, 7);
    assert_eq!(kamf, kamf_b);
    let (resp, events) = process(&mut phase_b, uplink(ran, id, encode_sec_mode_complete()));
    let setup = match resp.into_iter().next().unwrap() {
        NgapMessage::InitialContextSetupRequest(m) => m,
        other => panic!("expected InitialContextSetupRequest, got {other:?}"),
    };
    assert_eq!(setup.nas_pdu, Some(accept));
    let ul_teid = phase_b.world().tunnel(id).unwrap().ul_teid;
    assert_eq!(setup.pdu_sessions[0].gtp_teid, ul_teid.to_be_bytes());
    assert!(matches!(events[..], [N3Event::CreateSession { ul_teid: t, .. }] if t == ul_teid));
}

#[test]
fn a_second_release_does_nothing() {
    let mut amf = test_amf_phase_b();
    let (amf_ue_ngap_id, ran_ue_ngap_id, _) = run_through_security_mode_command(&mut amf, 7);
    process(&mut amf, uplink(ran_ue_ngap_id, amf_ue_ngap_id, encode_sec_mode_complete()));
    let release =
        || NgapMessage::UeContextReleaseComplete(NgapUeContextReleaseComplete { amf_ue_ngap_id, ran_ue_ngap_id });
    let (resp, events) = process(&mut amf, release());
    assert!(resp.is_empty());
    assert_eq!(events.len(), 1);
    assert_eq!(amf.free_teid_count(), 1);
    let (resp, events) = process(&mut amf, release());
    assert!(resp.is_empty() && events.is_empty());
    assert_eq!(amf.free_teid_count(), 1);
}
