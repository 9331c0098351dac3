//! NAS messages and their protected envelope.

use midn_core::nas::codec::NAS_EPS_MM_PD;
use midn_core::nas::{
    decode_nas, decode_protected, decode_protected_downlink, derive_nas_keys, eea2_apply, eia2_compute_mac,
    eia2_verify_mac, encode_attach_accept, encode_attach_complete, encode_attach_request, encode_auth_request,
    encode_auth_response, encode_detach_accept, encode_detach_request, encode_protected, encode_protected_uplink,
    encode_sec_mode_cmd, encode_sec_mode_complete, Direction, NasEeaAlgorithm, NasEiaAlgorithm, NasPdu,
    NasSecurityContext, NAS_BEARER, SHT_INTEGRITY_CIPHERED,
};


#[test]
fn auth_request_round_trip() {
    let rand = [0x23u8; 16];
    let autn = [0xAAu8; 16];
    let encoded = encode_auth_request(7, &rand, &autn);
    let decoded = decode_nas(&encoded).expect("should decode");
    match decoded {
        NasPdu::AuthenticationRequest(d) => {
            assert_eq!(d.nas_ksi, 7);
            assert_eq!(d.rand, rand);
            assert_eq!(d.autn, autn);
        }
        _ => panic!("wrong message type"),
    }
}

#[test]
fn auth_response_round_trip() {
    let res = [0xA5u8, 0x42, 0x11, 0xD5, 0xE3, 0xBA, 0x50, 0xBF];
    let encoded = encode_auth_response(&res);
    let decoded = decode_nas(&encoded).expect("should decode");
    match decoded {
        NasPdu::AuthenticationResponse(d) => {
            assert_eq!(d.res, res);
        }
        _ => panic!("wrong message type"),
    }
}

#[test]
fn attach_request_imsi_round_trip() {
    let imsi = 234_15_1234567890_u64;
    let encoded = encode_attach_request(imsi, 1, 7);
    let decoded = decode_nas(&encoded).expect("should decode");
    match decoded {
        NasPdu::AttachRequest(d) => {
            assert_eq!(d.imsi, Some(imsi), "IMSI should round-trip");
            assert_eq!(d.eps_attach_type, 1);
        }
        _ => panic!("wrong message type"),
    }
}

#[test]
fn sec_mode_command_round_trip() {
    let ue_cap = [0x20u8, 0x40];
    let encoded = encode_sec_mode_cmd(
        NasEeaAlgorithm::Eea2, NasEiaAlgorithm::Eia2, 7, &ue_cap
    );
    let decoded = decode_nas(&encoded).expect("should decode");
    match decoded {
        NasPdu::SecurityModeCommand(d) => {
            assert_eq!(d.eea, NasEeaAlgorithm::Eea2);
            assert_eq!(d.eia, NasEiaAlgorithm::Eia2);
        }
        _ => panic!("wrong message type"),
    }
}

#[test]
fn security_mode_complete_decode() {
    let encoded = encode_sec_mode_complete();
    let decoded = decode_nas(&encoded).expect("should decode");
    assert!(matches!(decoded, NasPdu::SecurityModeComplete));
}

#[test]
fn attach_accept_with_ip() {
    let ip = [10u8, 0, 0, 1];
    let encoded = encode_attach_accept(1, 0x54, &[], Some(ip), Some("internet"));
    let decoded = decode_nas(&encoded).expect("should decode");
    match decoded {
        NasPdu::AttachAccept(d) => {
            assert_eq!(d.ip_address, Some(ip));
            assert_eq!(d.apn.as_deref(), Some("internet"));
        }
        _ => panic!("wrong message type"),
    }
}

#[test]
fn attach_complete_decode() {
    let encoded = encode_attach_complete();
    let decoded = decode_nas(&encoded).expect("should decode");
    assert!(matches!(decoded, NasPdu::AttachComplete));
}

#[test]
fn decode_rejects_wrong_pd() {
    // Protocol discriminator = 0x05 (MM, not EPS-MM)
    let bad = [0x05u8, 0x52, 0x00];
    assert!(decode_nas(&bad).is_err());
}

#[test]
fn detach_request_round_trip_normal() {
    let guti = [0xABu8; 10];
    let encoded = encode_detach_request(1, false, 5, &guti);
    let decoded = decode_nas(&encoded).expect("should decode");
    match decoded {
        NasPdu::DetachRequest(d) => {
            assert_eq!(d.detach_type, 1);
            assert!(!d.switch_off);
            assert_eq!(d.nas_ksi, 5);
        }
        _ => panic!("wrong message type"),
    }
}

#[test]
fn detach_request_switch_off_flag_round_trips() {
    let guti = [0u8; 10];
    let encoded = encode_detach_request(1, true, 0, &guti);
    let decoded = decode_nas(&encoded).expect("should decode");
    match decoded {
        NasPdu::DetachRequest(d) => assert!(d.switch_off),
        _ => panic!("wrong message type"),
    }
}

#[test]
fn detach_accept_decode() {
    let encoded = encode_detach_accept();
    let decoded = decode_nas(&encoded).expect("should decode");
    assert!(matches!(decoded, NasPdu::DetachAccept));
}

// ── Protected envelope ─────────────────────────────────────────────────────

#[test]
fn encode_protected_envelope_is_well_formed_and_verifiable() {
    let kasme = [0x33u8; 32];
    let mut ctx = NasSecurityContext::new(&kasme, NasEeaAlgorithm::Eea2, NasEiaAlgorithm::Eia2);
    let inner_plain = encode_attach_accept(1, 0x54, &[], Some([10, 0, 0, 1]), Some("internet"));

    let envelope = encode_protected(&mut ctx, SHT_INTEGRITY_CIPHERED, NAS_BEARER, &inner_plain);

    // Header byte: sht in high nibble, PD in low nibble.
    assert_eq!((envelope[0] >> 4) & 0x0F, SHT_INTEGRITY_CIPHERED);
    assert_eq!(envelope[0] & 0x0F, NAS_EPS_MM_PD);
    // Sequence byte = COUNT (first message, COUNT = 0).
    assert_eq!(envelope[5], 0);

    // Independently verify + decrypt using the same derived keys and Downlink direction.
    let (k_enc, k_int) = derive_nas_keys(&kasme, NasEeaAlgorithm::Eea2, NasEiaAlgorithm::Eia2);
    let mac_i: [u8; 4]    = envelope[1..5].try_into().unwrap();
    let ciphertext        = &envelope[6..];
    assert!(eia2_verify_mac(
        &k_int, 0, NAS_BEARER, Direction::Downlink, ciphertext, &mac_i,
    ));
    let mut recovered = ciphertext.to_vec();
    eea2_apply(&k_enc, 0, NAS_BEARER, Direction::Downlink, &mut recovered);
    assert_eq!(recovered, inner_plain.to_vec());
}

#[test]
fn decode_protected_recovers_inner_plain_nas_pdu() {
    let kasme = [0x44u8; 32];
    let mut ctx = NasSecurityContext::new(&kasme, NasEeaAlgorithm::Eea2, NasEiaAlgorithm::Eia2);
    let inner_plain = encode_auth_response(&[0xA5, 0x42, 0x11, 0xD5, 0xE3, 0xBA, 0x50, 0xBF]);

    // Build a "UE-sent" envelope by hand: same keys, Uplink direction.
    let (k_enc, k_int) = derive_nas_keys(&kasme, NasEeaAlgorithm::Eea2, NasEiaAlgorithm::Eia2);
    let count = 0u32;
    let mut ciphertext = inner_plain.to_vec();
    eea2_apply(&k_enc, count, NAS_BEARER, Direction::Uplink, &mut ciphertext);
    let mac_i = eia2_compute_mac(&k_int, count, NAS_BEARER, Direction::Uplink, &ciphertext);

    let mut envelope = vec![(SHT_INTEGRITY_CIPHERED << 4) | NAS_EPS_MM_PD];
    envelope.extend_from_slice(&mac_i);
    envelope.push(count as u8);
    envelope.extend_from_slice(&ciphertext);

    let recovered = decode_protected(&mut ctx, &envelope, NAS_BEARER)
        .expect("valid envelope should decode");
    assert_eq!(recovered, inner_plain.to_vec());

    // And it parses as a real NasPdu once unwrapped.
    match decode_nas(&recovered).unwrap() {
        NasPdu::AuthenticationResponse(d) => {
            assert_eq!(d.res, [0xA5, 0x42, 0x11, 0xD5, 0xE3, 0xBA, 0x50, 0xBF]);
        }
        other => panic!("wrong inner PDU type: {other:?}"),
    }
}

#[test]
fn decode_protected_rejects_tampered_envelope() {
    let kasme = [0x66u8; 32];
    let mut ctx = NasSecurityContext::new(&kasme, NasEeaAlgorithm::Eea2, NasEiaAlgorithm::Eia2);
    let inner_plain = encode_sec_mode_complete();

    let (k_enc, k_int) = derive_nas_keys(&kasme, NasEeaAlgorithm::Eea2, NasEiaAlgorithm::Eia2);
    let mut ciphertext = inner_plain.to_vec();
    eea2_apply(&k_enc, 0, NAS_BEARER, Direction::Uplink, &mut ciphertext);
    let mac_i = eia2_compute_mac(&k_int, 0, NAS_BEARER, Direction::Uplink, &ciphertext);

    let mut envelope = vec![(SHT_INTEGRITY_CIPHERED << 4) | NAS_EPS_MM_PD];
    envelope.extend_from_slice(&mac_i);
    envelope.push(0u8);
    envelope.extend_from_slice(&ciphertext);

    // Flip a ciphertext bit — MAC should no longer verify.
    let last = envelope.len() - 1;
    envelope[last] ^= 0x01;

    assert!(decode_protected(&mut ctx, &envelope, NAS_BEARER).is_none());
}

#[test]
fn decode_protected_rejects_too_short_buffer() {
    let kasme = [0x88u8; 32];
    let mut ctx = NasSecurityContext::new(&kasme, NasEeaAlgorithm::Eea2, NasEiaAlgorithm::Eia2);
    assert!(decode_protected(&mut ctx, &[0x27, 0x00], NAS_BEARER).is_none());
}

#[test]
fn decode_protected_rejects_plain_sht() {
    let kasme = [0x11u8; 32];
    let mut ctx = NasSecurityContext::new(&kasme, NasEeaAlgorithm::Eea2, NasEiaAlgorithm::Eia2);
    // sht = 0 in the high nibble — decode_protected should refuse to touch it.
    let buf = [NAS_EPS_MM_PD, 0, 0, 0, 0, 0, 0xAA];
    assert!(decode_protected(&mut ctx, &buf, NAS_BEARER).is_none());
}

// ── UE-role (encode_protected_uplink / decode_protected_downlink) ───────────

#[test]
fn encode_protected_uplink_decode_protected_downlink_round_trip() {
    let kasme = [0x22u8; 32];
    let mut ue_ctx = NasSecurityContext::new(&kasme, NasEeaAlgorithm::Eea2, NasEiaAlgorithm::Eia2);
    let mut mme_ctx = NasSecurityContext::new(&kasme, NasEeaAlgorithm::Eea2, NasEiaAlgorithm::Eia2);
    let inner_plain = encode_attach_complete();

    // UE encodes uplink (AttachComplete-style)...
    let envelope = encode_protected_uplink(&mut ue_ctx, SHT_INTEGRITY_CIPHERED, NAS_BEARER, &inner_plain);
    // ...MME must decode it with decode_protected (unprotect_uplink), not
    // decode_protected_downlink — that's the network-role function this
    // envelope is meant for.
    let recovered = decode_protected(&mut mme_ctx, &envelope, NAS_BEARER)
        .expect("MME should be able to decode a real UE-role uplink envelope");
    assert_eq!(recovered, inner_plain.to_vec());
}

#[test]
fn decode_protected_downlink_wrong_direction_rejects_even_untampered_envelope() {
    // decode_protected opens uplink envelopes: a downlink envelope fails on
    // DIRECTION alone, with no tampering involved.
    let kasme = [0x33u8; 32];
    let mut mme_ctx = NasSecurityContext::new(&kasme, NasEeaAlgorithm::Eea2, NasEiaAlgorithm::Eia2);
    let mut ue_ctx = NasSecurityContext::new(&kasme, NasEeaAlgorithm::Eea2, NasEiaAlgorithm::Eia2);

    let envelope = encode_protected(&mut mme_ctx, SHT_INTEGRITY_CIPHERED, NAS_BEARER, b"AttachAccept-shaped plaintext");
    assert!(decode_protected(&mut ue_ctx, &envelope, NAS_BEARER).is_none(), "wrong-direction decode must fail");
    // decode_protected_downlink (unprotect_downlink) on the SAME
    // envelope must succeed — proof this is genuinely about direction,
    // not a broken envelope.
    let mut ue_ctx2 = NasSecurityContext::new(&kasme, NasEeaAlgorithm::Eea2, NasEiaAlgorithm::Eia2);
    assert!(decode_protected_downlink(&mut ue_ctx2, &envelope, NAS_BEARER).is_some());
}

#[test]
fn protected_envelope_advances_counts_independently_per_direction_ue_role() {
    let kasme = [0x77u8; 32];
    let mut mme_ctx = NasSecurityContext::new(&kasme, NasEeaAlgorithm::Eea2, NasEiaAlgorithm::Eia2);
    let mut ue_ctx = NasSecurityContext::new(&kasme, NasEeaAlgorithm::Eea2, NasEiaAlgorithm::Eia2);

    let first = encode_protected(&mut mme_ctx, SHT_INTEGRITY_CIPHERED, NAS_BEARER, b"one");
    let second = encode_protected(&mut mme_ctx, SHT_INTEGRITY_CIPHERED, NAS_BEARER, b"two");
    assert_ne!(first, second, "COUNT must advance between messages");

    assert!(decode_protected_downlink(&mut ue_ctx, &first, NAS_BEARER).is_some());
    assert!(decode_protected_downlink(&mut ue_ctx, &second, NAS_BEARER).is_some());
}
