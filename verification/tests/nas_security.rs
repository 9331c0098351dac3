//! 128-EEA2, 128-EIA2, key derivation and the security context.

use midn_core::nas::{
    derive_nas_keys, eea2_apply, eia2_compute_mac, eia2_verify_mac, reconstruct_count, Direction, NasEeaAlgorithm,
    NasEiaAlgorithm, NasSecurityContext, NAS_BEARER,
};

fn k() -> [u8; 16] {
    [0x11, 0x22, 0x33, 0x44, 0x55, 0x66, 0x77, 0x88,
     0x99, 0xAA, 0xBB, 0xCC, 0xDD, 0xEE, 0xFF, 0x00]
}

// ── 128-EEA2 ──────────────────────────────────────────────────────────────

#[test]
fn eea2_round_trip_recovers_plaintext() {
    let key   = k();
    let plain = b"AttachAccept payload bytes go here".to_vec();
    let mut buf = plain.clone();

    eea2_apply(&key, 0, NAS_BEARER, Direction::Downlink, &mut buf);
    assert_ne!(buf, plain, "ciphertext should differ from plaintext");

    eea2_apply(&key, 0, NAS_BEARER, Direction::Downlink, &mut buf);
    assert_eq!(buf, plain, "second pass with identical params recovers plaintext");
}

#[test]
fn eea2_different_count_gives_different_ciphertext() {
    let key   = k();
    let plain = b"same plaintext, different count".to_vec();
    let mut a = plain.clone();
    let mut b = plain.clone();
    eea2_apply(&key, 0, NAS_BEARER, Direction::Downlink, &mut a);
    eea2_apply(&key, 1, NAS_BEARER, Direction::Downlink, &mut b);
    assert_ne!(a, b);
}

#[test]
fn eea2_different_direction_gives_different_ciphertext() {
    let key   = k();
    let plain = b"same count, different direction".to_vec();
    let mut a = plain.clone();
    let mut b = plain.clone();
    eea2_apply(&key, 5, NAS_BEARER, Direction::Uplink,   &mut a);
    eea2_apply(&key, 5, NAS_BEARER, Direction::Downlink, &mut b);
    assert_ne!(a, b);
}

// ── 128-EIA2 ──────────────────────────────────────────────────────────────

#[test]
fn eia2_mac_is_deterministic() {
    let key = k();
    let msg = b"integrity protect me";
    let m1  = eia2_compute_mac(&key, 7, NAS_BEARER, Direction::Downlink, msg);
    let m2  = eia2_compute_mac(&key, 7, NAS_BEARER, Direction::Downlink, msg);
    assert_eq!(m1, m2);
}

#[test]
fn eia2_mac_changes_with_count() {
    let key = k();
    let msg = b"integrity protect me";
    let m1  = eia2_compute_mac(&key, 7, NAS_BEARER, Direction::Downlink, msg);
    let m2  = eia2_compute_mac(&key, 8, NAS_BEARER, Direction::Downlink, msg);
    assert_ne!(m1, m2);
}

#[test]
fn eia2_verify_accepts_correct_mac() {
    let key = k();
    let msg = b"valid message";
    let mac = eia2_compute_mac(&key, 3, NAS_BEARER, Direction::Uplink, msg);
    assert!(eia2_verify_mac(&key, 3, NAS_BEARER, Direction::Uplink, msg, &mac));
}

#[test]
fn eia2_verify_rejects_tampered_message() {
    let key     = k();
    let msg     = b"valid message".to_vec();
    let mac     = eia2_compute_mac(&key, 3, NAS_BEARER, Direction::Uplink, &msg);
    let mut bad = msg.clone();
    bad[0] ^= 0x01;
    assert!(!eia2_verify_mac(&key, 3, NAS_BEARER, Direction::Uplink, &bad, &mac));
}

#[test]
fn eia2_verify_rejects_tampered_mac() {
    let key = k();
    let msg = b"valid message";
    let mut mac = eia2_compute_mac(&key, 3, NAS_BEARER, Direction::Uplink, msg);
    mac[0] ^= 0x01;
    assert!(!eia2_verify_mac(&key, 3, NAS_BEARER, Direction::Uplink, msg, &mac));
}

// ── KDF ───────────────────────────────────────────────────────────────────

#[test]
fn kdf_is_deterministic() {
    let kasme = [0xAB; 32];
    let (a1, a2) = derive_nas_keys(&kasme, NasEeaAlgorithm::Eea2, NasEiaAlgorithm::Eia2);
    let (b1, b2) = derive_nas_keys(&kasme, NasEeaAlgorithm::Eea2, NasEiaAlgorithm::Eia2);
    assert_eq!(a1, b1);
    assert_eq!(a2, b2);
}

#[test]
fn kdf_enc_and_int_keys_differ() {
    let kasme = [0xCD; 32];
    let (k_enc, k_int) = derive_nas_keys(&kasme, NasEeaAlgorithm::Eea2, NasEiaAlgorithm::Eia2);
    assert_ne!(k_enc, k_int, "enc and int keys must use different KDF inputs");
}

#[test]
fn kdf_changes_with_kasme() {
    let (a, _) = derive_nas_keys(&[0x01; 32], NasEeaAlgorithm::Eea2, NasEiaAlgorithm::Eia2);
    let (b, _) = derive_nas_keys(&[0x02; 32], NasEeaAlgorithm::Eea2, NasEiaAlgorithm::Eia2);
    assert_ne!(a, b);
}

// ── COUNT reconstruction ──────────────────────────────────────────────────

#[test]
fn reconstruct_count_no_wrap() {
    // last_count's high bits still apply; received byte just below.
    assert_eq!(reconstruct_count(0x0000_0010, 0x20), 0x0000_0020);
}

#[test]
fn reconstruct_count_handles_wraparound() {
    // last_count = 0x...01F0 (low byte 0xF0). Next message's low byte
    // wrapped past 0xFF back to 0x05 — high bits must bump by one.
    let last = 0x0000_01F0;
    let got  = reconstruct_count(last, 0x05);
    assert_eq!(got, 0x0000_0205);
}

#[test]
fn reconstruct_count_same_high_bits_when_byte_increases() {
    let last = 0x0000_0150;
    let got  = reconstruct_count(last, 0x60);
    assert_eq!(got, 0x0000_0160);
}

// ── NasSecurityContext: MME→UE path (manual verify with raw functions) ────

#[test]
fn context_protect_downlink_is_verifiable_independently() {
    let kasme = [0x42; 32];
    let mut ctx = NasSecurityContext::new(&kasme, NasEeaAlgorithm::Eea2, NasEiaAlgorithm::Eia2);
    let plain = b"AttachAccept goes here".to_vec();

    let protected = ctx.protect_downlink(NAS_BEARER, &plain);
    assert_eq!(protected.count, 0);
    assert_eq!(ctx.dl_count(), 1, "dl_count must advance after protect");

    // Verify independently using the raw functions + the same derived keys.
    let (k_enc, k_int) = derive_nas_keys(&kasme, NasEeaAlgorithm::Eea2, NasEiaAlgorithm::Eia2);
    assert!(eia2_verify_mac(
        &k_int, protected.count, NAS_BEARER, Direction::Downlink,
        &protected.payload, &protected.mac_i,
    ));

    let mut recovered = protected.payload.clone();
    eea2_apply(&k_enc, protected.count, NAS_BEARER, Direction::Downlink, &mut recovered);
    assert_eq!(recovered, plain);
}

// ── NasSecurityContext: UE→MME path (manual protect, real unprotect) ──────

#[test]
fn context_unprotect_uplink_round_trip() {
    let kasme = [0x99; 32];
    let mut ctx = NasSecurityContext::new(&kasme, NasEeaAlgorithm::Eea2, NasEiaAlgorithm::Eia2);
    let plain = b"AuthenticationResponse RES goes here".to_vec();

    // Simulate the "UE side": protect with the SAME derived keys, Uplink direction.
    let (k_enc, k_int) = derive_nas_keys(&kasme, NasEeaAlgorithm::Eea2, NasEiaAlgorithm::Eia2);
    let count = 0u32;
    let mut ciphertext = plain.clone();
    eea2_apply(&k_enc, count, NAS_BEARER, Direction::Uplink, &mut ciphertext);
    let mac_i = eia2_compute_mac(&k_int, count, NAS_BEARER, Direction::Uplink, &ciphertext);

    let recovered = ctx
        .unprotect_uplink(NAS_BEARER, count as u8, mac_i, &ciphertext)
        .expect("valid MAC should verify");
    assert_eq!(recovered, plain);
    assert_eq!(ctx.ul_count(), 1, "ul_count must advance after successful unprotect");
}

#[test]
fn context_unprotect_uplink_rejects_bad_mac() {
    let kasme = [0x77; 32];
    let mut ctx = NasSecurityContext::new(&kasme, NasEeaAlgorithm::Eea2, NasEiaAlgorithm::Eia2);
    let plain = b"tampered message".to_vec();

    let (k_enc, _) = derive_nas_keys(&kasme, NasEeaAlgorithm::Eea2, NasEiaAlgorithm::Eia2);
    let mut ciphertext = plain.clone();
    eea2_apply(&k_enc, 0, NAS_BEARER, Direction::Uplink, &mut ciphertext);

    let bad_mac = [0xFF; 4];
    assert!(ctx.unprotect_uplink(NAS_BEARER, 0, bad_mac, &ciphertext).is_none());
    assert_eq!(ctx.ul_count(), 0, "ul_count must NOT advance on a rejected message");
}

#[test]
fn eea0_eia0_null_algorithms_pass_through_unciphered() {
    let kasme = [0x55; 32];
    let mut ctx = NasSecurityContext::new(&kasme, NasEeaAlgorithm::Eea0, NasEiaAlgorithm::Eia0);
    let plain = b"null algorithms still envelope correctly".to_vec();

    let protected = ctx.protect_downlink(NAS_BEARER, &plain);
    assert_eq!(protected.payload, plain, "Eea0 must not cipher");
    assert_eq!(protected.mac_i, [0u8; 4], "Eia0 must produce a zero MAC-I");
}
