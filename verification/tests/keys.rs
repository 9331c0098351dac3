//! Authentication vectors, key derivation, and the subscriber database.

use hmac::Mac;
use midn_core::ecs::{AuthState, ImsiRegistry, TunnelComponent, World};
use midn_core::hss::{key_from_hex, Hss, KeyFormatError};
use midn_core::kdf::{
    derive_kamf, derive_kasme, derive_kausf, derive_kseaf, derive_res_star, serving_network_name, supi_from_imsi,
};
use midn_core::milenage::{mask_sqn, MilenageContext};
use midn_core::nas::{
    eea2_apply, eia2_compute_mac, eia2_verify_mac, Direction, NasEeaAlgorithm, NasEiaAlgorithm, NasSecurityContext,
};
use midn_core::teid::TeidAllocator;

const K: &str = "465b5ce8b199b49faa5f0a2ee238a6bc";
const OPC: &str = "cd63cb71954a9f4e48a5994e37a02baf";

fn hex(s: &str) -> Vec<u8> {
    (0..s.len() / 2).map(|i| u8::from_str_radix(&s[2 * i..2 * i + 2], 16).unwrap()).collect()
}

fn hmac_sha256(key: &[u8], message: &[u8]) -> Vec<u8> {
    let mut mac = <hmac::Hmac<sha2::Sha256> as Mac>::new_from_slice(key).unwrap();
    mac.update(message);
    mac.finalize().into_bytes().to_vec()
}

// ── Milenage ──────────────────────────────────────────────────────────────────

#[test]
fn milenage_gives_the_published_vector() {
    let sim = MilenageContext::new(key_from_hex(K).unwrap(), key_from_hex(OPC).unwrap());
    let rand: [u8; 16] = hex("23553cbe9637a89d218ae64dae47bf35").try_into().unwrap();
    let sqn: [u8; 6] = hex("ff9bb4d0b607").try_into().unwrap();
    let v = sim.generate_vector_with_rand(&sqn, &[0xb9, 0xb9], &rand);
    assert_eq!(v.mac_a.to_vec(), hex("4a9ffac354dfafb3"));
    assert_eq!(v.res.to_vec(), hex("a54211d5e3ba50bf"));
    assert_eq!(v.ck.to_vec(), hex("b40ba9a3c58b2a05bbf0d987b21bf8cb"));
    assert_eq!(v.ik.to_vec(), hex("f769bcd751044604127672711c6d3441"));
    assert_eq!(v.ak.to_vec(), hex("aa689c648370"));
    assert_eq!(v.autn(&sqn, &[0xb9, 0xb9]).to_vec(), hex("55f328b43577b9b94a9ffac354dfafb3"));
}

#[test]
fn masked_sqn_is_recovered() {
    let sqn = [1, 2, 3, 4, 5, 6];
    let ak = [0xaa, 0x68, 0x9c, 0x64, 0x83, 0x70];
    assert_eq!(mask_sqn(&sqn, &ak), [0xab, 0x6a, 0x9f, 0x60, 0x86, 0x76]);
    assert_eq!(mask_sqn(&mask_sqn(&sqn, &ak), &ak), sqn);
}

// ── Key derivation ────────────────────────────────────────────────────────────

#[test]
fn network_name_of_a_plmn() {
    assert_eq!(serving_network_name(&[0x13, 0x00, 0x62]), b"5G:mnc260.mcc310.3gppnetwork.org".to_vec());
    assert_eq!(serving_network_name(&[0x62, 0xF2, 0x10]), b"5G:mnc001.mcc262.3gppnetwork.org".to_vec());
    assert_eq!(serving_network_name(&[0x00, 0x11, 0x22]).len(), 32);
}

#[test]
fn supi_is_the_imsi_in_decimal() {
    assert_eq!(supi_from_imsi(0), b"0".to_vec());
    assert_eq!(supi_from_imsi(901_700_000_001), b"901700000001".to_vec());
    assert_eq!(supi_from_imsi(u64::MAX), b"18446744073709551615".to_vec());
}

#[test]
fn derivations_hash_their_parameters_with_lengths() {
    let ck = [0x11u8; 16];
    let ik = [0x22u8; 16];
    let mut ck_ik = ck.to_vec();
    ck_ik.extend_from_slice(&ik);
    let sqn = [9u8, 8, 7, 6, 5, 4];

    let mut s = vec![0x10, 0x00, 0x11, 0x22, 0x00, 0x03];
    s.extend_from_slice(&sqn);
    s.extend_from_slice(&[0x00, 0x06]);
    assert_eq!(derive_kasme(&ck, &ik, &[0x00, 0x11, 0x22], &sqn).to_vec(), hmac_sha256(&ck_ik, &s));

    let snn = serving_network_name(&[0x00, 0x11, 0x22]);
    let mut s = vec![0x6A];
    s.extend_from_slice(&snn);
    s.extend_from_slice(&[0x00, 0x20]);
    s.extend_from_slice(&sqn);
    s.extend_from_slice(&[0x00, 0x06]);
    let kausf = derive_kausf(&ck, &ik, &snn, &sqn);
    assert_eq!(kausf.to_vec(), hmac_sha256(&ck_ik, &s));

    let mut s = vec![0x6B];
    s.extend_from_slice(&snn);
    s.extend_from_slice(&[0x00, 0x20]);
    s.extend_from_slice(&[0x33; 16]);
    s.extend_from_slice(&[0x00, 0x10]);
    s.extend_from_slice(&[0x44; 8]);
    s.extend_from_slice(&[0x00, 0x08]);
    let res_star = derive_res_star(&ck, &ik, &snn, &[0x33; 16], &[0x44; 8]);
    assert_eq!(res_star.to_vec(), hmac_sha256(&ck_ik, &s)[16..].to_vec());

    let mut s = vec![0x6C];
    s.extend_from_slice(&snn);
    s.extend_from_slice(&[0x00, 0x20]);
    let kseaf = derive_kseaf(&kausf, &snn);
    assert_eq!(kseaf.to_vec(), hmac_sha256(&kausf, &s));

    let mut s = vec![0x6D];
    s.extend_from_slice(b"901700000001");
    s.extend_from_slice(&[0x00, 0x0C, 0x00, 0x00, 0x00, 0x02]);
    assert_eq!(derive_kamf(&kseaf, b"901700000001", &[0, 0]).to_vec(), hmac_sha256(&kseaf, &s));
}

// ── NAS algorithms ────────────────────────────────────────────────────────────

#[test]
fn eea2_gives_the_published_ciphertext() {
    let key: [u8; 16] = hex("d3c5d592327fb11c4035c6680af8c6d1").try_into().unwrap();
    let mut data = hex("981ba6824c1bfb1ab485472029b71d808ce33e2cc3c0b5fc1f3de8a6dc66b1f0");
    let expected = hex("e9fed8a63d155304d71df20bf3e82214b20ed7dad2f233dc3c22d7bdeeed8e78");
    eea2_apply(&key, 0x398a59b4, 0x15, Direction::Downlink, &mut data);
    assert_eq!(data[..31], expected[..31]);
    assert_eq!(data[31] & 0xF8, expected[31]);
}

#[test]
fn eia2_is_a_cmac_over_count_bearer_direction_and_message() {
    let key: [u8; 16] = hex("d3c5d592327fb11c4035c6680af8c6d1").try_into().unwrap();
    let message = hex("000000484583d5afe082ae");
    let mac = eia2_compute_mac(&key, 0x398a59b4, 0x1a, Direction::Downlink, &message);
    assert_eq!(mac.to_vec(), hex("b93787e6"));
    assert!(eia2_verify_mac(&key, 0x398a59b4, 0x1a, Direction::Downlink, &message, &mac));
    assert!(!eia2_verify_mac(&key, 0x398a59b4, 0x1a, Direction::Uplink, &message, &mac));
}

#[test]
fn security_context_shows_no_keys() {
    let mut ctx = NasSecurityContext::new(&[0x42; 32], NasEeaAlgorithm::Eea2, NasEiaAlgorithm::Eia2);
    ctx.protect_downlink(1, b"x");
    assert_eq!(
        ctx.debug_text(),
        "NasSecurityContext { eea: Eea2, eia: Eia2, dl_count: 1, ul_count: 0, \
         k_nas_enc: \"[REDACTED]\", k_nas_int: \"[REDACTED]\" }"
    );
    let other = NasSecurityContext::new(&[0x43; 32], NasEeaAlgorithm::Eea2, NasEiaAlgorithm::Eia2);
    let fresh = NasSecurityContext::new(&[0x42; 32], NasEeaAlgorithm::Eea2, NasEiaAlgorithm::Eia2);
    assert_eq!(other.debug_text(), fresh.debug_text());
}

#[test]
fn zeroize_clears_keys_and_counts() {
    let mut ctx = NasSecurityContext::new(&[0x42; 32], NasEeaAlgorithm::Eea2, NasEiaAlgorithm::Eia2);
    ctx.protect_downlink(1, b"x");
    assert_ne!(ctx.k_nas_enc, [0; 16]);
    ctx.zeroize();
    assert_eq!((ctx.k_nas_enc, ctx.k_nas_int), ([0; 16], [0; 16]));
    assert_eq!((ctx.dl_count(), ctx.ul_count()), (0, 0));
}

// ── Subscribers ───────────────────────────────────────────────────────────────

#[test]
fn keys_are_read_from_hexadecimal() {
    assert_eq!(key_from_hex(K).unwrap().to_vec(), hex(K));
    assert_eq!(key_from_hex("00112233445566778899AABBCCDDEEFF").unwrap()[15], 0xFF);
    assert_eq!(key_from_hex("00"), Err(KeyFormatError::WrongLength { got: 2 }));
    assert_eq!(
        key_from_hex("0011223344556677x899aabbccddeeff"),
        Err(KeyFormatError::NotHexadecimal { position: 16 })
    );
}

#[test]
fn each_vector_uses_a_new_sqn() {
    let mut hss = Hss::new();
    assert!(hss.generate_auth_vector(7, [1; 16]).is_none());
    hss.provision_hex(7, K, OPC).unwrap();
    assert!(hss.has_subscriber(7));
    assert!(!hss.has_subscriber(8));
    let first = hss.generate_auth_vector(7, [1; 16]).unwrap();
    let second = hss.generate_auth_vector(7, [1; 16]).unwrap();
    assert_eq!(first.sqn_used, [0; 6]);
    assert_eq!(second.sqn_used, [0, 0, 0, 0, 0, 1]);
    assert_eq!(first.vector.res, second.vector.res);
    assert_ne!(first.vector.mac_a, second.vector.mac_a);
    hss.provision(7, [1; 16], [2; 16]);
    assert_eq!(hss.generate_auth_vector(7, [1; 16]).unwrap().sqn_used, [0; 6]);
}

#[test]
fn refused_keys_provision_nobody() {
    let mut hss = Hss::new();
    assert_eq!(hss.provision_hex(7, "short", "short too"), Err(KeyFormatError::WrongLength { got: 5 }));
    assert_eq!(hss.provision_hex(7, K, "short too"), Err(KeyFormatError::WrongLength { got: 9 }));
    assert!(!hss.has_subscriber(7));
}

// ── Entities and TEIDs ────────────────────────────────────────────────────────

#[test]
fn entities_come_and_go() {
    let mut w = World::with_capacity(4);
    assert!(!w.is_full());
    let a = w.spawn();
    let b = w.spawn();
    assert_ne!(a, b);
    assert_eq!(w.auth_state(a), Some(AuthState::Unauthenticated));
    w.set_auth_state(a, AuthState::Authenticated);
    assert!(w.is_authenticated(a) && !w.is_authenticated(b));
    assert_eq!((w.subscriber_count(), w.authenticated_count()), (2, 1));
    w.set_tunnel(a, TunnelComponent { ul_teid: 1, dl_teid: 2, enb_addr: [3; 4] });
    w.despawn(a);
    assert!(!w.is_live(a) && w.is_live(b));
    assert!(w.tunnel(a).is_none() && w.auth_state(a).is_none());
    w.despawn(a);
    let c = w.spawn();
    assert_eq!(c, a);
    assert!(w.tunnel(c).is_none(), "a new entity has nothing of the one before");
    w.set_auth_state(99, AuthState::Authenticated);
    assert!(!w.is_live(99));
}

#[test]
fn registry_finds_the_entity_of_an_imsi() {
    let mut r = ImsiRegistry::new();
    r.register(5, 1);
    r.register(5, 2);
    assert_eq!(r.lookup(5), Some(2));
    r.deregister(5);
    assert_eq!(r.lookup(5), None);
}

#[test]
fn teids_are_given_out_once() {
    let mut t = TeidAllocator::new(0x100);
    assert!(t.is_available());
    let (a, b) = (t.allocate(), t.allocate());
    assert_eq!((a, b), (0x100, 0x101));
    t.release(a);
    assert_eq!(t.free_count(), 1);
    assert_eq!(t.allocate(), a);
    assert_eq!(t.allocate(), 0x102);
}
