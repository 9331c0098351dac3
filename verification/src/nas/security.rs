//! NAS security: 128-EEA2 ciphering and 128-EIA2 integrity protection.
//!
//! - 128-EEA2 (TS 33.401 Annex B.1.3): AES-128 in counter mode, the initial
//!   counter block made of COUNT, BEARER and DIRECTION.
//! - 128-EIA2: AES-128-CMAC over COUNT, the BEARER/DIRECTION octet and the
//!   message, cut to its leftmost 32 bits (MAC-I).
//! - NAS key derivation (TS 33.401 Annex A.7): HMAC-SHA-256, of which the 128
//!   least significant bits are the key.
//!
//! A message is ciphered first and authenticated then; on receipt it is
//! verified first and deciphered then. Every algorithm other than the null
//! one is carried out as EEA2 or EIA2.
//!
//! TS 33.401 fixes BEARER at 0 for NAS: see [`NAS_BEARER`].

use vstd::prelude::*;

use crate::crypto::{
    aes128_cmac, aes128_cmac_tag, aes128_ctr_apply, aes128_ctr_keystream, ct_eq, hmac_sha256, hmac_sha256_tag,
    lemma_xor_twice, zeroize_octets,
};
use crate::nas::describe::{context_text, describe};
use crate::nas::ie::{NasEeaAlgorithm, NasEiaAlgorithm};
use crate::octets::{append, to_array, to_vec, u32_octets, u32_round_trip, u32_to_octets};

verus! {

/// BEARER of all NAS security operations.
pub const NAS_BEARER: u8 = 0;

/// Which way a message travels. It enters the keystream and the MAC.
#[derive(Debug, Clone, Copy, PartialEq, Eq, Structural)]
pub enum Direction {
    Uplink,
    Downlink,
}

impl Direction {
    /// The DIRECTION bit.
    pub open spec fn spec_bit(self) -> u8 {
        match self {
            Direction::Uplink => 0,
            Direction::Downlink => 1,
        }
    }

    pub fn bit(self) -> (b: u8)
        ensures
            b == self.spec_bit(),
    {
        match self {
            Direction::Uplink => 0,
            Direction::Downlink => 1,
        }
    }
}

// ── COUNT, BEARER and DIRECTION ───────────────────────────────────────────────

/// The octet with BEARER in bits 7 to 3 and DIRECTION in bit 2.
pub open spec fn bearer_octet(bearer: u8, direction: Direction) -> u8 {
    (bearer % 32 * 8 + direction.spec_bit() * 4) as u8
}

/// COUNT, then the BEARER/DIRECTION octet.
pub open spec fn count_prefix(count: u32, bearer: u8, direction: Direction) -> Seq<u8> {
    u32_octets(count).push(bearer_octet(bearer, direction))
}

/// The initial counter block of 128-EEA2.
pub open spec fn counter_block(count: u32, bearer: u8, direction: Direction) -> Seq<u8> {
    count_prefix(count, bearer, direction) + Seq::new(11, |i: int| 0u8)
}

/// Messages that differ in COUNT, BEARER or DIRECTION are ciphered from
/// different counter blocks.
pub proof fn counter_block_is_injective(c1: u32, b1: u8, d1: Direction, c2: u32, b2: u8, d2: Direction)
    requires
        counter_block(c1, b1, d1) == counter_block(c2, b2, d2),
    ensures
        c1 == c2,
        b1 % 32 == b2 % 32,
        d1 == d2,
{
    let x = counter_block(c1, b1, d1);
    let y = counter_block(c2, b2, d2);
    assert(x[4] == bearer_octet(b1, d1));
    assert(y[4] == bearer_octet(b2, d2));
    assert(x.subrange(0, 4) =~= u32_octets(c1));
    assert(y.subrange(0, 4) =~= u32_octets(c2));
    u32_round_trip(c1);
    u32_round_trip(c2);
}

fn bearer_direction_octet(bearer: u8, direction: Direction) -> (b: u8)
    ensures
        b == bearer_octet(bearer, direction),
{
    let d: u8 = direction.bit();
    assert(((bearer & 0x1F) << 3) | ((d & 0x01) << 2) == bearer % 32 * 8 + d * 4) by (bit_vector)
        requires
            d < 2,
    ;
    ((bearer & 0x1F) << 3) | ((d & 0x01) << 2)
}

fn eea2_counter_block(count: u32, bearer: u8, direction: Direction) -> (cb: [u8; 16])
    ensures
        cb@ == counter_block(count, bearer, direction),
{
    let c = u32_to_octets(count);
    let cb: [u8; 16] = [
        c[0],
        c[1],
        c[2],
        c[3],
        bearer_direction_octet(bearer, direction),
        0,
        0,
        0,
        0,
        0,
        0,
        0,
        0,
        0,
        0,
        0,
    ];
    assert(cb@ =~= counter_block(count, bearer, direction));
    cb
}

// ── 128-EEA2 ──────────────────────────────────────────────────────────────────

/// `data` combined with the 128-EEA2 keystream.
pub open spec fn eea2(key: Seq<u8>, count: u32, bearer: u8, direction: Direction, data: Seq<u8>) -> Seq<u8> {
    Seq::new(
        data.len(),
        |i: int| data[i] ^ aes128_ctr_keystream(key, counter_block(count, bearer, direction), i),
    )
}

/// Ciphering twice with the same parameters gives the plaintext back.
pub proof fn eea2_is_its_own_inverse(key: Seq<u8>, count: u32, bearer: u8, direction: Direction, data: Seq<u8>)
    ensures
        eea2(key, count, bearer, direction, eea2(key, count, bearer, direction, data)) == data,
{
    let once = eea2(key, count, bearer, direction, data);
    let twice = eea2(key, count, bearer, direction, once);
    assert forall|i: int| 0 <= i < data.len() implies twice[i] == data[i] by {
        lemma_xor_twice(data[i], aes128_ctr_keystream(key, counter_block(count, bearer, direction), i));
    }
    assert(twice =~= data);
}

/// Applies the 128-EEA2 keystream to `data` in place. There is no separate
/// decryption: a second application undoes the first.
pub fn eea2_apply(key: &[u8; 16], count: u32, bearer: u8, direction: Direction, data: &mut [u8])
    ensures
        final(data)@ == eea2(key@, count, bearer, direction, old(data)@),
{
    let cb = eea2_counter_block(count, bearer, direction);
    aes128_ctr_apply(key, &cb, data);
    assert(data@ =~= eea2(key@, count, bearer, direction, old(data)@));
}

// ── 128-EIA2 ──────────────────────────────────────────────────────────────────

/// The 128-EIA2 MAC-I of a message.
pub open spec fn eia2(key: Seq<u8>, count: u32, bearer: u8, direction: Direction, message: Seq<u8>) -> Seq<u8> {
    Seq::new(4, |i: int| aes128_cmac_tag(key, count_prefix(count, bearer, direction) + message)[i])
}

pub fn eia2_compute_mac(key: &[u8; 16], count: u32, bearer: u8, direction: Direction, message: &[u8]) -> (mac_i: [u8;
    4])
    ensures
        mac_i@ == eia2(key@, count, bearer, direction, message@),
{
    let c = u32_to_octets(count);
    let mut input: Vec<u8> = Vec::new();
    append(&mut input, c.as_slice());
    input.push(bearer_direction_octet(bearer, direction));
    append(&mut input, message);
    assert(input@ =~= count_prefix(count, bearer, direction) + message@);
    let tag = aes128_cmac(key, input.as_slice());
    let mac_i: [u8; 4] = [tag[0], tag[1], tag[2], tag[3]];
    assert(mac_i@ =~= eia2(key@, count, bearer, direction, message@));
    mac_i
}

/// Verifies a MAC-I. The comparison is made in constant time.
pub fn eia2_verify_mac(
    key: &[u8; 16],
    count: u32,
    bearer: u8,
    direction: Direction,
    message: &[u8],
    received_mac: &[u8; 4],
) -> (ok: bool)
    ensures
        ok == (received_mac@ == eia2(key@, count, bearer, direction, message@)),
{
    let expected = eia2_compute_mac(key, count, bearer, direction, message);
    ct_eq(expected.as_slice(), received_mac.as_slice())
}

// ── Key derivation ────────────────────────────────────────────────────────────

pub const FC_NAS_ALGO_KEY_DERIVATION: u8 = 0x15;

pub const ALGO_DISTINGUISHER_NAS_ENC: u8 = 0x01;

pub const ALGO_DISTINGUISHER_NAS_INT: u8 = 0x02;

/// The input of the key derivation: FC, P0 (algorithm type distinguisher), its
/// length, P1 (algorithm identity), its length.
pub open spec fn nas_key_input(distinguisher: u8, identity: u8) -> Seq<u8> {
    seq![FC_NAS_ALGO_KEY_DERIVATION, distinguisher, 0, 1, identity, 0, 1]
}

/// A NAS key: the 128 least significant bits of the derived key.
pub open spec fn nas_key(kasme: Seq<u8>, distinguisher: u8, identity: u8) -> Seq<u8> {
    Seq::new(16, |i: int| hmac_sha256_tag(kasme, nas_key_input(distinguisher, identity))[16 + i])
}

/// The encryption and the integrity key, and keys for different algorithms,
/// are derived from different inputs.
pub proof fn nas_key_inputs_are_separate(d1: u8, i1: u8, d2: u8, i2: u8)
    ensures
        nas_key_input(d1, i1) == nas_key_input(d2, i2) ==> d1 == d2 && i1 == i2,
        nas_key_input(ALGO_DISTINGUISHER_NAS_ENC, i1) != nas_key_input(ALGO_DISTINGUISHER_NAS_INT, i2),
{
    assert(nas_key_input(d1, i1)[1] == d1 && nas_key_input(d1, i1)[4] == i1);
    assert(nas_key_input(d2, i2)[1] == d2 && nas_key_input(d2, i2)[4] == i2);
    assert(nas_key_input(ALGO_DISTINGUISHER_NAS_ENC, i1)[1] == 1);
    assert(nas_key_input(ALGO_DISTINGUISHER_NAS_INT, i2)[1] == 2);
}

fn kdf_nas_key(kasme: &[u8; 32], algorithm_distinguisher: u8, algorithm_identity: u8) -> (key: [u8; 16])
    ensures
        key@ == nas_key(kasme@, algorithm_distinguisher, algorithm_identity),
{
    let s: [u8; 7] = [
        FC_NAS_ALGO_KEY_DERIVATION,
        algorithm_distinguisher,
        0,
        1,
        algorithm_identity,
        0,
        1,
    ];
    assert(s@ =~= nas_key_input(algorithm_distinguisher, algorithm_identity));
    let out = hmac_sha256(kasme.as_slice(), s.as_slice());
    let key = to_array::<16>(&out[16..32]);
    assert(key@ =~= nas_key(kasme@, algorithm_distinguisher, algorithm_identity));
    key
}

/// Both NAS keys for the negotiated algorithms: encryption, then integrity.
pub fn derive_nas_keys(kasme: &[u8; 32], eea: NasEeaAlgorithm, eia: NasEiaAlgorithm) -> (keys: ([u8; 16], [u8; 16]))
    ensures
        keys.0@ == nas_key(kasme@, ALGO_DISTINGUISHER_NAS_ENC, eea.spec_id()),
        keys.1@ == nas_key(kasme@, ALGO_DISTINGUISHER_NAS_INT, eia.spec_id()),
        forall|i: int|
            0 <= i < 16 ==> #[trigger] keys.0@[i] == hmac_sha256_tag(
                kasme@,
                seq![0x15u8, 1, 0, 1, eea.spec_id(), 0, 1],
            )[16 + i],
        forall|i: int|
            0 <= i < 16 ==> #[trigger] keys.1@[i] == hmac_sha256_tag(
                kasme@,
                seq![0x15u8, 2, 0, 1, eia.spec_id(), 0, 1],
            )[16 + i],
{
    let k_nas_enc = kdf_nas_key(kasme, ALGO_DISTINGUISHER_NAS_ENC, eea.id());
    let k_nas_int = kdf_nas_key(kasme, ALGO_DISTINGUISHER_NAS_INT, eia.id());
    (k_nas_enc, k_nas_int)
}

// ── COUNT reconstruction ──────────────────────────────────────────────────────

/// The COUNT that a received low-order octet stands for: the first one from
/// `last` on with that octet. Past the last COUNT of all, counting starts
/// over.
pub open spec fn reconstructed(last: u32, seq: u8) -> u32 {
    let candidate = last / 256 * 256 + seq;
    if candidate >= last {
        candidate as u32
    } else if last < 0xFFFF_FF00 {
        (candidate + 256) as u32
    } else {
        seq as u32
    }
}

/// A reconstructed COUNT has the received octet, and is the smallest such
/// COUNT that is not below the tracked one, where there is one.
pub proof fn reconstructed_is_smallest(last: u32, seq: u8, other: u32)
    ensures
        reconstructed(last, seq) % 256 == seq,
        other >= last && other % 256 == seq ==> last <= reconstructed(last, seq) <= other,
{
}

/// The receiver recovers the sender's COUNT from its low-order octet as long
/// as it has missed fewer than 256 messages.
pub proof fn reconstruction_recovers_count(last: u32, count: u32)
    requires
        last <= count < last + 256,
    ensures
        reconstructed(last, (count % 256) as u8) == count,
{
}

pub fn reconstruct_count(last_count: u32, received_seq_byte: u8) -> (count: u32)
    ensures
        count == reconstructed(last_count, received_seq_byte),
{
    let high: u32 = last_count - last_count % 256;
    let candidate: u32 = high + received_seq_byte as u32;
    if candidate >= last_count {
        candidate
    } else {
        high.wrapping_add(0x100) + received_seq_byte as u32
    }
}

// ── Security context ──────────────────────────────────────────────────────────

/// One protected outbound message: the COUNT it used, its MAC-I, and its
/// payload.
#[derive(Debug, Clone)]
pub struct ProtectedNas {
    pub count: u32,
    pub mac_i: [u8; 4],
    pub payload: Vec<u8>,
}

/// NAS security state of a subscriber: keys, algorithms, and one COUNT for
/// each direction.
///
/// `zeroize` clears the keys and the COUNTs. There is no `Debug`: the keys
/// are session secrets, and `debug_text` leaves them out.
pub struct NasSecurityContext {
    pub k_nas_enc: [u8; 16],
    pub k_nas_int: [u8; 16],
    pub eea: NasEeaAlgorithm,
    pub eia: NasEiaAlgorithm,
    dl_count: u32,
    ul_count: u32,
}

impl Clone for NasSecurityContext {
    fn clone(&self) -> (r: Self)
        ensures
            r@ == self@,
    {
        NasSecurityContext {
            k_nas_enc: self.k_nas_enc,
            k_nas_int: self.k_nas_int,
            eea: self.eea,
            eia: self.eia,
            dl_count: self.dl_count,
            ul_count: self.ul_count,
        }
    }
}

#[verifier::ext_equal]
pub struct NasSecurityContextView {
    pub k_nas_enc: Seq<u8>,
    pub k_nas_int: Seq<u8>,
    pub eea: NasEeaAlgorithm,
    pub eia: NasEiaAlgorithm,
    pub dl_count: u32,
    pub ul_count: u32,
}

impl View for NasSecurityContext {
    type V = NasSecurityContextView;

    closed spec fn view(&self) -> NasSecurityContextView {
        NasSecurityContextView {
            k_nas_enc: self.k_nas_enc@,
            k_nas_int: self.k_nas_int@,
            eea: self.eea,
            eia: self.eia,
            dl_count: self.dl_count,
            ul_count: self.ul_count,
        }
    }
}

/// The next COUNT.
pub open spec fn next_count(count: u32) -> u32 {
    if count == u32::MAX {
        0
    } else {
        (count + 1) as u32
    }
}

impl NasSecurityContextView {
    /// Payload of a protected message.
    pub open spec fn payload(self, count: u32, bearer: u8, direction: Direction, plain: Seq<u8>) -> Seq<u8> {
        if self.eea == NasEeaAlgorithm::Eea0 {
            plain
        } else {
            eea2(self.k_nas_enc, count, bearer, direction, plain)
        }
    }

    /// MAC-I over the payload of a protected message.
    pub open spec fn mac_i(self, count: u32, bearer: u8, direction: Direction, payload: Seq<u8>) -> Seq<u8> {
        if self.eia == NasEiaAlgorithm::Eia0 {
            seq![0, 0, 0, 0]
        } else {
            eia2(self.k_nas_int, count, bearer, direction, payload)
        }
    }

    /// What a received message holds; `None` when its MAC-I does not verify.
    pub open spec fn opened(
        self,
        count: u32,
        bearer: u8,
        direction: Direction,
        mac_i: Seq<u8>,
        ciphertext: Seq<u8>,
    ) -> Option<Seq<u8>> {
        if self.eia != NasEiaAlgorithm::Eia0 && mac_i != eia2(self.k_nas_int, count, bearer, direction, ciphertext) {
            None
        } else {
            Some(self.payload(count, bearer, direction, ciphertext))
        }
    }

    /// The same keys and algorithms.
    pub open spec fn agrees_with(self, other: Self) -> bool {
        &&& self.k_nas_enc == other.k_nas_enc
        &&& self.k_nas_int == other.k_nas_int
        &&& self.eea == other.eea
        &&& self.eia == other.eia
    }

    pub open spec fn with_dl_count(self, dl_count: u32) -> Self {
        NasSecurityContextView { dl_count, ..self }
    }

    pub open spec fn with_ul_count(self, ul_count: u32) -> Self {
        NasSecurityContextView { ul_count, ..self }
    }

    /// The keys and the COUNTs zero, the algorithms as they were.
    pub open spec fn zeroized(self) -> Self {
        NasSecurityContextView {
            k_nas_enc: Seq::new(16, |i: int| 0u8),
            k_nas_int: Seq::new(16, |i: int| 0u8),
            dl_count: 0,
            ul_count: 0,
            ..self
        }
    }
}

/// A protected message opens to the plaintext on the side that shares the
/// keys and knows its COUNT, whatever the algorithms.
pub proof fn protection_round_trip(
    sender: NasSecurityContextView,
    receiver: NasSecurityContextView,
    count: u32,
    bearer: u8,
    direction: Direction,
    plain: Seq<u8>,
)
    requires
        sender.agrees_with(receiver),
    ensures
        ({
            let payload = sender.payload(count, bearer, direction, plain);
            let mac_i = sender.mac_i(count, bearer, direction, payload);
            receiver.opened(count, bearer, direction, mac_i, payload) == Some(plain)
        }),
{
    eea2_is_its_own_inverse(sender.k_nas_enc, count, bearer, direction, plain);
}

impl NasSecurityContext {
    /// A fresh context for a key and the algorithms agreed on; both COUNTs
    /// start at 0.
    pub fn new(kasme: &[u8; 32], eea: NasEeaAlgorithm, eia: NasEiaAlgorithm) -> (ctx: Self)
        ensures
            ctx@ == (NasSecurityContextView {
                k_nas_enc: nas_key(kasme@, ALGO_DISTINGUISHER_NAS_ENC, eea.spec_id()),
                k_nas_int: nas_key(kasme@, ALGO_DISTINGUISHER_NAS_INT, eia.spec_id()),
                eea,
                eia,
                dl_count: 0,
                ul_count: 0,
            }),
    {
        let (k_nas_enc, k_nas_int) = derive_nas_keys(kasme, eea, eia);
        Self::with_keys(k_nas_enc, k_nas_int, eea, eia)
    }

    /// A context for given keys; both COUNTs start at 0.
    pub fn with_keys(
        k_nas_enc: [u8; 16],
        k_nas_int: [u8; 16],
        eea: NasEeaAlgorithm,
        eia: NasEiaAlgorithm,
    ) -> (ctx: Self)
        ensures
            ctx@ == (NasSecurityContextView {
                k_nas_enc: k_nas_enc@,
                k_nas_int: k_nas_int@,
                eea,
                eia,
                dl_count: 0,
                ul_count: 0,
            }),
    {
        NasSecurityContext { k_nas_enc, k_nas_int, eea, eia, dl_count: 0, ul_count: 0 }
    }

    pub fn dl_count(&self) -> (c: u32)
        ensures
            c == (self@).dl_count,
    {
        self.dl_count
    }

    pub fn ul_count(&self) -> (c: u32)
        ensures
            c == (self@).ul_count,
    {
        self.ul_count
    }

    /// The context as text, for a log. The keys are never shown.
    pub fn debug_text(&self) -> (text: String)
        ensures
            text@ == context_text(self@),
    {
        describe(self.eea, self.eia, self.dl_count, self.ul_count)
    }

    /// Protects an outbound message of the network; uses up one downlink
    /// COUNT.
    pub fn protect_downlink(&mut self, bearer: u8, plain: &[u8]) -> (p: ProtectedNas)
        ensures
            p.count == (old(self)@).dl_count,
            p.payload@ == (old(self)@).payload(p.count, bearer, Direction::Downlink, plain@),
            p.mac_i@ == (old(self)@).mac_i(p.count, bearer, Direction::Downlink, p.payload@),
            final(self)@ == (old(self)@).with_dl_count(next_count(p.count)),
    {
        let count: u32 = self.dl_count;
        self.dl_count = self.dl_count.wrapping_add(1);
        self.protect(count, bearer, Direction::Downlink, plain)
    }

    /// Verifies and deciphers an inbound message of the network. A message
    /// that is accepted moves the uplink COUNT past its own; one that is
    /// refused leaves the context as it was.
    pub fn unprotect_uplink(&mut self, bearer: u8, seq_byte: u8, mac_i: [u8; 4], ciphertext: &[u8]) -> (r: Option<
        Vec<u8>,
    >)
        ensures
            ({
                let before = old(self)@;
                let count = reconstructed(before.ul_count, seq_byte);
                match before.opened(count, bearer, Direction::Uplink, mac_i@, ciphertext@) {
                    Some(plain) => r is Some && r->0@ == plain && final(self)@ == before.with_ul_count(
                        next_count(count),
                    ),
                    None => r is None && final(self)@ == before,
                }
            }),
    {
        let count: u32 = reconstruct_count(self.ul_count, seq_byte);
        match self.unprotect(count, bearer, Direction::Uplink, mac_i, ciphertext) {
            Some(plain) => {
                self.ul_count = count.wrapping_add(1);
                Some(plain)
            },
            None => None,
        }
    }

    /// Protects an outbound message of the UE; uses up one uplink COUNT.
    pub fn protect_uplink(&mut self, bearer: u8, plain: &[u8]) -> (p: ProtectedNas)
        ensures
            p.count == (old(self)@).ul_count,
            p.payload@ == (old(self)@).payload(p.count, bearer, Direction::Uplink, plain@),
            p.mac_i@ == (old(self)@).mac_i(p.count, bearer, Direction::Uplink, p.payload@),
            final(self)@ == (old(self)@).with_ul_count(next_count(p.count)),
    {
        let count: u32 = self.ul_count;
        self.ul_count = self.ul_count.wrapping_add(1);
        self.protect(count, bearer, Direction::Uplink, plain)
    }

    /// Verifies and deciphers an inbound message of the UE, as
    /// `unprotect_uplink` does for the network.
    pub fn unprotect_downlink(&mut self, bearer: u8, seq_byte: u8, mac_i: [u8; 4], ciphertext: &[u8]) -> (r: Option<
        Vec<u8>,
    >)
        ensures
            ({
                let before = old(self)@;
                let count = reconstructed(before.dl_count, seq_byte);
                match before.opened(count, bearer, Direction::Downlink, mac_i@, ciphertext@) {
                    Some(plain) => r is Some && r->0@ == plain && final(self)@ == before.with_dl_count(
                        next_count(count),
                    ),
                    None => r is None && final(self)@ == before,
                }
            }),
    {
        let count: u32 = reconstruct_count(self.dl_count, seq_byte);
        match self.unprotect(count, bearer, Direction::Downlink, mac_i, ciphertext) {
            Some(plain) => {
                self.dl_count = count.wrapping_add(1);
                Some(plain)
            },
            None => None,
        }
    }

    fn protect(&self, count: u32, bearer: u8, dir: Direction, plain: &[u8]) -> (p: ProtectedNas)
        ensures
            p.count == count,
            p.payload@ == (self@).payload(count, bearer, dir, plain@),
            p.mac_i@ == (self@).mac_i(count, bearer, dir, p.payload@),
    {
        let mut payload = to_vec(plain);
        if self.eea != NasEeaAlgorithm::Eea0 {
            eea2_apply(&self.k_nas_enc, count, bearer, dir, payload.as_mut_slice());
        }
        let mac_i: [u8; 4] = if self.eia != NasEiaAlgorithm::Eia0 {
            eia2_compute_mac(&self.k_nas_int, count, bearer, dir, payload.as_slice())
        } else {
            [0, 0, 0, 0]
        };
        assert(self.eia == NasEiaAlgorithm::Eia0 ==> mac_i@ =~= seq![0u8, 0, 0, 0]);
        ProtectedNas { count, mac_i, payload }
    }

    fn unprotect(&self, count: u32, bearer: u8, dir: Direction, mac_i: [u8; 4], ciphertext: &[u8]) -> (r: Option<
        Vec<u8>,
    >)
        ensures
            match (self@).opened(count, bearer, dir, mac_i@, ciphertext@) {
                Some(plain) => r is Some && r->0@ == plain,
                None => r is None,
            },
    {
        if self.eia != NasEiaAlgorithm::Eia0 && !eia2_verify_mac(
            &self.k_nas_int,
            count,
            bearer,
            dir,
            ciphertext,
            &mac_i,
        ) {
            return None;
        }
        let mut payload = to_vec(ciphertext);
        if self.eea != NasEeaAlgorithm::Eea0 {
            eea2_apply(&self.k_nas_enc, count, bearer, dir, payload.as_mut_slice());
        }
        Some(payload)
    }

    /// Overwrites the keys and the COUNTs with zeros; the algorithms stay.
    pub fn zeroize(&mut self)
        ensures
            final(self)@ == (old(self)@).zeroized(),
    {
        zeroize_octets(&mut self.k_nas_enc);
        zeroize_octets(&mut self.k_nas_int);
        self.dl_count = 0;
        self.ul_count = 0;
    }
}

} // verus!
