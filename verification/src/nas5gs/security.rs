//! 5G NAS security: 128-NEA2 and 128-NIA2.
//!
//! The algorithms are those of LTE NAS (`crate::nas::security`). What differs
//! is the key derivation (TS 33.501 Annex A.8, from KAMF), that algorithm
//! identities are plain numbers, and BEARER, which is the NAS connection
//! identifier of 3GPP access.

use vstd::prelude::*;

use crate::crypto::{hmac_sha256, hmac_sha256_tag};
use crate::nas::ie::{NasEeaAlgorithm, NasEiaAlgorithm};
use crate::nas::security::{NasSecurityContext, NasSecurityContextView};
use crate::octets::to_array;

verus! {

/// BEARER of 5G NAS security over 3GPP access.
pub const NAS5GS_BEARER: u8 = 1;

pub const FC_NAS5GS_ALGO_KEY_DERIVATION: u8 = 0x69;

pub const ALGO_DISTINGUISHER_N_NAS_ENC: u8 = 0x01;

pub const ALGO_DISTINGUISHER_N_NAS_INT: u8 = 0x02;

/// The input of the key derivation: FC, algorithm type distinguisher, its
/// length, algorithm identity, its length.
pub open spec fn nas5gs_key_input(distinguisher: u8, identity: u8) -> Seq<u8> {
    seq![FC_NAS5GS_ALGO_KEY_DERIVATION, distinguisher, 0, 1, identity, 0, 1]
}

/// A NAS key: the 128 least significant bits of the derived key.
pub open spec fn nas5gs_key(kamf: Seq<u8>, distinguisher: u8, identity: u8) -> Seq<u8> {
    Seq::new(16, |i: int| hmac_sha256_tag(kamf, nas5gs_key_input(distinguisher, identity))[16 + i])
}

/// Ciphering: none for identity 0, AES counter mode otherwise.
pub open spec fn cipher_of(identity: u8) -> NasEeaAlgorithm {
    if identity == 0 {
        NasEeaAlgorithm::Eea0
    } else {
        NasEeaAlgorithm::Eea2
    }
}

/// Integrity: none for identity 0, AES-CMAC otherwise.
pub open spec fn integrity_of(identity: u8) -> NasEiaAlgorithm {
    if identity == 0 {
        NasEiaAlgorithm::Eia0
    } else {
        NasEiaAlgorithm::Eia2
    }
}

/// The context that KAMF and the selected algorithms give.
pub open spec fn fresh_context(kamf: Seq<u8>, cipher: u8, integrity: u8) -> NasSecurityContextView {
    NasSecurityContextView {
        k_nas_enc: nas5gs_key(kamf, ALGO_DISTINGUISHER_N_NAS_ENC, cipher),
        k_nas_int: nas5gs_key(kamf, ALGO_DISTINGUISHER_N_NAS_INT, integrity),
        eea: cipher_of(cipher),
        eia: integrity_of(integrity),
        dl_count: 0,
        ul_count: 0,
    }
}

fn kdf_nas5gs_key(kamf: &[u8; 32], distinguisher: u8, identity: u8) -> (key: [u8; 16])
    ensures
        key@ == nas5gs_key(kamf@, distinguisher, identity),
{
    let s: [u8; 7] = [FC_NAS5GS_ALGO_KEY_DERIVATION, distinguisher, 0, 1, identity, 0, 1];
    assert(s@ =~= nas5gs_key_input(distinguisher, identity));
    let out = hmac_sha256(kamf.as_slice(), s.as_slice());
    let key = to_array::<16>(&out[16..32]);
    assert(key@ =~= nas5gs_key(kamf@, distinguisher, identity));
    key
}

/// 5G NAS security state of a subscriber.
pub struct Nas5gsSecurityContext {
    pub ctx: NasSecurityContext,
}

impl View for Nas5gsSecurityContext {
    type V = NasSecurityContextView;

    open spec fn view(&self) -> NasSecurityContextView {
        self.ctx@
    }
}

impl Clone for Nas5gsSecurityContext {
    fn clone(&self) -> (r: Self)
        ensures
            r@ == self@,
    {
        Nas5gsSecurityContext { ctx: self.ctx.clone() }
    }
}

impl Nas5gsSecurityContext {
    /// A fresh context for KAMF and the selected algorithms.
    pub fn new(kamf: &[u8; 32], cipher: u8, integrity: u8) -> (ctx: Self)
        ensures
            ctx@ == fresh_context(kamf@, cipher, integrity),
    {
        let k_nas_enc = kdf_nas5gs_key(kamf, ALGO_DISTINGUISHER_N_NAS_ENC, cipher);
        let k_nas_int = kdf_nas5gs_key(kamf, ALGO_DISTINGUISHER_N_NAS_INT, integrity);
        let eea = if cipher == 0 {
            NasEeaAlgorithm::Eea0
        } else {
            NasEeaAlgorithm::Eea2
        };
        let eia = if integrity == 0 {
            NasEiaAlgorithm::Eia0
        } else {
            NasEiaAlgorithm::Eia2
        };
        Nas5gsSecurityContext { ctx: NasSecurityContext::with_keys(k_nas_enc, k_nas_int, eea, eia) }
    }
}

} // verus!
