//! The cryptographic primitives, called in the RustCrypto crates.
//!
//! What a primitive returns is named, not spelled out: a contract over these
//! names says which key and which octets a primitive is applied to, and what
//! is done with its result.

use aes::cipher::{BlockEncrypt, KeyInit, KeyIvInit, StreamCipher};
use hmac::Mac;
use subtle::ConstantTimeEq;
use vstd::prelude::*;
use zeroize::Zeroize;

verus! {

/// The ciphertext block of AES-128 for a key and a plaintext block.
pub uninterp spec fn aes128_block(key: Seq<u8>, block: Seq<u8>) -> Seq<u8>;

/// Octet `i` of the AES-128 counter mode keystream for a key and an initial
/// counter block.
pub uninterp spec fn aes128_ctr_keystream(key: Seq<u8>, iv: Seq<u8>, i: int) -> u8;

/// The AES-128-CMAC tag of a message under a key.
pub uninterp spec fn aes128_cmac_tag(key: Seq<u8>, message: Seq<u8>) -> Seq<u8>;

/// The HMAC-SHA-256 tag of a message under a key.
pub uninterp spec fn hmac_sha256_tag(key: Seq<u8>, message: Seq<u8>) -> Seq<u8>;

/// `aes::Aes128::encrypt_block`: the block that AES-128 makes of `block`.
#[verifier::external_body]
pub(crate) fn aes128_encrypt(key: &[u8; 16], block: &[u8; 16]) -> (out: [u8; 16])
    ensures
        out@ == aes128_block(key@, block@),
{
    let cipher = aes::Aes128::new(key.into());
    let mut out = aes::Block::from(*block);
    cipher.encrypt_block(&mut out);
    out.into()
}

/// `StreamCipher::apply_keystream` of `ctr::Ctr128BE<aes::Aes128>`: every
/// octet of `data` is combined by exclusive or with the octet of the
/// keystream at its position. The keystream depends on the key and on the
/// initial counter block alone.
#[verifier::external_body]
pub(crate) fn aes128_ctr_apply(key: &[u8; 16], iv: &[u8; 16], data: &mut [u8])
    ensures
        final(data)@ == Seq::new(
            old(data)@.len(),
            |i: int| old(data)@[i] ^ aes128_ctr_keystream(key@, iv@, i),
        ),
{
    let mut cipher = ctr::Ctr128BE::<aes::Aes128>::new(key.into(), iv.into());
    cipher.apply_keystream(data);
}

/// `cmac::Cmac<aes::Aes128>` over one message: the tag of `message`.
#[verifier::external_body]
pub(crate) fn aes128_cmac(key: &[u8; 16], message: &[u8]) -> (tag: [u8; 16])
    ensures
        tag@ == aes128_cmac_tag(key@, message@),
{
    let mut mac = <cmac::Cmac<aes::Aes128> as Mac>::new(key.into());
    mac.update(message);
    mac.finalize().into_bytes().into()
}

/// `hmac::Hmac<sha2::Sha256>` over one message: the tag of `message`. A key
/// of any length is accepted.
#[verifier::external_body]
pub(crate) fn hmac_sha256(key: &[u8], message: &[u8]) -> (tag: [u8; 32])
    ensures
        tag@ == hmac_sha256_tag(key@, message@),
{
    let mut mac = <hmac::Hmac<sha2::Sha256> as Mac>::new_from_slice(key).expect("any key length is accepted");
    mac.update(message);
    mac.finalize().into_bytes().into()
}

/// `subtle::ConstantTimeEq::ct_eq` on slices: true if and only if both hold
/// the same octets. That the time taken does not depend on the octets is
/// not part of the contract.
#[verifier::external_body]
pub(crate) fn ct_eq(a: &[u8], b: &[u8]) -> (r: bool)
    ensures
        r == (a@ == b@),
{
    bool::from(a.ct_eq(b))
}

/// `zeroize::Zeroize::zeroize` on a slice: every octet is zero afterwards.
/// That the writes are not optimised away is not part of the contract.
#[verifier::external_body]
pub(crate) fn zeroize_octets(data: &mut [u8])
    ensures
        final(data)@ == Seq::new(old(data)@.len(), |i: int| 0u8),
{
    data.zeroize();
}

/// The exclusive or with a fixed mask undoes itself.
pub proof fn lemma_xor_twice(x: u8, y: u8)
    ensures
        (x ^ y) ^ y == x,
{
    assert((x ^ y) ^ y == x) by (bit_vector);
}

} // verus!
