//! Octet strings: the reference-counted buffers of the `bytes` crate, and
//! fixed-size arrays.

use bytes::Bytes;
use vstd::prelude::*;

verus! {

/// `bytes::Bytes`, an immutable octet string that is cheap to clone.
#[verifier::external_type_specification]
#[verifier::external_body]
pub struct ExBytes(bytes::Bytes);

/// The octets that a `Bytes` holds.
pub uninterp spec fn octets_of(b: Bytes) -> Seq<u8>;

/// The octets of an optional `Bytes`.
pub open spec fn opt_octets_of(b: Option<Bytes>) -> Option<Seq<u8>> {
    match b {
        Some(b) => Some(octets_of(b)),
        None => None,
    }
}

/// `<Bytes as Clone>::clone`: the clone holds the same octets.
pub assume_specification[ <bytes::Bytes as Clone>::clone ](b: &bytes::Bytes) -> (r: bytes::Bytes)
    ensures
        octets_of(r) == octets_of(*b),
;

/// `<Bytes as From<Vec<u8>>>::from`: the buffer holds the octets of the
/// vector.
#[verifier::external_body]
pub(crate) fn bytes_from_vec(v: Vec<u8>) -> (b: Bytes)
    ensures
        octets_of(b) == v@,
{
    Bytes::from(v)
}

/// `<Bytes as AsRef<[u8]>>::as_ref`: the slice shows the octets held.
#[verifier::external_body]
pub(crate) fn bytes_as_slice(b: &Bytes) -> (s: &[u8])
    ensures
        s@ == octets_of(*b),
{
    b.as_ref()
}

/// A 32-bit number, big-endian.
pub open spec fn u32_octets(v: u32) -> Seq<u8> {
    seq![(v / 0x100_0000) as u8, (v / 0x1_0000 % 256) as u8, (v / 0x100 % 256) as u8, (v % 256) as u8]
}

/// The number that four octets denote, big-endian.
pub open spec fn octets_u32(s: Seq<u8>) -> u32 {
    (s[0] * 0x100_0000 + s[1] * 0x1_0000 + s[2] * 0x100 + s[3]) as u32
}

/// A number is recovered from its octets.
pub proof fn u32_round_trip(v: u32)
    ensures
        octets_u32(u32_octets(v)) == v,
{
    assert(v / 0x100_0000 < 256 && v / 0x100_0000 * 0x100_0000 + v / 0x1_0000 % 256 * 0x1_0000 + v / 0x100 % 256
        * 0x100 + v % 256 == v) by (bit_vector);
}

/// Octets are recovered from the number that they denote.
pub proof fn octets_round_trip(s: Seq<u8>)
    requires
        s.len() == 4,
    ensures
        u32_octets(octets_u32(s)) == s,
{
    let v = octets_u32(s);
    assert(v / 0x100_0000 == s[0]);
    assert(v / 0x1_0000 == s[0] * 256 + s[1]);
    assert(v / 0x100 == (s[0] * 256 + s[1]) * 256 + s[2]);
    assert(u32_octets(v) =~= s);
}

pub fn u32_to_octets(v: u32) -> (a: [u8; 4])
    ensures
        a@ == u32_octets(v),
{
    let a: [u8; 4] = [
        (v / 0x100_0000) as u8,
        (v / 0x1_0000 % 256) as u8,
        (v / 0x100 % 256) as u8,
        (v % 256) as u8,
    ];
    assert(a@ =~= u32_octets(v));
    a
}

pub fn octets_to_u32(a: &[u8; 4]) -> (v: u32)
    ensures
        v == octets_u32(a@),
{
    a[0] as u32 * 0x100_0000 + a[1] as u32 * 0x1_0000 + a[2] as u32 * 0x100 + a[3] as u32
}

/// Copies a slice of exactly `N` octets into an array.
pub(crate) fn to_array<const N: usize>(s: &[u8]) -> (a: [u8; N])
    requires
        s@.len() == N,
    ensures
        a@ == s@,
{
    let mut a: [u8; N] = vstd::array::array_fill_for_copy_types(0u8);
    let mut i: usize = 0;
    while i < N
        invariant
            i <= N,
            s@.len() == N,
            a@.len() == N,
            forall|k: int| 0 <= k < i ==> a@[k] == s@[k],
        decreases N - i,
    {
        a[i] = s[i];
        i += 1;
    }
    assert(a@ =~= s@);
    a
}

/// Appends a slice to a vector.
pub(crate) fn append(out: &mut Vec<u8>, s: &[u8])
    ensures
        final(out)@ == old(out)@ + s@,
{
    out.extend_from_slice(s);
    assert(out@ =~= old(out)@ + s@);
}

/// Copies a slice into a new vector.
pub(crate) fn to_vec(s: &[u8]) -> (v: Vec<u8>)
    ensures
        v@ == s@,
{
    let mut v: Vec<u8> = Vec::new();
    append(&mut v, s);
    assert(v@ =~= s@);
    v
}

} // verus!
