//! Building blocks of NAS messages: nibbles, LV and TLV framing, mobile
//! identities, security algorithm identifiers.

use vstd::prelude::*;

use crate::octets::append;

verus! {

// ── Nibbles ───────────────────────────────────────────────────────────────────

pub fn low_nibble(b: u8) -> (n: u8)
    ensures
        n == b % 16,
{
    assert(b & 0x0F == b % 16) by (bit_vector);
    b & 0x0F
}

pub fn high_nibble(b: u8) -> (n: u8)
    ensures
        n == b / 16,
{
    assert((b >> 4) & 0x0F == b / 16) by (bit_vector);
    (b >> 4) & 0x0F
}

/// The three low-order bits.
pub fn low_three_bits(b: u8) -> (n: u8)
    ensures
        n == b % 8,
{
    assert(b & 0x07 == b % 8) by (bit_vector);
    b & 0x07
}

/// The octet with these nibbles.
pub fn nibbles(high: u8, low: u8) -> (b: u8)
    requires
        high < 16,
        low < 16,
    ensures
        b == 16 * high + low,
{
    assert((high << 4) | low == 16 * high + low) by (bit_vector)
        requires
            high < 16,
            low < 16,
    ;
    (high << 4) | low
}

// ── LV and TLV ────────────────────────────────────────────────────────────────

/// The value of a length-value pair at the start of `d`, and what follows.
pub open spec fn lv(d: Seq<u8>) -> Option<(Seq<u8>, Seq<u8>)> {
    if d.len() < 1 || d.len() < 1 + d[0] {
        None
    } else {
        Some((d.subrange(1, 1 + d[0]), d.subrange(1 + d[0], d.len() as int)))
    }
}

/// A length-value pair.
pub open spec fn lv_octets(v: Seq<u8>) -> Seq<u8> {
    seq![v.len() as u8] + v
}

/// Type and value of a type-length-value triple at the start of `d`, and what
/// follows.
pub open spec fn tlv(d: Seq<u8>) -> Option<(u8, Seq<u8>, Seq<u8>)> {
    if d.len() < 2 || d.len() < 2 + d[1] {
        None
    } else {
        Some((d[0], d.subrange(2, 2 + d[1]), d.subrange(2 + d[1], d.len() as int)))
    }
}

/// A type-length-value triple.
pub open spec fn tlv_octets(iei: u8, v: Seq<u8>) -> Seq<u8> {
    seq![iei, v.len() as u8] + v
}

/// A length-value pair is read back, with what follows it.
pub proof fn lv_round_trip(v: Seq<u8>, rest: Seq<u8>)
    requires
        v.len() <= 255,
    ensures
        lv(lv_octets(v) + rest) == Some((v, rest)),
{
    let d = lv_octets(v) + rest;
    assert(d.subrange(1, 1 + d[0]) =~= v);
    assert(d.subrange(1 + d[0], d.len() as int) =~= rest);
}

/// A type-length-value triple is read back, with what follows it.
pub proof fn tlv_round_trip(iei: u8, v: Seq<u8>, rest: Seq<u8>)
    requires
        v.len() <= 255,
    ensures
        tlv(tlv_octets(iei, v) + rest) == Some((iei, v, rest)),
{
    let d = tlv_octets(iei, v) + rest;
    assert(d.subrange(2, 2 + d[1]) =~= v);
    assert(d.subrange(2 + d[1], d.len() as int) =~= rest);
}

pub fn read_lv<'a>(buf: &'a [u8]) -> (r: Option<(&'a [u8], &'a [u8])>)
    ensures
        match lv(buf@) {
            Some((v, rest)) => r is Some && (r->0).0@ == v && (r->0).1@ == rest,
            None => r is None,
        },
{
    let len: usize = buf.len();
    if len < 1 {
        return None;
    }
    let n: usize = buf[0] as usize;
    if len - 1 < n {
        return None;
    }
    Some((&buf[1..1 + n], &buf[1 + n..len]))
}

pub fn write_lv(buf: &mut Vec<u8>, v: &[u8])
    requires
        v@.len() <= 255,
    ensures
        final(buf)@ == old(buf)@ + lv_octets(v@),
{
    buf.push(v.len() as u8);
    append(buf, v);
    assert(buf@ =~= old(buf)@ + lv_octets(v@));
}

pub fn read_tlv<'a>(buf: &'a [u8]) -> (r: Option<(u8, &'a [u8], &'a [u8])>)
    ensures
        match tlv(buf@) {
            Some((iei, v, rest)) => r is Some && (r->0).0 == iei && (r->0).1@ == v && (r->0).2@ == rest,
            None => r is None,
        },
{
    let len: usize = buf.len();
    if len < 2 {
        return None;
    }
    let n: usize = buf[1] as usize;
    if len - 2 < n {
        return None;
    }
    Some((buf[0], &buf[2..2 + n], &buf[2 + n..len]))
}

pub fn write_tlv(buf: &mut Vec<u8>, iei: u8, v: &[u8])
    requires
        v@.len() <= 255,
    ensures
        final(buf)@ == old(buf)@ + tlv_octets(iei, v@),
{
    buf.push(iei);
    buf.push(v.len() as u8);
    append(buf, v);
    assert(buf@ =~= old(buf)@ + tlv_octets(iei, v@));
}

// ── Decimal digits ────────────────────────────────────────────────────────────

/// The decimal digits of `v`, most significant first; one digit for zero.
pub open spec fn decimal_digits(v: nat) -> Seq<u8>
    decreases v,
{
    if v < 10 {
        seq![v as u8]
    } else {
        decimal_digits(v / 10).push((v % 10) as u8)
    }
}

/// The number that decimal digits denote.
pub open spec fn digits_value(s: Seq<u8>) -> nat
    decreases s.len(),
{
    if s.len() == 0 {
        0
    } else {
        10 * digits_value(s.drop_last()) + s.last() as nat
    }
}

pub open spec fn all_digits(s: Seq<u8>) -> bool {
    forall|i: int| 0 <= i < s.len() ==> #[trigger] s[i] <= 9
}

/// The decimal digits of a number denote it.
pub proof fn digits_round_trip(v: nat)
    ensures
        digits_value(decimal_digits(v)) == v,
        decimal_digits(v).len() >= 1,
        all_digits(decimal_digits(v)),
    decreases v,
{
    if v < 10 {
        let s = decimal_digits(v);
        assert(s.drop_last() =~= Seq::<u8>::empty());
        assert(digits_value(s.drop_last()) == 0);
    } else {
        digits_round_trip(v / 10);
        assert(decimal_digits(v).drop_last() =~= decimal_digits(v / 10));
    }
}

/// A 64-bit number has at most twenty decimal digits.
pub proof fn lemma_u64_digits_len(v: u64)
    ensures
        decimal_digits(v as nat).len() <= 20,
{
    reveal_with_fuel(decimal_digits, 21);
}

/// More digits make a number no smaller.
proof fn lemma_digits_prefix(s: Seq<u8>, i: int)
    requires
        0 <= i <= s.len(),
    ensures
        digits_value(s.take(i)) <= digits_value(s),
    decreases s.len() - i,
{
    if i < s.len() {
        lemma_digits_prefix(s, i + 1);
        assert(s.take(i + 1).drop_last() =~= s.take(i));
    } else {
        assert(s.take(i) =~= s);
    }
}

/// The decimal digits of `v`, most significant first.
pub fn to_decimal(v: u64) -> (s: Vec<u8>)
    ensures
        s@ == decimal_digits(v as nat),
    decreases v,
{
    if v < 10 {
        let mut s: Vec<u8> = Vec::new();
        s.push(v as u8);
        assert(s@ =~= decimal_digits(v as nat));
        s
    } else {
        let mut s = to_decimal(v / 10);
        s.push((v % 10) as u8);
        s
    }
}

/// The number that `s` denotes; `None` when an octet is no digit or the
/// number does not fit.
fn from_decimal(s: &[u8]) -> (v: Option<u64>)
    ensures
        v == (if all_digits(s@) && digits_value(s@) <= u64::MAX {
            Some(digits_value(s@) as u64)
        } else {
            None
        }),
{
    let mut acc: u64 = 0;
    let mut i: usize = 0;
    assert(s@.take(0) =~= Seq::<u8>::empty());
    while i < s.len()
        invariant
            i <= s@.len(),
            forall|k: int| 0 <= k < i ==> #[trigger] s@[k] <= 9,
            acc == digits_value(s@.take(i as int)),
        decreases s@.len() - i,
    {
        let d: u8 = s[i];
        if d > 9 {
            assert(!all_digits(s@));
            return None;
        }
        proof {
            assert(s@.take(i + 1).drop_last() =~= s@.take(i as int));
            lemma_digits_prefix(s@, i + 1);
        }
        if acc > (u64::MAX - d as u64) / 10 {
            return None;
        }
        acc = acc * 10 + d as u64;
        i += 1;
    }
    assert(s@.take(i as int) =~= s@);
    Some(acc)
}

// ── Mobile identity ───────────────────────────────────────────────────────────

/// Type of identity in the low-order three bits of the first octet.
pub const IDENTITY_TYPE_IMSI: u8 = 1;

/// The digits of an IMSI as a mobile identity (TS 24.008, 10.5.1.4): the first
/// digit, the odd/even indication and the type of identity in the first octet,
/// then two digits to an octet, the earlier one in the low nibble; a filler
/// ends an even number of digits.
pub open spec fn digit_octets(s: Seq<u8>) -> Seq<u8> {
    Seq::new(
        s.len() / 2 + 1,
        |i: int|
            if i == 0 {
                (16 * s[0] + (if s.len() % 2 == 1 {
                    8int
                } else {
                    0int
                }) + IDENTITY_TYPE_IMSI) as u8
            } else {
                (16 * (if 2 * i < s.len() {
                    s[2 * i]
                } else {
                    15u8
                }) + s[2 * i - 1]) as u8
            },
    )
}

/// An IMSI as a mobile identity.
pub open spec fn imsi_octets(imsi: nat) -> Seq<u8> {
    digit_octets(decimal_digits(imsi))
}

/// The nibbles of an identity after the type: the high one of the first
/// octet, then low and high of each further octet.
pub open spec fn identity_nibbles(d: Seq<u8>) -> Seq<u8> {
    Seq::new(
        (2 * d.len() - 1) as nat,
        |k: int|
            if k % 2 == 0 {
                d[k / 2] / 16
            } else {
                d[(k + 1) / 2] % 16
            },
    )
}

/// The digits among the nibbles: all of them in an odd identity, all but the
/// filler in an even one.
pub open spec fn identity_digits(d: Seq<u8>) -> Seq<u8> {
    if d[0] % 16 >= 8 {
        identity_nibbles(d)
    } else {
        identity_nibbles(d).drop_last()
    }
}

/// The IMSI that an identity holds. `None` for another type of identity, for
/// a missing filler, and for nibbles that are no digits of a 64-bit number.
pub open spec fn imsi_of(d: Seq<u8>) -> Option<u64> {
    if d.len() == 0 || d[0] % 8 != IDENTITY_TYPE_IMSI {
        None
    } else if d[0] % 16 < 8 && (d.len() < 2 || d.last() / 16 != 15) {
        None
    } else if all_digits(identity_digits(d)) && digits_value(identity_digits(d)) <= u64::MAX {
        Some(digits_value(identity_digits(d)) as u64)
    } else {
        None
    }
}

/// The nibbles of one octet of an identity.
pub proof fn lemma_identity_octet(s: Seq<u8>, i: int)
    requires
        s.len() > 0,
        all_digits(s),
        0 <= i <= s.len() / 2,
    ensures
        digit_octets(s).len() == s.len() / 2 + 1,
        i == 0 ==> digit_octets(s)[i] / 16 == s[0],
        i == 0 ==> digit_octets(s)[i] % 16 == (if s.len() % 2 == 1 {
            8int
        } else {
            0int
        }) + IDENTITY_TYPE_IMSI,
        i > 0 ==> digit_octets(s)[i] % 16 == s[2 * i - 1],
        i > 0 && 2 * i < s.len() ==> digit_octets(s)[i] / 16 == s[2 * i],
        i > 0 && 2 * i >= s.len() ==> digit_octets(s)[i] / 16 == 15,
{
    if i == 0 {
        assert(s[0] <= 9);
    } else {
        assert(s[2 * i - 1] <= 9);
        if 2 * i < s.len() {
            assert(s[2 * i] <= 9);
        }
    }
}

proof fn lemma_identity_digits(s: Seq<u8>)
    requires
        s.len() > 0,
        all_digits(s),
    ensures
        identity_digits(digit_octets(s)) == s,
{
    let d = digit_octets(s);
    let n = identity_nibbles(d);
    lemma_identity_octet(s, 0);
    assert forall|k: int| 0 <= k < s.len() implies #[trigger] n[k] == s[k] by {
        if k % 2 == 0 {
            lemma_identity_octet(s, k / 2);
        } else {
            lemma_identity_octet(s, (k + 1) / 2);
        }
    }
    assert(identity_digits(d) =~= s);
}

/// Decoding an encoded IMSI gives it back.
pub proof fn imsi_round_trip(imsi: u64)
    ensures
        imsi_of(imsi_octets(imsi as nat)) == Some(imsi),
        imsi_octets(imsi as nat).len() <= 11,
{
    let s = decimal_digits(imsi as nat);
    digits_round_trip(imsi as nat);
    lemma_u64_digits_len(imsi);
    lemma_identity_digits(s);
    lemma_identity_octet(s, 0);
    lemma_identity_octet(s, (s.len() / 2) as int);
}

pub fn encode_imsi(imsi: u64) -> (d: Vec<u8>)
    ensures
        d@ == imsi_octets(imsi as nat),
{
    let s = to_decimal(imsi);
    proof {
        digits_round_trip(imsi as nat);
        lemma_u64_digits_len(imsi);
    }
    let n: usize = s.len();
    let mut d: Vec<u8> = Vec::new();
    assert(s@[0] <= 9);
    d.push(
        nibbles(
            s[0],
            if n % 2 == 1 {
                8 + IDENTITY_TYPE_IMSI
            } else {
                IDENTITY_TYPE_IMSI
            },
        ),
    );
    let mut i: usize = 1;
    while i < n / 2 + 1
        invariant
            1 <= i <= n / 2 + 1,
            n == s@.len(),
            n <= 20,
            all_digits(s@),
            s@ == decimal_digits(imsi as nat),
            d@.len() == i,
            forall|k: int| 0 <= k < i ==> #[trigger] d@[k] == imsi_octets(imsi as nat)[k],
        decreases n / 2 + 1 - i,
    {
        assert(s@[2 * i - 1] <= 9);
        let high: u8 = if 2 * i < n {
            assert(s@[2 * i as int] <= 9);
            s[2 * i]
        } else {
            15
        };
        d.push(nibbles(high, s[2 * i - 1]));
        i += 1;
    }
    assert(d@ =~= imsi_octets(imsi as nat));
    d
}

pub fn decode_imsi(d: &[u8]) -> (imsi: Option<u64>)
    ensures
        imsi == imsi_of(d@),
{
    let len: usize = d.len();
    if len == 0 || low_three_bits(d[0]) != IDENTITY_TYPE_IMSI {
        return None;
    }
    let odd: bool = low_nibble(d[0]) >= 8;
    if !odd && (len < 2 || high_nibble(d[len - 1]) != 15) {
        return None;
    }
    let mut s: Vec<u8> = Vec::new();
    s.push(high_nibble(d[0]));
    let ghost all = identity_nibbles(d@);
    let mut i: usize = 1;
    while i < len
        invariant
            1 <= i <= len,
            len == d@.len(),
            all == identity_nibbles(d@),
            s@.len() == 2 * i - 1,
            forall|k: int| 0 <= k < 2 * i - 1 ==> #[trigger] s@[k] == all[k],
        decreases len - i,
    {
        s.push(low_nibble(d[i]));
        s.push(high_nibble(d[i]));
        i += 1;
    }
    assert(s@ =~= all);
    if !odd {
        let _ = s.pop();
    }
    assert(s@ =~= identity_digits(d@));
    from_decimal(s.as_slice())
}

// ── Security algorithms ───────────────────────────────────────────────────────

/// EPS encryption algorithm.
#[derive(Debug, Clone, Copy, PartialEq, Eq, Structural)]
pub enum NasEeaAlgorithm {
    /// Null ciphering.
    Eea0,
    Eea1,
    /// AES-128 in counter mode.
    Eea2,
    Eea3,
}

/// EPS integrity algorithm.
#[derive(Debug, Clone, Copy, PartialEq, Eq, Structural)]
pub enum NasEiaAlgorithm {
    /// Null integrity.
    Eia0,
    Eia1,
    /// AES-128-CMAC.
    Eia2,
    Eia3,
}

impl NasEeaAlgorithm {
    /// The algorithm identity.
    pub open spec fn spec_id(self) -> u8 {
        match self {
            NasEeaAlgorithm::Eea0 => 0,
            NasEeaAlgorithm::Eea1 => 1,
            NasEeaAlgorithm::Eea2 => 2,
            NasEeaAlgorithm::Eea3 => 3,
        }
    }

    pub open spec fn spec_from_id(id: u8) -> Self {
        if id == 1 {
            NasEeaAlgorithm::Eea1
        } else if id == 2 {
            NasEeaAlgorithm::Eea2
        } else if id == 3 {
            NasEeaAlgorithm::Eea3
        } else {
            NasEeaAlgorithm::Eea0
        }
    }

    pub fn id(self) -> (id: u8)
        ensures
            id == self.spec_id(),
    {
        match self {
            NasEeaAlgorithm::Eea0 => 0,
            NasEeaAlgorithm::Eea1 => 1,
            NasEeaAlgorithm::Eea2 => 2,
            NasEeaAlgorithm::Eea3 => 3,
        }
    }

    fn from_id(id: u8) -> (a: Self)
        ensures
            a == Self::spec_from_id(id),
    {
        match id {
            1 => NasEeaAlgorithm::Eea1,
            2 => NasEeaAlgorithm::Eea2,
            3 => NasEeaAlgorithm::Eea3,
            _ => NasEeaAlgorithm::Eea0,
        }
    }
}

impl NasEiaAlgorithm {
    /// The algorithm identity.
    pub open spec fn spec_id(self) -> u8 {
        match self {
            NasEiaAlgorithm::Eia0 => 0,
            NasEiaAlgorithm::Eia1 => 1,
            NasEiaAlgorithm::Eia2 => 2,
            NasEiaAlgorithm::Eia3 => 3,
        }
    }

    pub open spec fn spec_from_id(id: u8) -> Self {
        if id == 1 {
            NasEiaAlgorithm::Eia1
        } else if id == 2 {
            NasEiaAlgorithm::Eia2
        } else if id == 3 {
            NasEiaAlgorithm::Eia3
        } else {
            NasEiaAlgorithm::Eia0
        }
    }

    pub fn id(self) -> (id: u8)
        ensures
            id == self.spec_id(),
    {
        match self {
            NasEiaAlgorithm::Eia0 => 0,
            NasEiaAlgorithm::Eia1 => 1,
            NasEiaAlgorithm::Eia2 => 2,
            NasEiaAlgorithm::Eia3 => 3,
        }
    }

    fn from_id(id: u8) -> (a: Self)
        ensures
            a == Self::spec_from_id(id),
    {
        match id {
            1 => NasEiaAlgorithm::Eia1,
            2 => NasEiaAlgorithm::Eia2,
            3 => NasEiaAlgorithm::Eia3,
            _ => NasEiaAlgorithm::Eia0,
        }
    }
}

/// Selected algorithms in one octet: encryption in the high nibble, integrity
/// in the low one (TS 24.301, 9.9.3.23).
pub fn encode_security_algorithms(eea: NasEeaAlgorithm, eia: NasEiaAlgorithm) -> (b: u8)
    ensures
        b == 16 * eea.spec_id() + eia.spec_id(),
{
    nibbles(eea.id(), eia.id())
}

/// The selected algorithms. The spare bits are ignored, and an identity that
/// names no algorithm known here stands for the null algorithm.
pub fn decode_security_algorithms(b: u8) -> (r: (NasEeaAlgorithm, NasEiaAlgorithm))
    ensures
        r.0 == NasEeaAlgorithm::spec_from_id((b / 16 % 8) as u8),
        r.1 == NasEiaAlgorithm::spec_from_id((b % 8) as u8),
{
    let high: u8 = high_nibble(b);
    (NasEeaAlgorithm::from_id(low_three_bits(high)), NasEiaAlgorithm::from_id(low_three_bits(b)))
}

/// The octet of the selected algorithms determines them.
pub proof fn algorithms_round_trip(eea: NasEeaAlgorithm, eia: NasEiaAlgorithm)
    ensures
        ({
            let b = 16 * eea.spec_id() + eia.spec_id();
            &&& NasEeaAlgorithm::spec_from_id((b / 16 % 8) as u8) == eea
            &&& NasEiaAlgorithm::spec_from_id((b % 8) as u8) == eia
        }),
{
}

} // verus!
