//! Laws of the EPS NAS formats: where each field stands in a PDU, and which
//! octets it is made of.

use vstd::arithmetic::div_mod::lemma_div_denominator;
use vstd::arithmetic::power::{
    lemma_pow0, lemma_pow1, lemma_pow_increases, lemma_pow_positive, lemma_pow_strictly_increases, pow,
};
use vstd::prelude::*;
use vstd::utf8::{encode_utf8, valid_utf8};

use crate::error::ProtoError;
use crate::nas::codec::{
    attach_accept_octets, attach_request_octets, auth_request_octets, auth_response_octets, bare_octets,
    detach_request_octets, nas_pdu, sec_mode_cmd_octets, tai_list_value, tai_octets, utf8_text, AcceptFields,
    NasPduView, MT_ATTACH_COMPLETE, MT_AUTHENTICATION_REJECT, MT_DETACH_ACCEPT, MT_SECURITY_MODE_COMPLETE,
    MT_SECURITY_MODE_REJECT, SHT_INTEGRITY, SHT_INTEGRITY_CIPHERED, SHT_INTEGRITY_CIPHERED_NEW_CTX,
    SHT_INTEGRITY_NEW_CTX, SHT_PLAIN,
};
use crate::nas::ie::{
    decimal_digits, digits_round_trip, digits_value, identity_digits, imsi_octets, imsi_of, lemma_identity_octet,
    lv, lv_octets, tlv, tlv_octets, NasEeaAlgorithm, NasEiaAlgorithm,
};

verus! {

// ── Decimal digits ────────────────────────────────────────────────────────────

/// The digit that stands for the tens of power `j` is what division leaves of
/// them; there is no leading zero, and no digit is missing.
pub proof fn decimal_digit_at(v: nat, j: nat)
    requires
        j < decimal_digits(v).len(),
    ensures
        decimal_digits(v)[decimal_digits(v).len() - 1 - j] == (v as int) / pow(10, j) % 10,
        (v as int) < pow(10, decimal_digits(v).len()),
        decimal_digits(v).len() > 1 ==> decimal_digits(v)[0] != 0,
    decreases v,
{
    let s = decimal_digits(v);
    lemma_pow0(10);
    let one = pow(10, 0);
    assert(v as int / one == v) by (nonlinear_arith)
        requires
            one == 1,
    ;
    if v < 10 {
        lemma_pow1(10);
    } else {
        let head = decimal_digits(v / 10);
        digits_round_trip(v / 10);
        decimal_digit_at(v / 10, 0);
        assert(pow(10, s.len()) == 10 * pow(10, head.len())) by {
            reveal(pow);
        }
        if head.len() == 1 {
            assert(head[0] == v / 10 % 10);
            lemma_pow1(10);
        }
        assert(s[0] == head[0]);
        if j > 0 {
            let k = (j - 1) as nat;
            decimal_digit_at(v / 10, k);
            assert(s[s.len() - 1 - j] == head[head.len() - 1 - k]);
            lemma_pow_positive(10, k);
            assert(pow(10, j) == 10 * pow(10, k)) by {
                reveal(pow);
            }
            lemma_div_denominator(v as int, 10, pow(10, k));
            assert((v as int) / pow(10, j) == (v / 10) as int / pow(10, k));
        } else {
            assert(s[s.len() - 1] == v % 10);
        }
    }
}

/// How many digits a number has is fixed by the powers of ten around it.
pub proof fn decimal_digit_count(v: nat, n: nat)
    requires
        n >= 1,
        (v as int) < pow(10, n),
        n == 1 || v >= pow(10, (n - 1) as nat),
    ensures
        decimal_digits(v).len() == n,
{
    let s = decimal_digits(v);
    digits_round_trip(v);
    decimal_digit_at(v, 0);
    let m = s.len();
    if m > 1 {
        let j = (m - 1) as nat;
        decimal_digit_at(v, j);
        lemma_pow_positive(10, j);
        if (v as int) < pow(10, j) {
            vstd::arithmetic::div_mod::lemma_basic_div(v as int, pow(10, j));
            assert(false);
        }
        if n < m {
            lemma_pow_increases(10, n, j);
        }
    }
    if m < n {
        lemma_pow_increases(10, m, (n - 1) as nat);
    }
}

/// Digits denote the number that has them.
pub proof fn digits_value_at(s: Seq<u8>, j: nat)
    requires
        j < s.len(),
        forall|i: int| 0 <= i < s.len() ==> #[trigger] s[i] <= 9,
    ensures
        (digits_value(s) as int) / pow(10, j) % 10 == s[s.len() - 1 - j],
        (digits_value(s) as int) < pow(10, s.len()),
    decreases s.len(),
{
    let head = s.drop_last();
    let v = digits_value(s) as int;
    let h = digits_value(head) as int;
    assert(s.last() <= 9);
    assert(forall|i: int| 0 <= i < head.len() ==> #[trigger] head[i] == s[i]);
    lemma_pow0(10);
    assert(v == 10 * h + s.last());
    assert(pow(10, s.len()) == 10 * pow(10, head.len())) by {
        reveal(pow);
    }
    if head.len() > 0 {
        digits_value_at(head, 0);
    } else {
        assert(h == 0);
    }
    assert(v / 10 == h);
    if j > 0 {
        let k = (j - 1) as nat;
        digits_value_at(head, k);
        lemma_pow_positive(10, k);
        assert(pow(10, j) == 10 * pow(10, k)) by {
            reveal(pow);
        }
        lemma_div_denominator(v, 10, pow(10, k));
        assert(v / pow(10, j) == h / pow(10, k));
        assert(s[s.len() - 1 - j] == head[head.len() - 1 - k]);
    } else {
        let one = pow(10, 0);
        assert(v / one == v) by (nonlinear_arith)
            requires
                one == 1,
        ;
        assert(v % 10 == s.last());
    }
}

// ── Fields ────────────────────────────────────────────────────────────────────

/// A length-value pair is one octet with the length, then the value; a
/// type-length-value triple has the type before them.
pub proof fn field_octets(iei: u8, v: Seq<u8>)
    requires
        v.len() <= 255,
    ensures
        lv_octets(v).len() == v.len() + 1,
        lv_octets(v)[0] == v.len(),
        lv_octets(v).subrange(1, v.len() as int + 1) == v,
        tlv_octets(iei, v).len() == v.len() + 2,
        tlv_octets(iei, v)[0] == iei,
        tlv_octets(iei, v)[1] == v.len(),
        tlv_octets(iei, v).subrange(2, v.len() as int + 2) == v,
{
    assert(lv_octets(v).subrange(1, v.len() as int + 1) =~= v);
    assert(tlv_octets(iei, v).subrange(2, v.len() as int + 2) =~= v);
}

/// A field is read if and only if all of its octets are there; the value is
/// what the length octet says, and the rest is what follows.
pub proof fn fields_are_read(d: Seq<u8>)
    ensures
        lv(d) is Some <==> d.len() >= 1 && d.len() >= 1 + d[0],
        lv(d) is Some ==> d == seq![d[0]] + (lv(d)->0).0 + (lv(d)->0).1 && (lv(d)->0).0.len() == d[0],
        tlv(d) is Some <==> d.len() >= 2 && d.len() >= 2 + d[1],
        tlv(d) is Some ==> d == seq![(tlv(d)->0).0, d[1]] + (tlv(d)->0).1 + (tlv(d)->0).2 && (tlv(d)->0).1.len()
            == d[1],
{
    if lv(d) is Some {
        assert(d =~= seq![d[0]] + (lv(d)->0).0 + (lv(d)->0).1);
    }
    if tlv(d) is Some {
        assert(d =~= seq![(tlv(d)->0).0, d[1]] + (tlv(d)->0).1 + (tlv(d)->0).2);
    }
}

/// The digit of a number of `n` digits at position `k` from the front.
pub open spec fn digit(v: nat, n: nat, k: int) -> int {
    (v as int) / pow(10, (n - 1 - k) as nat) % 10
}

/// The identity of an IMSI of `n` digits: its type is 1, with the odd bit set
/// for an odd number of digits. The first digit stands in the high nibble of
/// the first octet, the next two in the low and the high nibble of the second,
/// and so on; a last high nibble without a digit is 15.
pub proof fn imsi_identity_octets(imsi: nat, n: nat, i: int)
    requires
        n >= 1,
        (imsi as int) < pow(10, n),
        n == 1 || imsi >= pow(10, (n - 1) as nat),
        0 <= i <= n / 2,
    ensures
        imsi_octets(imsi).len() == n / 2 + 1,
        i == 0 ==> imsi_octets(imsi)[i] == 16 * digit(imsi, n, 0) + (if n % 2 == 1 {
            9int
        } else {
            1int
        }),
        i > 0 ==> imsi_octets(imsi)[i] % 16 == digit(imsi, n, 2 * i - 1),
        i > 0 ==> imsi_octets(imsi)[i] / 16 == (if 2 * i < n {
            digit(imsi, n, 2 * i)
        } else {
            15
        }),
{
    decimal_digit_count(imsi, n);
    digits_round_trip(imsi);
    let s = decimal_digits(imsi);
    lemma_identity_octet(s, i);
    decimal_digit_at(imsi, (n - 1) as nat);
    if i > 0 {
        decimal_digit_at(imsi, (n - 1 - (2 * i - 1)) as nat);
        if 2 * i < n {
            decimal_digit_at(imsi, (n - 1 - 2 * i) as nat);
        }
    }
}

/// The IMSI that an identity holds has the digits of its nibbles: with the odd
/// bit all of them, without it all but the last, which is 15.
pub proof fn imsi_is_read_from_nibbles(d: Seq<u8>, k: int)
    requires
        imsi_of(d) is Some,
        0 <= k < 2 * d.len() - (if d[0] / 8 % 2 == 1 {
            1int
        } else {
            2int
        }),
    ensures
        ({
            let n = (2 * d.len() - (if d[0] / 8 % 2 == 1 {
                1int
            } else {
                2int
            })) as nat;
            &&& d.len() >= 1 && d[0] % 8 == 1
            &&& d[0] / 8 % 2 == 0 ==> d.last() / 16 == 15
            &&& (imsi_of(d)->0 as int) < pow(10, n)
            &&& digit(imsi_of(d)->0 as nat, n, k) == if k % 2 == 0 {
                d[k / 2] / 16
            } else {
                d[(k + 1) / 2] % 16
            }
        }),
{
    let s = identity_digits(d);
    let n = s.len();
    digits_value_at(s, (n - 1 - k) as nat);
}

/// When an identity holds an IMSI: it is of type 1, its nibbles after the first
/// are digits but for the last one of an even number, which is 15, and there
/// are at most nineteen digits. With more digits, it depends on their value.
pub proof fn imsi_is_recognised(d: Seq<u8>, k: int)
    ensures
        d.len() == 0 || d[0] % 8 != 1 ==> imsi_of(d) is None,
        d.len() > 0 && d[0] / 8 % 2 == 0 && (d.len() < 2 || d.last() / 16 != 15) ==> imsi_of(d) is None,
        d.len() > 0 && d[0] % 8 == 1 && d.len() <= 10 && (d[0] / 8 % 2 == 0 ==> d.len() >= 2 && d.last() / 16 == 15)
            && d[0] / 16 <= 9 && (forall|i: int|
            0 < i < d.len() ==> (#[trigger] d[i]) % 16 <= 9 && (d[i] / 16 <= 9 || (d[0] / 8 % 2 == 0 && i == d.len() - 1)))
            ==> imsi_of(d) is Some,
        d.len() > 0 && 0 < k < d.len() && d[k] % 16 > 9 ==> imsi_of(d) is None,
        d.len() > 0 && d[0] / 16 > 9 ==> imsi_of(d) is None,
{
    let s = identity_digits(d);
    if d.len() > 0 && d[0] % 8 == 1 && d.len() <= 10 && (d[0] / 8 % 2 == 0 ==> d.len() >= 2 && d.last() / 16 == 15)
        && d[0] / 16 <= 9 && (forall|i: int|
        0 < i < d.len() ==> (#[trigger] d[i]) % 16 <= 9 && (d[i] / 16 <= 9 || (d[0] / 8 % 2 == 0 && i == d.len() - 1))) {
        assert forall|j: int| 0 <= j < s.len() implies #[trigger] s[j] <= 9 by {
            if j % 2 == 0 {
                assert(s[j] == d[j / 2] / 16);
            } else {
                assert(s[j] == d[(j + 1) / 2] % 16);
            }
        }
        digits_value_at(s, 0);
        lemma_pow_increases(10, s.len(), 19);
        assert(pow(10, 19) == 10_000_000_000_000_000_000) by {
            reveal_with_fuel(pow, 20);
        }
    }
    if d.len() > 0 && imsi_of(d) is Some {
        assert(s[0] <= 9 && s[0] == d[0] / 16);
        if 0 < k < d.len() {
            assert(s[2 * k - 1] <= 9);
        }
    }
}

// ── PDUs as they are written ──────────────────────────────────────────────────

/// AttachRequest: `07 41`, key set identifier and attach type, the identity
/// with its length, and the capability for EEA2 and EIA2, `02 20 40`.
pub proof fn attach_request_format(imsi: u64, eps_attach_type: u8, nas_ksi: u8)
    requires
        imsi_octets(imsi as nat).len() <= 255,
    ensures
        ({
            let identity = imsi_octets(imsi as nat);
            attach_request_octets(imsi, eps_attach_type, nas_ksi) == seq![
                0x07u8,
                0x41,
                (nas_ksi % 8 * 16 + eps_attach_type % 8) as u8,
                identity.len() as u8,
            ] + identity + seq![0x02u8, 0x20, 0x40]
        }),
{
    let identity = imsi_octets(imsi as nat);
    assert(attach_request_octets(imsi, eps_attach_type, nas_ksi) =~= seq![
        0x07u8,
        0x41,
        (nas_ksi % 8 * 16 + eps_attach_type % 8) as u8,
        identity.len() as u8,
    ] + identity + seq![0x02u8, 0x20, 0x40]);
}

/// AuthenticationRequest: `07 52`, the key set identifier in the high nibble,
/// RAND and AUTN with their lengths.
pub proof fn auth_request_format(nas_ksi: u8, rand: Seq<u8>, autn: Seq<u8>)
    requires
        rand.len() == 16,
        autn.len() == 16,
    ensures
        auth_request_octets(nas_ksi, rand, autn) == seq![0x07u8, 0x52, (nas_ksi % 8 * 16) as u8, 0x10] + rand + seq![
            0x10u8,
        ] + autn,
{
    assert(auth_request_octets(nas_ksi, rand, autn) =~= seq![0x07u8, 0x52, (nas_ksi % 8 * 16) as u8, 0x10] + rand
        + seq![0x10u8] + autn);
}

/// AuthenticationResponse: `07 53`, RES with its length.
pub proof fn auth_response_format(res: Seq<u8>)
    requires
        res.len() == 8,
    ensures
        auth_response_octets(res) == seq![0x07u8, 0x53, 0x08] + res,
{
    assert(auth_response_octets(res) =~= seq![0x07u8, 0x53, 0x08] + res);
}

/// SecurityModeCommand: `07 5D`, the algorithms, the key set identifier, and
/// the replayed capabilities with their length. They are what stands from the
/// fifth octet on, so that messages with different capabilities differ.
pub proof fn sec_mode_cmd_format(eea: NasEeaAlgorithm, eia: NasEiaAlgorithm, nas_ksi: u8, ue_cap: Seq<u8>)
    requires
        ue_cap.len() <= 255,
    ensures
        ({
            let d = sec_mode_cmd_octets(eea, eia, nas_ksi, ue_cap);
            let cipher: int = match eea {
                NasEeaAlgorithm::Eea0 => 0,
                NasEeaAlgorithm::Eea1 => 1,
                NasEeaAlgorithm::Eea2 => 2,
                NasEeaAlgorithm::Eea3 => 3,
            };
            let integrity: int = match eia {
                NasEiaAlgorithm::Eia0 => 0,
                NasEiaAlgorithm::Eia1 => 1,
                NasEiaAlgorithm::Eia2 => 2,
                NasEiaAlgorithm::Eia3 => 3,
            };
            &&& d == seq![
                0x07u8,
                0x5D,
                (cipher * 16 + integrity) as u8,
                (nas_ksi % 8 * 16) as u8,
                ue_cap.len() as u8,
            ] + ue_cap
            &&& lv(d.subrange(4, d.len() as int)) == Some((ue_cap, Seq::<u8>::empty()))
        }),
        forall|other: Seq<u8>|
            other.len() <= 255 && #[trigger] sec_mode_cmd_octets(eea, eia, nas_ksi, other) == sec_mode_cmd_octets(
                eea,
                eia,
                nas_ksi,
                ue_cap,
            ) ==> other == ue_cap,
{
    let d = sec_mode_cmd_octets(eea, eia, nas_ksi, ue_cap);
    let tail = d.subrange(4, d.len() as int);
    assert(tail =~= lv_octets(ue_cap));
    assert(tail.subrange(1, 1 + tail[0]) =~= ue_cap);
    assert(tail.subrange(1 + tail[0], tail.len() as int) =~= Seq::<u8>::empty());
    assert forall|other: Seq<u8>|
        other.len() <= 255 && #[trigger] sec_mode_cmd_octets(eea, eia, nas_ksi, other) == d implies other
        == ue_cap by {
        let e = sec_mode_cmd_octets(eea, eia, nas_ksi, other);
        assert(e.subrange(5, e.len() as int) =~= other);
        assert(d.subrange(5, d.len() as int) =~= ue_cap);
    }
}

/// SecurityModeComplete is `07 5E`, AttachComplete `07 43`, DetachAccept
/// `07 46`; the rejections, which are never sent, are `54` and `5F`. Security
/// header types count up from 0, the plain one.
pub proof fn bare_formats()
    ensures
        MT_AUTHENTICATION_REJECT == 0x54 && MT_SECURITY_MODE_REJECT == 0x5F,
        SHT_PLAIN == 0 && SHT_INTEGRITY == 1 && SHT_INTEGRITY_CIPHERED == 2,
        SHT_INTEGRITY_NEW_CTX == 3 && SHT_INTEGRITY_CIPHERED_NEW_CTX == 4,
        bare_octets(MT_SECURITY_MODE_COMPLETE) == seq![0x07u8, 0x5E],
        bare_octets(MT_ATTACH_COMPLETE) == seq![0x07u8, 0x43],
        bare_octets(MT_DETACH_ACCEPT) == seq![0x07u8, 0x46],
{
}

/// DetachRequest: `07 45`; key set identifier, switch-off bit and detach type;
/// the GUTI with its length.
pub proof fn detach_request_format(detach_type: u8, switch_off: bool, nas_ksi: u8, guti: Seq<u8>)
    requires
        guti.len() == 10,
    ensures
        detach_request_octets(detach_type, switch_off, nas_ksi, guti) == seq![
            0x07u8,
            0x45,
            (nas_ksi % 8 * 16 + detach_type % 8 + if switch_off {
                8int
            } else {
                0
            }) as u8,
            0x0A,
        ] + guti,
{
    assert(detach_request_octets(detach_type, switch_off, nas_ksi, guti) =~= seq![
        0x07u8,
        0x45,
        (nas_ksi % 8 * 16 + detach_type % 8 + if switch_off {
            8int
        } else {
            0
        }) as u8,
        0x0A,
    ] + guti);
}

/// A TAI list holds each identity in its place, five octets to one.
pub proof fn tai_list_holds_each(tai_list: Seq<[u8; 5]>, i: int, j: int)
    requires
        0 <= i < tai_list.len(),
        0 <= j < 5,
    ensures
        tai_octets(tai_list).len() == 5 * tai_list.len(),
        tai_octets(tai_list)[5 * i + j] == tai_list[i]@[j],
        tai_list_value(tai_list).len() == 5 * tai_list.len() + 1,
        tai_list_value(tai_list)[1 + 5 * i + j] == tai_list[i]@[j],
    decreases tai_list.len(),
{
    let head = tai_list.drop_last();
    if head.len() > 0 {
        tai_list_holds_each(
            head,
            if i < head.len() {
                i
            } else {
                0
            },
            j,
        );
    } else {
        assert(tai_octets(head) =~= Seq::empty());
    }
    assert(tai_octets(tai_list) == tai_octets(head) + tai_list.last()@);
}

/// The first octet of the list says how many identities follow, less one, and
/// that they may be of different networks.
pub proof fn tai_list_first_octet(tai_list: Seq<[u8; 5]>)
    requires
        1 <= tai_list.len() <= 16,
    ensures
        tai_list.len() <= 8 ==> tai_list_value(tai_list)[0] == 0x18 + tai_list.len() - 1,
        tai_list_value(tai_list)[0] == ((tai_list.len() - 1) as u8) | 0x18u8,
{
    let n = (tai_list.len() - 1) as u8;
    if n < 8 {
        assert(n | 0x18u8 == 0x18 + n) by (bit_vector)
            requires
                n < 8,
        ;
    }
}

/// AttachAccept: `07 42`, the result, the timer, the TAI list with its length,
/// `29 05 01` and the IPv4 address where there is one, `28` and the APN where
/// there is one.
pub proof fn attach_accept_format(
    attach_result: u8,
    t3412_value: u8,
    tai_list: Seq<[u8; 5]>,
    ip_address: Option<Seq<u8>>,
    apn: Option<Seq<char>>,
)
    requires
        5 * tai_list.len() < 255,
        ip_address is Some ==> ip_address->0.len() == 4,
        apn is Some ==> encode_utf8(apn->0).len() <= 255,
    ensures
        ({
            let list = tai_list_value(tai_list);
            let address = match ip_address {
                Some(ip) => seq![0x29u8, 0x05, 0x01] + ip,
                None => Seq::empty(),
            };
            let name = match apn {
                Some(text) => seq![0x28u8, encode_utf8(text).len() as u8] + encode_utf8(text),
                None => Seq::empty(),
            };
            &&& tai_list.len() == 0 ==> list.len() == 0
            &&& attach_accept_octets(attach_result, t3412_value, tai_list, ip_address, apn) == seq![
                0x07u8,
                0x42,
                (attach_result % 8) as u8,
                t3412_value,
                list.len() as u8,
            ] + list + address + name
        }),
{
    let list = tai_list_value(tai_list);
    let address = match ip_address {
        Some(ip) => seq![0x29u8, 0x05, 0x01] + ip,
        None => Seq::empty(),
    };
    let name = match apn {
        Some(text) => seq![0x28u8, encode_utf8(text).len() as u8] + encode_utf8(text),
        None => Seq::empty(),
    };
    assert(attach_accept_octets(attach_result, t3412_value, tai_list, ip_address, apn) =~= seq![
        0x07u8,
        0x42,
        (attach_result % 8) as u8,
        t3412_value,
        list.len() as u8,
    ] + list + address + name);
}

// ── PDUs as they are read ─────────────────────────────────────────────────────

/// What no PDU is: fewer than two octets, another protocol, a protected PDU,
/// an unknown type.
pub proof fn headers_are_checked(d: Seq<u8>)
    ensures
        d.len() < 2 ==> nas_pdu(d) == Err::<NasPduView, ProtoError>(
            ProtoError::TooShort { expected: 2, got: d.len() as usize },
        ),
        d.len() >= 2 && d[0] % 16 != 7 ==> nas_pdu(d) == Err::<NasPduView, ProtoError>(
            ProtoError::MalformedNas { reason: "expected EPS-MM protocol discriminator 0x7" },
        ),
        d.len() >= 2 && d[0] % 16 == 7 && d[0] >= 16 ==> nas_pdu(d) == Err::<NasPduView, ProtoError>(
            ProtoError::MalformedNas { reason: "protected NAS not supported in Phase 2" },
        ),
        d.len() >= 2 && d[0] == 7 && !(seq![0x41u8, 0x42, 0x43, 0x45, 0x46, 0x52, 0x53, 0x5D, 0x5E].contains(d[1]))
            ==> nas_pdu(d) == Err::<NasPduView, ProtoError>(ProtoError::UnknownGtpMsgType(d[1])),
{
    reveal(nas_pdu);
    let known = seq![0x41u8, 0x42, 0x43, 0x45, 0x46, 0x52, 0x53, 0x5D, 0x5E];
    assert(known[0] == 0x41 && known[1] == 0x42 && known[2] == 0x43 && known[3] == 0x45 && known[4] == 0x46
        && known[5] == 0x52 && known[6] == 0x53 && known[7] == 0x5D && known[8] == 0x5E);
}

/// An AttachRequest is read if and only if its identity is complete.
pub proof fn attach_request_is_read(d: Seq<u8>)
    requires
        d.len() >= 2,
        d[0] == 0x07,
        d[1] == 0x41,
    ensures
        nas_pdu(d) is Ok <==> d.len() >= 4 && d.len() >= 4 + d[3],
        nas_pdu(d) is Ok ==> {
            let end = 4 + d[3];
            nas_pdu(d) == Ok::<NasPduView, ProtoError>(
                NasPduView::AttachRequest {
                    eps_attach_type: (d[2] % 8) as u8,
                    nas_ksi: (d[2] / 16 % 8) as u8,
                    imsi: imsi_of(d.subrange(4, end)),
                    ue_network_cap: if d.len() > end && d.len() >= end + 1 + d[end] {
                        d.subrange(end + 1, end + 1 + d[end])
                    } else {
                        Seq::empty()
                    },
                },
            )
        },
{
    reveal(nas_pdu);
    if d.len() >= 4 && d.len() >= 4 + d[3] {
        let end = 4 + d[3];
        let body = d.subrange(2, d.len() as int);
        let from = body.subrange(1, body.len() as int);
        assert(from.subrange(1, 1 + from[0]) =~= d.subrange(4, end));
        let rest = from.subrange(1 + from[0], from.len() as int);
        assert(rest =~= d.subrange(end, d.len() as int));
        if d.len() > end && d.len() >= end + 1 + d[end] {
            assert(rest.subrange(1, 1 + rest[0]) =~= d.subrange(end + 1, end + 1 + d[end]));
        }
    }
}

/// An AuthenticationRequest is read if and only if it holds 16 octets of RAND
/// and 16 of AUTN, each with its length.
pub proof fn auth_request_is_read(d: Seq<u8>)
    requires
        d.len() >= 2,
        d[0] == 0x07,
        d[1] == 0x52,
    ensures
        nas_pdu(d) is Ok <==> d.len() >= 37 && d[3] == 16 && d[20] == 16,
        nas_pdu(d) is Ok ==> nas_pdu(d) == Ok::<NasPduView, ProtoError>(
            NasPduView::AuthenticationRequest {
                nas_ksi: (d[2] / 16 % 8) as u8,
                rand: d.subrange(4, 20),
                autn: d.subrange(21, 37),
            },
        ),
{
    reveal(nas_pdu);
    let body = d.subrange(2, d.len() as int);
    if d.len() >= 20 && d[3] == 16 {
        let from = body.subrange(1, body.len() as int);
        assert(from.subrange(1, 17) =~= d.subrange(4, 20));
        let rest = from.subrange(17, from.len() as int);
        assert(rest =~= d.subrange(20, d.len() as int));
        if d.len() >= 37 && d[20] == 16 {
            assert(rest.subrange(1, 17) =~= d.subrange(21, 37));
        }
    }
}

/// An AuthenticationResponse is read if and only if it holds 8 octets of RES
/// with their length.
pub proof fn auth_response_is_read(d: Seq<u8>)
    requires
        d.len() >= 2,
        d[0] == 0x07,
        d[1] == 0x53,
    ensures
        nas_pdu(d) is Ok <==> d.len() >= 11 && d[2] == 8,
        nas_pdu(d) is Ok ==> nas_pdu(d) == Ok::<NasPduView, ProtoError>(
            NasPduView::AuthenticationResponse { res: d.subrange(3, 11) },
        ),
{
    reveal(nas_pdu);
    let body = d.subrange(2, d.len() as int);
    if d.len() >= 11 && d[2] == 8 {
        assert(body.subrange(1, 9) =~= d.subrange(3, 11));
    }
}

/// The outcome for a PDU that is not what it should be.
pub open spec fn refused(reason: &'static str) -> Result<NasPduView, ProtoError> {
    Err(ProtoError::MalformedNas { reason })
}

/// Which error names what is missing from a PDU.
pub proof fn missing_parts_are_named(d: Seq<u8>)
    requires
        d.len() >= 2,
        d[0] == 0x07,
    ensures
        d[1] == 0x41 && d.len() == 2 ==> nas_pdu(d) == Err::<NasPduView, ProtoError>(
            ProtoError::TooShort { expected: 3, got: 0 },
        ),
        d[1] == 0x41 && d.len() > 2 && (d.len() < 4 || d.len() < 4 + d[3]) ==> nas_pdu(d) == refused(
            "missing mobile identity",
        ),
        d[1] == 0x52 && d.len() == 2 ==> nas_pdu(d) == Err::<NasPduView, ProtoError>(
            ProtoError::TooShort { expected: 35, got: 0 },
        ),
        d[1] == 0x52 && d.len() > 2 && (d.len() < 4 || d.len() < 4 + d[3]) ==> nas_pdu(d) == refused("missing RAND"),
        d[1] == 0x52 && d.len() >= 4 && d.len() >= 4 + d[3] && d[3] != 16 ==> nas_pdu(d) == refused(
            "RAND must be exactly 16 bytes",
        ),
        d[1] == 0x52 && d.len() >= 20 && d[3] == 16 && (d.len() < 21 || d.len() < 21 + d[20]) ==> nas_pdu(d) == refused(
            "missing AUTN",
        ),
        d[1] == 0x52 && d.len() >= 21 && d[3] == 16 && d.len() >= 21 + d[20] && d[20] != 16 ==> nas_pdu(d) == refused(
            "AUTN must be exactly 16 bytes",
        ),
        d[1] == 0x53 && (d.len() < 3 || d.len() < 3 + d[2]) ==> nas_pdu(d) == refused("missing RES"),
        d[1] == 0x53 && d.len() >= 3 && d.len() >= 3 + d[2] && d[2] != 8 ==> nas_pdu(d) == refused(
            "RES must be exactly 8 bytes",
        ),
        (d[1] == 0x5D || d[1] == 0x42) && d.len() < 4 ==> nas_pdu(d) == Err::<NasPduView, ProtoError>(
            ProtoError::TooShort { expected: 2, got: (d.len() - 2) as usize },
        ),
        d[1] == 0x45 && d.len() == 2 ==> nas_pdu(d) == Err::<NasPduView, ProtoError>(
            ProtoError::TooShort { expected: 1, got: 0 },
        ),
{
    reveal(nas_pdu);
    let body = d.subrange(2, d.len() as int);
    if d.len() >= 3 {
        let from = body.subrange(1, body.len() as int);
        assert(from =~= d.subrange(3, d.len() as int));
        if d.len() >= 20 && d[3] == 16 {
            assert(from.subrange(17, from.len() as int) =~= d.subrange(20, d.len() as int));
        }
    }
}

/// The other types: a SecurityModeCommand and an AttachAccept need two octets,
/// a DetachRequest one; SecurityModeComplete, AttachComplete and DetachAccept
/// need none.
pub proof fn short_messages_are_read(d: Seq<u8>)
    requires
        d.len() >= 2,
        d[0] == 0x07,
    ensures
        d[1] == 0x5D ==> (nas_pdu(d) is Ok <==> d.len() >= 4),
        d[1] == 0x5D && d.len() >= 4 ==> nas_pdu(d) == Ok::<NasPduView, ProtoError>(
            NasPduView::SecurityModeCommand {
                eea: match d[2] / 16 % 8 {
                    1 => NasEeaAlgorithm::Eea1,
                    2 => NasEeaAlgorithm::Eea2,
                    3 => NasEeaAlgorithm::Eea3,
                    _ => NasEeaAlgorithm::Eea0,
                },
                eia: match d[2] % 8 {
                    1 => NasEiaAlgorithm::Eia1,
                    2 => NasEiaAlgorithm::Eia2,
                    3 => NasEiaAlgorithm::Eia3,
                    _ => NasEiaAlgorithm::Eia0,
                },
                nas_ksi: (d[3] / 16 % 8) as u8,
            },
        ),
        d[1] == 0x42 ==> (nas_pdu(d) is Ok <==> d.len() >= 4),
        d[1] == 0x42 && d.len() >= 4 ==> (nas_pdu(d) matches Ok(
            NasPduView::AttachAccept { attach_result, t3412_value, .. },
        ) && attach_result == d[2] % 8 && t3412_value == d[3]),
        d[1] == 0x45 ==> (nas_pdu(d) is Ok <==> d.len() >= 3),
        d[1] == 0x45 && d.len() >= 3 ==> nas_pdu(d) == Ok::<NasPduView, ProtoError>(
            NasPduView::DetachRequest {
                detach_type: (d[2] % 8) as u8,
                switch_off: d[2] / 8 % 2 == 1,
                nas_ksi: (d[2] / 16 % 8) as u8,
            },
        ),
        d[1] == 0x5E ==> nas_pdu(d) == Ok::<NasPduView, ProtoError>(NasPduView::SecurityModeComplete),
        d[1] == 0x43 ==> nas_pdu(d) == Ok::<NasPduView, ProtoError>(NasPduView::AttachComplete),
        d[1] == 0x46 ==> nas_pdu(d) == Ok::<NasPduView, ProtoError>(NasPduView::DetachAccept),
{
    reveal(nas_pdu);
}

/// The optional fields of an AttachAccept are read one triple at a time: `50`
/// with ten octets is the GUTI, `29` with at least five that start with 1 the
/// IPv4 address, `28` the APN. A later field of a type takes the place of an
/// earlier one; any other is skipped; a field that is cut short ends the list.
pub proof fn optional_fields_are_read(fields: AcceptFields, iei: u8, value: Seq<u8>, rest: Seq<u8>)
    requires
        value.len() <= 255,
    ensures
        ({
            let d = seq![iei, value.len() as u8] + value + rest;
            let next = AcceptFields {
                guti: if iei == 0x50 && value.len() == 10 {
                    Some(value)
                } else {
                    fields.guti
                },
                ip_address: if iei == 0x29 && value.len() >= 5 && value[0] == 1 {
                    Some(value.subrange(1, 5))
                } else {
                    fields.ip_address
                },
                apn: if iei == 0x28 {
                    utf8_text(value)
                } else {
                    fields.apn
                },
            };
            fields.with_all(d) == next.with_all(rest)
        }),
        rest.len() < 2 || rest.len() < 2 + rest[1] ==> fields.with_all(rest) == fields,
{
    let d = seq![iei, value.len() as u8] + value + rest;
    assert(d.subrange(2, 2 + d[1]) =~= value);
    assert(d.subrange(2 + d[1], d.len() as int) =~= rest);
    assert(tlv(d) == Some((iei, value, rest)));
}

/// An APN is text if and only if its octets are UTF-8, and it is the text that
/// they encode.
pub proof fn apn_is_text(text: Seq<char>, d: Seq<u8>)
    ensures
        utf8_text(encode_utf8(text)) == Some(text),
        utf8_text(d) is Some <==> valid_utf8(d),
        utf8_text(d) is Some ==> encode_utf8(utf8_text(d)->0) == d,
{
    vstd::utf8::encode_utf8_valid_utf8(text);
    vstd::utf8::encode_utf8_decode_utf8(text);
    if valid_utf8(d) {
        vstd::utf8::decode_utf8_encode_utf8(d);
    }
}

/// They stand behind the TAI list of an AttachAccept, whose length octet is
/// the fifth octet; where the list is cut short, they start there.
pub proof fn attach_accept_fields_follow_list(d: Seq<u8>)
    requires
        d.len() >= 4,
        d[0] == 0x07,
        d[1] == 0x42,
    ensures
        nas_pdu(d) matches Ok(NasPduView::AttachAccept { optional, .. }) && optional == (AcceptFields {
            guti: None,
            ip_address: None,
            apn: None,
        }).with_all(
            d.subrange(
                if d.len() >= 5 && d.len() >= 5 + d[4] {
                    5 + d[4]
                } else {
                    4
                },
                d.len() as int,
            ),
        ),
{
    reveal(nas_pdu);
    let body = d.subrange(2, d.len() as int);
    let from = body.subrange(2, body.len() as int);
    assert(from =~= d.subrange(4, d.len() as int));
    if d.len() >= 5 && d.len() >= 5 + d[4] {
        assert(from.subrange(1 + from[0], from.len() as int) =~= d.subrange(5 + d[4], d.len() as int));
    }
}

} // verus!
