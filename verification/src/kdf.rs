//! Key derivation: the LTE Kasme (TS 33.401 Annex A.2) and the 5G-AKA chain
//! KAUSF, RES*, KSEAF, KAMF (TS 33.501 Annex A.2, A.4, A.6, A.7).
//!
//! Every derivation is HMAC-SHA-256 over `FC ‖ P0 ‖ L0 ‖ P1 ‖ L1 ‖ …`, where
//! FC tells the derivations apart and each parameter is followed by its
//! length in two octets (TS 33.220 Annex B.2).

use vstd::arithmetic::power::pow;
use vstd::prelude::*;

use crate::crypto::{hmac_sha256, hmac_sha256_tag};
use crate::nas::formats::decimal_digit_at;
use crate::nas::ie::{
    decimal_digits, digits_round_trip, high_nibble, lemma_u64_digits_len, low_nibble, to_decimal,
};
use crate::octets::{append, to_array};

verus! {

pub const FC_KASME: u8 = 0x10;

pub const FC_KAUSF: u8 = 0x6A;

pub const FC_RES_STAR: u8 = 0x6B;

pub const FC_KSEAF: u8 = 0x6C;

pub const FC_KAMF: u8 = 0x6D;

/// A parameter, followed by its length.
pub open spec fn parameter(p: Seq<u8>) -> Seq<u8> {
    p + seq![(p.len() / 256) as u8, (p.len() % 256) as u8]
}

fn push_parameter(s: &mut Vec<u8>, p: &[u8])
    requires
        p@.len() <= 0xFFFF,
    ensures
        final(s)@ == old(s)@ + parameter(p@),
{
    let len: usize = p.len();
    append(s, p);
    s.push((len / 256) as u8);
    s.push((len % 256) as u8);
    assert(s@ =~= old(s)@ + parameter(p@));
}

/// CK, then IK: the key of the derivations that start from Milenage.
pub open spec fn ck_ik(ck: Seq<u8>, ik: Seq<u8>) -> Seq<u8> {
    ck + ik
}

fn concat_ck_ik(ck: &[u8; 16], ik: &[u8; 16]) -> (key: Vec<u8>)
    ensures
        key@ == ck_ik(ck@, ik@),
{
    let mut key: Vec<u8> = Vec::new();
    append(&mut key, ck.as_slice());
    append(&mut key, ik.as_slice());
    assert(key@ =~= ck_ik(ck@, ik@));
    key
}

// ── Serving network name ──────────────────────────────────────────────────────

/// The decimal digit of a nibble; values above 9, which encode no digit, are
/// shown as lower-case hexadecimal digits.
pub open spec fn digit_octet(n: u8) -> u8 {
    if n < 10 {
        (0x30 + n) as u8
    } else {
        (0x57 + n) as u8
    }
}

/// The third digit of the MNC, or the leading zero of an MNC of two digits.
pub open spec fn mnc_digits(plmn: Seq<u8>) -> Seq<u8> {
    let d1 = digit_octet((plmn[2] % 16) as u8);
    let d2 = digit_octet((plmn[2] / 16) as u8);
    if plmn[1] / 16 == 15 {
        seq![0x30, d1, d2]
    } else {
        seq![d1, d2, digit_octet((plmn[1] / 16) as u8)]
    }
}

pub open spec fn mcc_digits(plmn: Seq<u8>) -> Seq<u8> {
    seq![
        digit_octet((plmn[0] % 16) as u8),
        digit_octet((plmn[0] / 16) as u8),
        digit_octet((plmn[1] % 16) as u8),
    ]
}

/// `5G:mncNNN.mccMMM.3gppnetwork.org` for a PLMN in packed digits.
pub open spec fn network_name(plmn: Seq<u8>) -> Seq<u8> {
    seq![0x35u8, 0x47, 0x3A, 0x6D, 0x6E, 0x63] + mnc_digits(plmn) + seq![0x2Eu8, 0x6D, 0x63, 0x63] + mcc_digits(
        plmn,
    ) + seq![
        0x2Eu8, 0x33, 0x67, 0x70, 0x70, 0x6E, 0x65, 0x74, 0x77, 0x6F, 0x72, 0x6B, 0x2E, 0x6F, 0x72, 0x67,
    ]
}

fn digit(n: u8) -> (b: u8)
    requires
        n < 16,
    ensures
        b == digit_octet(n),
{
    if n < 10 {
        0x30 + n
    } else {
        0x57 + n
    }
}

/// The serving network name of a PLMN, to which the 5G keys are bound.
pub fn serving_network_name(plmn: &[u8; 3]) -> (name: Vec<u8>)
    ensures
        name@ == network_name(plmn@),
        name@.len() == 32,
{
    let d1 = digit(low_nibble(plmn[2]));
    let d2 = digit(high_nibble(plmn[2]));
    let mnc: [u8; 3] = if high_nibble(plmn[1]) == 15 {
        [0x30, d1, d2]
    } else {
        [d1, d2, digit(high_nibble(plmn[1]))]
    };
    let mcc: [u8; 3] = [digit(low_nibble(plmn[0])), digit(high_nibble(plmn[0])), digit(low_nibble(plmn[1]))];
    let prefix: [u8; 6] = [0x35, 0x47, 0x3A, 0x6D, 0x6E, 0x63];
    let middle: [u8; 4] = [0x2E, 0x6D, 0x63, 0x63];
    let suffix: [u8; 16] = [
        0x2E, 0x33, 0x67, 0x70, 0x70, 0x6E, 0x65, 0x74, 0x77, 0x6F, 0x72, 0x6B, 0x2E, 0x6F, 0x72, 0x67,
    ];
    let mut name: Vec<u8> = Vec::new();
    append(&mut name, prefix.as_slice());
    append(&mut name, mnc.as_slice());
    append(&mut name, middle.as_slice());
    append(&mut name, mcc.as_slice());
    append(&mut name, suffix.as_slice());
    assert(mnc@ =~= mnc_digits(plmn@));
    assert(mcc@ =~= mcc_digits(plmn@));
    assert(name@ =~= network_name(plmn@));
    name
}

// ── SUPI ──────────────────────────────────────────────────────────────────────

/// An IMSI as decimal text, to which KAMF is bound.
pub open spec fn supi_text(imsi: u64) -> Seq<u8> {
    decimal_digits(imsi as nat).map_values(|d: u8| (0x30 + d) as u8)
}

/// Different subscribers have different texts.
pub proof fn supi_texts_are_separate(a: u64, b: u64)
    requires
        supi_text(a) == supi_text(b),
    ensures
        a == b,
{
    let x = decimal_digits(a as nat);
    let y = decimal_digits(b as nat);
    digits_round_trip(a as nat);
    digits_round_trip(b as nat);
    assert(supi_text(a).len() == x.len() && supi_text(b).len() == y.len());
    assert forall|i: int| 0 <= i < x.len() implies x[i] == y[i] by {
        assert(supi_text(a)[i] == 0x30 + x[i]);
        assert(supi_text(b)[i] == 0x30 + y[i]);
    }
    assert(x =~= y);
}

/// An IMSI as decimal text.
pub fn supi_from_imsi(imsi: u64) -> (text: Vec<u8>)
    ensures
        text@ == supi_text(imsi),
        text@.len() <= 20,
{
    let digits = to_decimal(imsi);
    let mut text: Vec<u8> = Vec::new();
    let mut i: usize = 0;
    proof {
        lemma_u64_digits_len(imsi);
        digits_round_trip(imsi as nat);
    }
    while i < digits.len()
        invariant
            i <= digits@.len(),
            text@.len() == i,
            digits@ == decimal_digits(imsi as nat),
            forall|j: int| 0 <= j < digits@.len() ==> #[trigger] digits@[j] <= 9,
            forall|j: int| 0 <= j < i ==> #[trigger] text@[j] == 0x30 + digits@[j],
        decreases digits@.len() - i,
    {
        text.push(0x30 + digits[i]);
        i += 1;
    }
    assert(text@ =~= supi_text(imsi));
    text
}

// ── Derivations ───────────────────────────────────────────────────────────────

pub open spec fn kasme_input(plmn: Seq<u8>, sqn_xor_ak: Seq<u8>) -> Seq<u8> {
    seq![FC_KASME] + parameter(plmn) + parameter(sqn_xor_ak)
}

pub open spec fn kausf_input(snn: Seq<u8>, sqn_xor_ak: Seq<u8>) -> Seq<u8> {
    seq![FC_KAUSF] + parameter(snn) + parameter(sqn_xor_ak)
}

pub open spec fn res_star_input(snn: Seq<u8>, rand: Seq<u8>, res: Seq<u8>) -> Seq<u8> {
    seq![FC_RES_STAR] + parameter(snn) + parameter(rand) + parameter(res)
}

pub open spec fn kseaf_input(snn: Seq<u8>) -> Seq<u8> {
    seq![FC_KSEAF] + parameter(snn)
}

pub open spec fn kamf_input(supi: Seq<u8>, abba: Seq<u8>) -> Seq<u8> {
    seq![FC_KAMF] + parameter(supi) + parameter(abba)
}

pub open spec fn kasme(ck: Seq<u8>, ik: Seq<u8>, plmn: Seq<u8>, sqn_xor_ak: Seq<u8>) -> Seq<u8> {
    hmac_sha256_tag(ck_ik(ck, ik), kasme_input(plmn, sqn_xor_ak))
}

pub open spec fn kausf(ck: Seq<u8>, ik: Seq<u8>, snn: Seq<u8>, sqn_xor_ak: Seq<u8>) -> Seq<u8> {
    hmac_sha256_tag(ck_ik(ck, ik), kausf_input(snn, sqn_xor_ak))
}

/// RES*: the 128 least significant bits of the derived value.
pub open spec fn res_star(ck: Seq<u8>, ik: Seq<u8>, snn: Seq<u8>, rand: Seq<u8>, res: Seq<u8>) -> Seq<u8> {
    Seq::new(16, |i: int| hmac_sha256_tag(ck_ik(ck, ik), res_star_input(snn, rand, res))[16 + i])
}

pub open spec fn kseaf(kausf: Seq<u8>, snn: Seq<u8>) -> Seq<u8> {
    hmac_sha256_tag(kausf, kseaf_input(snn))
}

pub open spec fn kamf(kseaf: Seq<u8>, supi: Seq<u8>, abba: Seq<u8>) -> Seq<u8> {
    hmac_sha256_tag(kseaf, kamf_input(supi, abba))
}

/// No input of one derivation is an input of another.
pub proof fn derivations_are_separate(
    plmn: Seq<u8>,
    snn: Seq<u8>,
    sqn_xor_ak: Seq<u8>,
    rand: Seq<u8>,
    res: Seq<u8>,
    supi: Seq<u8>,
    abba: Seq<u8>,
)
    ensures
        kasme_input(plmn, sqn_xor_ak)[0] == FC_KASME,
        kausf_input(snn, sqn_xor_ak)[0] == FC_KAUSF,
        res_star_input(snn, rand, res)[0] == FC_RES_STAR,
        kseaf_input(snn)[0] == FC_KSEAF,
        kamf_input(supi, abba)[0] == FC_KAMF,
        FC_KASME < FC_KAUSF < FC_RES_STAR < FC_KSEAF < FC_KAMF,
{
}

/// Different serving networks have different names, so that a key made for
/// one is not the input of another. An MNC of two digits and the MNC of three
/// digits with a leading zero share a name, and so are left out.
pub proof fn network_names_are_separate(a: Seq<u8>, b: Seq<u8>)
    requires
        a.len() == 3,
        b.len() == 3,
        network_name(a) == network_name(b),
        (a[1] / 16 == 15) == (b[1] / 16 == 15),
    ensures
        a == b,
{
    let x = network_name(a);
    let y = network_name(b);
    assert(x.subrange(6, 9) =~= mnc_digits(a));
    assert(y.subrange(6, 9) =~= mnc_digits(b));
    assert(x.subrange(13, 16) =~= mcc_digits(a));
    assert(y.subrange(13, 16) =~= mcc_digits(b));
    assert(mnc_digits(a)[0] == mnc_digits(b)[0] && mnc_digits(a)[1] == mnc_digits(b)[1] && mnc_digits(a)[2]
        == mnc_digits(b)[2]);
    assert(mcc_digits(a)[0] == mcc_digits(b)[0] && mcc_digits(a)[1] == mcc_digits(b)[1] && mcc_digits(a)[2]
        == mcc_digits(b)[2]);
    assert(a =~= b);
}

/// The octets of a text of ASCII characters.
pub open spec fn ascii(text: Seq<char>) -> Seq<u8> {
    text.map_values(|c: char| c as u8)
}

/// The ASCII digits of a number of up to three digits.
pub open spec fn three_digits(n: nat) -> Seq<u8> {
    seq![(48 + n / 100) as u8, (48 + n / 10 % 10) as u8, (48 + n % 10) as u8]
}

/// The name of the network with a given country code and network code shows
/// both in three decimal digits. The codes are packed into the PLMN one digit
/// to a nibble; a network code of two digits leaves a filler, and shows a
/// leading zero.
pub proof fn network_name_shows_mcc_and_mnc(mcc: nat, mnc: nat)
    requires
        mcc < 1000,
        mnc < 1000,
    ensures
        ({
            let first = (mcc / 10 % 10 * 16 + mcc / 100) as u8;
            let name = ascii("5G:mnc"@) + three_digits(mnc) + ascii(".mcc"@) + three_digits(mcc) + ascii(
                ".3gppnetwork.org"@,
            );
            &&& network_name(
                seq![first, (mnc % 10 * 16 + mcc % 10) as u8, (mnc / 10 % 10 * 16 + mnc / 100) as u8],
            ) == name
            &&& mnc < 100 ==> network_name(
                seq![first, (15 * 16 + mcc % 10) as u8, (mnc % 10 * 16 + mnc / 10) as u8],
            ) == name
        }),
{
    reveal_strlit("5G:mnc");
    reveal_strlit(".mcc");
    reveal_strlit(".3gppnetwork.org");
    let name = ascii("5G:mnc"@) + three_digits(mnc) + ascii(".mcc"@) + three_digits(mcc) + ascii(".3gppnetwork.org"@);
    let first = (mcc / 10 % 10 * 16 + mcc / 100) as u8;
    let long = seq![first, (mnc % 10 * 16 + mcc % 10) as u8, (mnc / 10 % 10 * 16 + mnc / 100) as u8];
    let short = seq![first, (15 * 16 + mcc % 10) as u8, (mnc % 10 * 16 + mnc / 10) as u8];
    assert(network_name(long) =~= name);
    if mnc < 100 {
        assert(network_name(short) =~= name);
    }
}

/// A name shows every nibble as a hexadecimal digit: those of the network code
/// behind the first six characters, a zero in front where its third nibble is
/// the filler, and those of the country code behind the thirteenth.
pub proof fn network_name_shows_nibbles(plmn: Seq<u8>)
    requires
        plmn.len() == 3,
    ensures
        ({
            let hex = ascii("0123456789abcdef"@);
            let name = network_name(plmn);
            let a = hex[(plmn[2] % 16) as int];
            let b = hex[(plmn[2] / 16) as int];
            &&& name.len() == 32
            &&& name.subrange(0, 6) == ascii("5G:mnc"@)
            &&& name.subrange(6, 9) == if plmn[1] / 16 == 15 {
                seq![48u8, a, b]
            } else {
                seq![a, b, hex[(plmn[1] / 16) as int]]
            }
            &&& name.subrange(9, 13) == ascii(".mcc"@)
            &&& name.subrange(13, 16) == seq![
                hex[(plmn[0] % 16) as int],
                hex[(plmn[0] / 16) as int],
                hex[(plmn[1] % 16) as int],
            ]
            &&& name.subrange(16, 32) == ascii(".3gppnetwork.org"@)
        }),
{
    reveal_strlit("0123456789abcdef");
    reveal_strlit("5G:mnc");
    reveal_strlit(".mcc");
    reveal_strlit(".3gppnetwork.org");
    let hex = ascii("0123456789abcdef"@);
    let name = network_name(plmn);
    lemma_hex_digit((plmn[0] % 16) as u8);
    lemma_hex_digit((plmn[0] / 16) as u8);
    lemma_hex_digit((plmn[1] % 16) as u8);
    lemma_hex_digit((plmn[1] / 16) as u8);
    lemma_hex_digit((plmn[2] % 16) as u8);
    lemma_hex_digit((plmn[2] / 16) as u8);
    assert(name.subrange(0, 6) =~= ascii("5G:mnc"@));
    assert(name.subrange(9, 13) =~= ascii(".mcc"@));
    assert(name.subrange(16, 32) =~= ascii(".3gppnetwork.org"@));
}

/// A nibble as a hexadecimal digit.
proof fn lemma_hex_digit(n: u8)
    requires
        n < 16,
    ensures
        digit_octet(n) == ascii("0123456789abcdef"@)[n as int],
{
    reveal_strlit("0123456789abcdef");
}

/// A parameter's length in two octets, most significant first.
pub open spec fn length_octets(n: nat) -> Seq<u8> {
    seq![(n / 256) as u8, (n % 256) as u8]
}

/// Which octets each derivation hashes, and under which key: the number of the
/// derivation, and each parameter with its length behind it. Nothing else
/// enters a key, and RES* is the second half of what comes out.
pub proof fn derivations_hash_their_parameters(
    ck: Seq<u8>,
    ik: Seq<u8>,
    plmn: Seq<u8>,
    sqn_xor_ak: Seq<u8>,
    snn: Seq<u8>,
    rand: Seq<u8>,
    response: Seq<u8>,
    key: Seq<u8>,
    supi: Seq<u8>,
    abba: Seq<u8>,
)
    requires
        plmn.len() == 3,
        sqn_xor_ak.len() == 6,
        rand.len() == 16,
        response.len() == 8,
        abba.len() == 2,
    ensures
        kasme(ck, ik, plmn, sqn_xor_ak) == hmac_sha256_tag(
            ck + ik,
            seq![0x10u8] + plmn + seq![0u8, 3] + sqn_xor_ak + seq![0u8, 6],
        ),
        kausf(ck, ik, snn, sqn_xor_ak) == hmac_sha256_tag(
            ck + ik,
            seq![0x6Au8] + snn + length_octets(snn.len()) + sqn_xor_ak + seq![0u8, 6],
        ),
        kseaf(key, snn) == hmac_sha256_tag(key, seq![0x6Cu8] + snn + length_octets(snn.len())),
        kamf(key, supi, abba) == hmac_sha256_tag(
            key,
            seq![0x6Du8] + supi + length_octets(supi.len()) + abba + seq![0u8, 2],
        ),
        res_star(ck, ik, snn, rand, response).len() == 16,
        forall|i: int|
            0 <= i < 16 ==> #[trigger] res_star(ck, ik, snn, rand, response)[i] == hmac_sha256_tag(
                ck + ik,
                seq![0x6Bu8] + snn + length_octets(snn.len()) + rand + seq![0u8, 16] + response + seq![0u8, 8],
            )[16 + i],
{
    assert(kasme_input(plmn, sqn_xor_ak) =~= seq![0x10u8] + plmn + seq![0u8, 3] + sqn_xor_ak + seq![0u8, 6]);
    assert(kausf_input(snn, sqn_xor_ak) =~= seq![0x6Au8] + snn + length_octets(snn.len()) + sqn_xor_ak + seq![0u8, 6]);
    assert(kseaf_input(snn) =~= seq![0x6Cu8] + snn + length_octets(snn.len()));
    assert(kamf_input(supi, abba) =~= seq![0x6Du8] + supi + length_octets(supi.len()) + abba + seq![0u8, 2]);
    assert(res_star_input(snn, rand, response) =~= seq![0x6Bu8] + snn + length_octets(snn.len()) + rand + seq![
        0u8,
        16,
    ] + response + seq![0u8, 8]);
}

/// The text of an IMSI is its decimal digits in ASCII, most significant first:
/// the digit that stands for the tens of power `j`.
pub proof fn supi_text_is_decimal(imsi: u64, j: nat)
    requires
        j < supi_text(imsi).len(),
    ensures
        supi_text(imsi)[supi_text(imsi).len() - 1 - j] == 48 + (imsi as int) / pow(10, j) % 10,
        (imsi as int) < pow(10, supi_text(imsi).len()),
        supi_text(imsi).len() > 1 ==> supi_text(imsi)[0] != 48,
{
    decimal_digit_at(imsi as nat, j);
    let d = decimal_digits(imsi as nat);
    digits_round_trip(imsi as nat);
    assert(d[d.len() - 1 - j] <= 9);
    assert(d[0] <= 9);
}

/// Kasme, the key of an LTE NAS security context.
pub fn derive_kasme(ck: &[u8; 16], ik: &[u8; 16], plmn: &[u8; 3], sqn_xor_ak: &[u8; 6]) -> (key: [u8; 32])
    ensures
        key@ == kasme(ck@, ik@, plmn@, sqn_xor_ak@),
{
    let mut s: Vec<u8> = vec![FC_KASME];
    push_parameter(&mut s, plmn.as_slice());
    push_parameter(&mut s, sqn_xor_ak.as_slice());
    assert(s@ =~= kasme_input(plmn@, sqn_xor_ak@));
    hmac_sha256(concat_ck_ik(ck, ik).as_slice(), s.as_slice())
}

/// KAUSF, bound to the serving network.
pub fn derive_kausf(ck: &[u8; 16], ik: &[u8; 16], snn: &[u8], sqn_xor_ak: &[u8; 6]) -> (key: [u8; 32])
    requires
        snn@.len() <= 0xFFFF,
    ensures
        key@ == kausf(ck@, ik@, snn@, sqn_xor_ak@),
{
    let mut s: Vec<u8> = vec![FC_KAUSF];
    push_parameter(&mut s, snn);
    push_parameter(&mut s, sqn_xor_ak.as_slice());
    assert(s@ =~= kausf_input(snn@, sqn_xor_ak@));
    hmac_sha256(concat_ck_ik(ck, ik).as_slice(), s.as_slice())
}

/// RES*, the 5G response to a challenge.
pub fn derive_res_star(ck: &[u8; 16], ik: &[u8; 16], snn: &[u8], rand: &[u8; 16], res: &[u8; 8]) -> (r: [u8; 16])
    requires
        snn@.len() <= 0xFFFF,
    ensures
        r@ == res_star(ck@, ik@, snn@, rand@, res@),
{
    let mut s: Vec<u8> = vec![FC_RES_STAR];
    push_parameter(&mut s, snn);
    push_parameter(&mut s, rand.as_slice());
    push_parameter(&mut s, res.as_slice());
    assert(s@ =~= res_star_input(snn@, rand@, res@));
    let out = hmac_sha256(concat_ck_ik(ck, ik).as_slice(), s.as_slice());
    let r = to_array::<16>(&out[16..32]);
    assert(r@ =~= res_star(ck@, ik@, snn@, rand@, res@));
    r
}

/// KSEAF, the anchor key of the serving network.
pub fn derive_kseaf(kausf_key: &[u8; 32], snn: &[u8]) -> (key: [u8; 32])
    requires
        snn@.len() <= 0xFFFF,
    ensures
        key@ == kseaf(kausf_key@, snn@),
{
    let mut s: Vec<u8> = vec![FC_KSEAF];
    push_parameter(&mut s, snn);
    assert(s@ =~= kseaf_input(snn@));
    hmac_sha256(kausf_key.as_slice(), s.as_slice())
}

/// KAMF, the key of a 5G NAS security context. `abba` guards against bidding
/// down between releases.
pub fn derive_kamf(kseaf_key: &[u8; 32], supi: &[u8], abba: &[u8; 2]) -> (key: [u8; 32])
    requires
        supi@.len() <= 0xFFFF,
    ensures
        key@ == kamf(kseaf_key@, supi@, abba@),
{
    let mut s: Vec<u8> = vec![FC_KAMF];
    push_parameter(&mut s, supi);
    push_parameter(&mut s, abba.as_slice());
    assert(s@ =~= kamf_input(supi@, abba@));
    hmac_sha256(kseaf_key.as_slice(), s.as_slice())
}

} // verus!
