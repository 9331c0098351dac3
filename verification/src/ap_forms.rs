//! Laws of application protocol messages, octet by octet: how IEs, containers
//! and PDUs are laid out, and which of several IEs counts.

use vstd::arithmetic::power2::{lemma2_to64, pow2};
use vstd::prelude::*;

use crate::ap::{
    container_octets, ie_put, int_in, int_value, last_ie, last_parsed,
    message_fits, message_octets, octet_string_in, octet_string_value, pdu_octets, put_ie, Ie, Pdu,
};
use crate::per::{
    bits_to_octets, get_int, get_octet_string, lemma_bits_len, lemma_octets_concat,
    nat_to_bits, octets_to_bits, pad, put_int, put_octet_string, put_octets,
};
use crate::per_forms::{
    digits_join, items_octets, length_prefix, lemma_octet_digits, list_form, octet_string_form, packed_octets,
    width_is_least,
};

verus! {

proof fn lemma_zero_digits(p: nat)
    ensures
        nat_to_bits(0, p) == Seq::new(p, |k: int| false),
    decreases p,
{
    if p > 0 {
        lemma_zero_digits((p - 1) as nat);
    }
    assert(nat_to_bits(0, p) =~= Seq::new(p, |k: int| false));
}

/// Digits that are filled up to whole octets.
pub proof fn lemma_pad_digits(v: nat, width: nat, p: nat)
    requires
        (width + p) % 8 == 0,
        p < 8,
    ensures
        pad(nat_to_bits(v, width)) == nat_to_bits(v * pow2(p), width + p),
{
    lemma_bits_len(v, width);
    lemma_zero_digits(p);
    vstd::arithmetic::power2::lemma_pow2_pos(p);
    digits_join(v, 0, width, p);
    assert(pad(nat_to_bits(v, width)) =~= nat_to_bits(v, width) + Seq::new(p, |k: int| false));
}

/// Bits behind whole octets are filled up by themselves.
pub proof fn lemma_pad_behind_octets(e: Seq<u8>, x: Seq<bool>)
    ensures
        pad(octets_to_bits(e) + x) == octets_to_bits(e) + pad(x),
{
    assert(octets_to_bits(e).len() == 8 * e.len());
    assert(pad(octets_to_bits(e) + x) =~= octets_to_bits(e) + pad(x));
}

/// The width of each integer field.
pub proof fn field_widths()
    ensures
        crate::per::bit_width(2) == 2,
        crate::per::bit_width(6) == 3,
        crate::per::bit_width(15) == 4,
        crate::per::bit_width(63) == 6,
        crate::per::bit_width(255) == 8,
        crate::per::bit_width(65_535) == 16,
        crate::per::bit_width(16_777_215) == 24,
        crate::per::bit_width(4_294_967_295) == 32,
        crate::per::bit_width(10_000_000_000) == 34,
        crate::per::bit_width(4_000_000_000_000) == 42,
{
    lemma2_to64();
    vstd::arithmetic::power2::lemma2_to64_rest();
    width_is_least(2, 2);
    width_is_least(6, 3);
    width_is_least(15, 4);
    width_is_least(63, 6);
    width_is_least(255, 8);
    width_is_least(65_535, 16);
    width_is_least(16_777_215, 24);
    width_is_least(4_294_967_295, 32);
    width_is_least(10_000_000_000, 34);
    width_is_least(4_000_000_000_000, 42);
}

// ── Values ────────────────────────────────────────────────────────────────────

proof fn lemma_int_value(v: nat, max: u64, width: nat, p: nat, d: Seq<u8>)
    requires
        crate::per::bit_width(max as nat) == width,
        (width + p) % 8 == 0,
        p < 8,
        octets_to_bits(d) == nat_to_bits(v * pow2(p), width + p),
    ensures
        int_value(v as int, max) == d,
{
    let x = put_int(Seq::empty(), v as int, 0, max as int);
    assert(x =~= nat_to_bits(v, width));
    lemma_pad_digits(v, width, p);
    packed_octets(x, d);
}

/// An IE value that is one integer: as many octets as its range needs, the
/// number at the front, most significant octet first.
pub proof fn int_value_forms(v: u32)
    ensures
        int_value(v as int, 4_294_967_295) == seq![
            (v / 0x100_0000) as u8,
            (v / 0x1_0000 % 256) as u8,
            (v / 256 % 256) as u8,
            (v % 256) as u8,
        ],
        v <= 16_777_215 ==> int_value(v as int, 16_777_215) == seq![
            (v / 0x1_0000) as u8,
            (v / 256 % 256) as u8,
            (v % 256) as u8,
        ],
        v <= 255 ==> int_value(v as int, 255) == seq![v as u8],
        v <= 15 ==> int_value(v as int, 15) == seq![(v * 16) as u8],
        v <= 6 ==> int_value(v as int, 6) == seq![(v * 32) as u8],
{
    lemma2_to64();
    field_widths();
    let n = v as nat;
    let one = pow2(0);
    assert(n * one == n) by (nonlinear_arith)
        requires
            one == 1,
    ;
    lemma_octet_digits(n);
    lemma_int_value(
        n,
        4_294_967_295,
        32,
        0,
        seq![(v / 0x100_0000) as u8, (v / 0x1_0000 % 256) as u8, (v / 256 % 256) as u8, (v % 256) as u8],
    );
    if v <= 16_777_215 {
        lemma_int_value(
            n,
            16_777_215,
            24,
            0,
            seq![(v / 0x1_0000) as u8, (v / 256 % 256) as u8, (v % 256) as u8],
        );
    }
    if v <= 255 {
        lemma_int_value(n, 255, 8, 0, seq![v as u8]);
    }
    if v <= 15 {
        lemma_octet_digits(n * 16);
        lemma_int_value(n, 15, 4, 4, seq![(v * 16) as u8]);
    }
    if v <= 6 {
        lemma_octet_digits(n * 32);
        lemma_int_value(n, 6, 3, 5, seq![(v * 32) as u8]);
    }
}

/// An IE value that is one octet string: its length, then its octets.
pub proof fn octet_string_value_form(s: Seq<u8>)
    requires
        s.len() <= 16383,
    ensures
        octet_string_value(s) == length_prefix(s.len()) + s,
{
    octet_string_form(Seq::empty(), s);
}

/// Octets are packed as they are.
pub proof fn lemma_octets_packed(s: Seq<u8>)
    ensures
        bits_to_octets(octets_to_bits(s)) == s,
        bits_to_octets(put_octets(Seq::empty(), s)) == s,
{
    let w = octets_to_bits(s);
    assert(w.len() == 8 * s.len());
    assert(pad(w) =~= w);
    packed_octets(w, s);
    assert(put_octets(Seq::empty(), s) =~= w);
}

// ── Layout ────────────────────────────────────────────────────────────────────

/// The octets of an IE: the identifier in two, the criticality in the two
/// highest bits of the third, the length, the value.
pub open spec fn ie_octets(ie: Ie) -> Seq<u8> {
    seq![(ie.id / 256) as u8, (ie.id % 256) as u8, (ie.criticality * 64) as u8] + length_prefix(ie.value.len())
        + ie.value
}

/// An IE is written so, wherever it stands.
pub proof fn ie_form(e: Seq<u8>, ie: Ie)
    requires
        ie.id <= 65_535,
        ie.criticality <= 2,
        ie.value.len() <= 16383,
    ensures
        put_ie(octets_to_bits(e), ie) == octets_to_bits(e + ie_octets(ie)),
{
    lemma2_to64();
    field_widths();
    let id = ie.id as nat;
    let c = ie.criticality as nat;
    let head = seq![(ie.id / 256) as u8, (ie.id % 256) as u8];
    let tag = seq![(ie.criticality * 64) as u8];
    lemma_octet_digits(id);
    lemma_octet_digits(c * 64);
    let w = put_int(put_int(octets_to_bits(e), ie.id as int, 0, 65_535), ie.criticality as int, 0, 2);
    lemma_octets_concat(e, head);
    assert(w =~= octets_to_bits(e + head) + nat_to_bits(c, 2));
    lemma_pad_behind_octets(e + head, nat_to_bits(c, 2));
    lemma_pad_digits(c, 2, 6);
    lemma_octets_concat(e + head, tag);
    assert(pad(w) == octets_to_bits(e + head + tag));
    octet_string_form(w, ie.value);
    lemma_octets_concat(e + head + tag, length_prefix(ie.value.len()) + ie.value);
    assert(e + head + tag + (length_prefix(ie.value.len()) + ie.value) =~= e + ie_octets(ie));
}

/// A container is the number of its IEs, then each of them in order.
pub proof fn container_form(ies: Seq<Ie>)
    requires
        ies.len() <= 16383,
        forall|i: int|
            0 <= i < ies.len() ==> (#[trigger] ies[i]).id <= 65_535 && ies[i].criticality <= 2 && ies[i].value.len()
                <= 16383,
    ensures
        container_octets(ies) == length_prefix(ies.len()) + items_octets(ies, |ie: Ie| ie_octets(ie)),
{
    let form = |ie: Ie| ie_octets(ie);
    assert forall|e: Seq<u8>, i: int| 0 <= i < ies.len() implies #[trigger] (ie_put())(octets_to_bits(e), ies[i])
        == octets_to_bits(e + form(ies[i])) by {
        ie_form(e, ies[i]);
    }
    list_form(ies, ie_put(), form);
}

/// The digits in front of a PDU, filled up.
proof fn lemma_pdu_head(a: nat, b: nat, c: nat)
    requires
        a <= 2,
        b <= 255,
        c <= 2,
    ensures
        pad(nat_to_bits(a, 2) + nat_to_bits(b, 8) + nat_to_bits(c, 2)) == octets_to_bits(
            seq![(a * 64 + b / 4) as u8, (b % 4 * 64 + c * 16) as u8],
        ),
{
    lemma2_to64();
    digits_join(a, b, 2, 8);
    let ab = a * 256 + b;
    digits_join(ab, c, 10, 2);
    let abc = ab * 4 + c;
    lemma_pad_digits(abc, 12, 4);
    let v = abc * 16;
    lemma_octet_digits(v);
    assert(v / 256 == a * 64 + b / 4);
    assert(v % 256 == b % 4 * 64 + c * 16);
}

/// An octet string behind digits that fill whole octets once padded.
proof fn lemma_octet_string_behind(w: Seq<bool>, head: Seq<u8>, value: Seq<u8>)
    requires
        pad(w) == octets_to_bits(head),
        value.len() <= 16383,
    ensures
        bits_to_octets(put_octet_string(w, value)) == head + length_prefix(value.len()) + value,
{
    octet_string_form(w, value);
    let tail = length_prefix(value.len()) + value;
    lemma_octets_concat(head, tail);
    let all = put_octet_string(w, value);
    assert(all == octets_to_bits(head + tail));
    assert(all.len() == 8 * (head + tail).len());
    assert(pad(all) =~= all);
    packed_octets(all, head + tail);
    assert(head + tail =~= head + length_prefix(value.len()) + value);
}

proof fn lemma_pdu_integers(a: nat, b: nat, c: nat)
    ensures
        put_int(put_int(put_int(Seq::empty(), a as int, 0, 2), b as int, 0, 255), c as int, 0, 2) == nat_to_bits(a, 2)
            + nat_to_bits(b, 8) + nat_to_bits(c, 2),
{
    field_widths();
    assert(put_int(Seq::empty(), a as int, 0, 2) =~= nat_to_bits(a, 2));
}

/// A PDU starts with the choice in two bits, the procedure code in eight and
/// the criticality in two; then come the length and the value.
pub proof fn pdu_form(pdu: Pdu)
    requires
        pdu.choice <= 2,
        pdu.procedure_code <= 255,
        pdu.criticality <= 2,
        pdu.value.len() <= 16383,
    ensures
        pdu_octets(pdu) == seq![
            (pdu.choice * 64 + pdu.procedure_code / 4) as u8,
            (pdu.procedure_code % 4 * 64 + pdu.criticality * 16) as u8,
        ] + length_prefix(pdu.value.len()) + pdu.value,
{
    let a = pdu.choice as nat;
    let b = pdu.procedure_code as nat;
    let c = pdu.criticality as nat;
    let w = nat_to_bits(a, 2) + nat_to_bits(b, 8) + nat_to_bits(c, 2);
    lemma_pdu_integers(a, b, c);
    lemma_pdu_head(a, b, c);
    let head = seq![
        (pdu.choice * 64 + pdu.procedure_code / 4) as u8,
        (pdu.procedure_code % 4 * 64 + pdu.criticality * 16) as u8,
    ];
    lemma_octet_string_behind(w, head, pdu.value);
}

/// A message is a PDU around the container of its IEs.
pub proof fn message_form(choice: u64, procedure_code: u32, criticality: u8, ies: Seq<Ie>)
    requires
        choice <= 2,
        procedure_code <= 255,
        criticality <= 2,
        ies.len() <= 16383,
        forall|i: int|
            0 <= i < ies.len() ==> (#[trigger] ies[i]).id <= 65_535 && ies[i].criticality <= 2 && ies[i].value.len()
                <= 16383,
        container_octets(ies).len() <= 16383,
    ensures
        ({
            let container = length_prefix(ies.len()) + items_octets(ies, |ie: Ie| ie_octets(ie));
            message_octets(choice, procedure_code, criticality, ies) == seq![
                (choice * 64 + procedure_code / 4) as u8,
                (procedure_code % 4 * 64 + criticality * 16) as u8,
            ] + length_prefix(container.len()) + container
        }),
{
    container_form(ies);
    pdu_form(Pdu { choice, procedure_code, criticality, value: container_octets(ies) });
}

/// IEs fit into a message if and only if none of the lengths in it is above
/// 16383: that of a value, their number, and that of all of them together.
pub proof fn what_fits(ies: Seq<Ie>)
    requires
        forall|i: int| 0 <= i < ies.len() ==> (#[trigger] ies[i]).id <= 65_535 && ies[i].criticality <= 2,
    ensures
        message_fits(ies) <==> {
            &&& ies.len() <= 16383
            &&& forall|i: int| 0 <= i < ies.len() ==> (#[trigger] ies[i]).value.len() <= 16383
            &&& (length_prefix(ies.len()) + items_octets(ies, |ie: Ie| ie_octets(ie))).len() <= 16383
        },
{
    if ies.len() <= 16383 && (forall|i: int| 0 <= i < ies.len() ==> (#[trigger] ies[i]).value.len() <= 16383) {
        container_form(ies);
    }
}

// ── Reading ───────────────────────────────────────────────────────────────────

/// Of several IEs with an identifier the last one counts. Its octets are read
/// as the integer or the octet string that they start with.
pub proof fn last_ie_counts(ies: Seq<Ie>, id: u32, i: int)
    ensures
        last_ie(ies, id) is None <==> forall|j: int| 0 <= j < ies.len() ==> (#[trigger] ies[j]).id != id,
        0 <= i < ies.len() && ies[i].id == id && (forall|j: int|
            i < j < ies.len() ==> (#[trigger] ies[j]).id != id) ==> last_ie(ies, id) == Some(ies[i].value),
    decreases ies.len(),
{
    if ies.len() > 0 {
        let head = ies.drop_last();
        last_ie_counts(head, id, i);
        assert(forall|j: int| 0 <= j < head.len() ==> head[j] == ies[j]);
        assert(ies.last() == ies[ies.len() - 1]);
        if ies.last().id != id {
            assert((forall|j: int| 0 <= j < ies.len() ==> (#[trigger] ies[j]).id != id) <==> (forall|j: int|
                0 <= j < head.len() ==> (#[trigger] head[j]).id != id)) by {
                if forall|j: int| 0 <= j < head.len() ==> (#[trigger] head[j]).id != id {
                    assert forall|j: int| 0 <= j < ies.len() implies (#[trigger] ies[j]).id != id by {
                        if j < head.len() {
                            assert(head[j].id != id);
                        }
                    }
                }
            }
        }
    }
}

/// Of several IEs with an identifier, the last one that can be read counts
/// where a value may be unreadable.
pub proof fn last_readable_ie_counts<T>(ies: Seq<Ie>, id: u32, parse: spec_fn(Seq<u8>) -> Option<T>, i: int)
    ensures
        last_parsed(ies, id, parse) is None <==> forall|j: int|
            0 <= j < ies.len() && (#[trigger] ies[j]).id == id ==> parse(ies[j].value) is None,
        0 <= i < ies.len() && ies[i].id == id && parse(ies[i].value) is Some && (forall|j: int|
            i < j < ies.len() && (#[trigger] ies[j]).id == id ==> parse(ies[j].value) is None) ==> last_parsed(
            ies,
            id,
            parse,
        ) == parse(ies[i].value),
    decreases ies.len(),
{
    if ies.len() > 0 {
        let head = ies.drop_last();
        last_readable_ie_counts(head, id, parse, i);
        assert(forall|j: int| 0 <= j < head.len() ==> head[j] == ies[j]);
        assert(ies.last() == ies[ies.len() - 1]);
        if !(ies.last().id == id && parse(ies.last().value) is Some) {
            if forall|j: int| 0 <= j < head.len() && (#[trigger] head[j]).id == id ==> parse(head[j].value) is None {
                assert forall|j: int| 0 <= j < ies.len() && (#[trigger] ies[j]).id == id implies parse(
                    ies[j].value,
                ) is None by {
                    if j < head.len() {
                        assert(head[j].id == id);
                    }
                }
            }
        }
    }
}

/// What an IE value of that identifier is read as.
pub proof fn values_are_read(ies: Seq<Ie>, id: u32, max: u64)
    ensures
        last_ie(ies, id) is None ==> int_in(ies, id, max) is None && octet_string_in(ies, id) is None,
        last_ie(ies, id) is Some ==> {
            let v = last_ie(ies, id)->0;
            let n = get_int(v, 0, 0, max as int);
            let s = get_octet_string(v, 0);
            &&& int_in(ies, id, max) is Some <==> n is Some
            &&& n is Some ==> int_in(ies, id, max) == Some((n->0).0)
            &&& octet_string_in(ies, id) is Some <==> s is Some
            &&& s is Some ==> octet_string_in(ies, id) == Some((s->0).0)
        },
{
}

} // verus!
