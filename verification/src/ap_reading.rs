//! Laws of reading application protocol messages: which octets hold what, and
//! when a message cannot be read.

use vstd::arithmetic::power2::lemma2_to64;
use vstd::prelude::*;

use crate::ap::{get_container, get_ie, get_pdu, ie_get, Ie, Pdu};
use crate::ap_forms::field_widths;
use crate::per::{
    bit_width, bits_to_nat, get_int, get_items, get_length, get_list, get_octet_string, lemma_bits_len,
    lemma_bits_value, lemma_octets_subrange, nat_to_bits, octets_to_bits,
};
use crate::per_forms::{digits_join, lemma_octet_digits};

verus! {

/// Digits at a position are read as the number that they denote.
pub proof fn lemma_digits_are_read(d: Seq<u8>, pos: nat, v: nat, max: nat, width: nat)
    requires
        bit_width(max) == width,
        pos + width <= 8 * d.len(),
        octets_to_bits(d).subrange(pos as int, (pos + width) as int) == nat_to_bits(v, width),
        bits_to_nat(nat_to_bits(v, width)) == v,
    ensures
        get_int(d, pos, 0, max as int) == if v <= max {
            Some((v as int, pos + width))
        } else {
            None
        },
{
}

/// The digits of two octets.
pub proof fn lemma_two_octets(d: Seq<u8>, k: nat)
    requires
        k + 2 <= d.len(),
    ensures
        octets_to_bits(d).subrange(8 * k as int, 8 * k as int + 16) == nat_to_bits(
            (d[k as int] * 256 + d[k as int + 1]) as nat,
            16,
        ),
{
    let v = (d[k as int] * 256 + d[k as int + 1]) as nat;
    lemma_octets_subrange(d, k as int, k as int + 2);
    lemma_octet_digits(v);
    assert(d.subrange(k as int, k as int + 2) =~= seq![(v / 256) as u8, (v % 256) as u8]);
}

/// The parts of two octets: two bits, eight, two and four.
proof fn lemma_head_digits(a: nat, b: nat, c: nat, r: nat)
    requires
        a < 4,
        b < 256,
        c < 4,
        r < 16,
    ensures
        nat_to_bits(a * 16384 + b * 64 + c * 16 + r, 16) == nat_to_bits(a, 2) + nat_to_bits(b, 8) + nat_to_bits(c, 2)
            + nat_to_bits(r, 4),
{
    lemma2_to64();
    digits_join(a, b, 2, 8);
    digits_join(a * 256 + b, c, 10, 2);
    digits_join((a * 256 + b) * 4 + c, r, 12, 4);
}

proof fn lemma_small_values(v: nat)
    ensures
        v < 4 ==> bits_to_nat(nat_to_bits(v, 2)) == v,
        v < 256 ==> bits_to_nat(nat_to_bits(v, 8)) == v,
        v < 65_536 ==> bits_to_nat(nat_to_bits(v, 16)) == v,
{
    lemma2_to64();
    crate::per_forms::width_is_least(3, 2);
    field_widths();
    if v < 4 {
        lemma_bits_value(v, 3, 2);
    }
    if v < 256 {
        lemma_bits_value(v, 255, 8);
    }
    if v < 65_536 {
        lemma_bits_value(v, 65_535, 16);
    }
}

/// A PDU is read if and only if its choice and its criticality are at most 2
/// and its value is complete: the choice stands in the first two bits, the
/// procedure code in the next eight, the criticality in the next two, and the
/// value with its length behind the second octet. What follows is ignored.
pub proof fn pdu_is_read(d: Seq<u8>)
    ensures
        ({
            let value = get_octet_string(d, 16);
            &&& get_pdu(d) is Some <==> d.len() >= 2 && d[0] / 64 <= 2 && d[1] / 16 % 4 <= 2 && value is Some
            &&& get_pdu(d) is Some ==> get_pdu(d)->0 == Pdu {
                choice: (d[0] / 64) as u64,
                procedure_code: (d[0] % 64 * 4 + d[1] / 64) as u32,
                criticality: (d[1] / 16 % 4) as u8,
                value: (value->0).0,
            }
        }),
{
    field_widths();
    if d.len() >= 2 {
        let a = (d[0] / 64) as nat;
        let b = (d[0] % 64 * 4 + d[1] / 64) as nat;
        let c = (d[1] / 16 % 4) as nat;
        let r = (d[1] % 16) as nat;
        assert(a * 16384 + b * 64 + c * 16 + r == d[0] * 256 + d[1]);
        let all = octets_to_bits(d);
        lemma_two_octets(d, 0);
        lemma_head_digits(a, b, c, r);
        lemma_bits_len(a, 2);
        lemma_bits_len(b, 8);
        lemma_bits_len(c, 2);
        lemma_bits_len(r, 4);
        let head = all.subrange(0, 16);
        assert(all.subrange(0, 2) =~= head.subrange(0, 2));
        assert(head.subrange(0, 2) =~= nat_to_bits(a, 2));
        assert(all.subrange(2, 10) =~= head.subrange(2, 10));
        assert(head.subrange(2, 10) =~= nat_to_bits(b, 8));
        assert(all.subrange(10, 12) =~= head.subrange(10, 12));
        assert(head.subrange(10, 12) =~= nat_to_bits(c, 2));
        lemma_small_values(a);
        lemma_small_values(b);
        lemma_small_values(c);
        lemma_digits_are_read(d, 0, a, 2, 2);
        lemma_digits_are_read(d, 2, b, 255, 8);
        lemma_digits_are_read(d, 10, c, 2, 2);
        assert(get_length(d, 12) == get_length(d, 16));
    }
}

/// An IE at an octet is read if and only if its criticality is at most 2 and
/// its value is complete: the identifier is two octets, the criticality the two
/// highest bits of the third, and the value follows with its length.
pub proof fn ie_is_read(d: Seq<u8>, k: nat)
    ensures
        ({
            let value = get_octet_string(d, 8 * k + 24);
            &&& get_ie(d, 8 * k) is Some <==> d.len() >= k + 3 && d[k as int + 2] / 64 <= 2 && value is Some
            &&& get_ie(d, 8 * k) is Some ==> get_ie(d, 8 * k)->0 == (
                Ie {
                    id: (d[k as int] * 256 + d[k as int + 1]) as u32,
                    criticality: (d[k as int + 2] / 64) as u8,
                    value: (value->0).0,
                },
                (value->0).1,
            )
        }),
{
    field_widths();
    let all = octets_to_bits(d);
    if d.len() >= k + 2 {
        let v = (d[k as int] * 256 + d[k as int + 1]) as nat;
        lemma_two_octets(d, k);
        lemma_small_values(v);
        lemma_digits_are_read(d, 8 * k, v, 65_535, 16);
    }
    if d.len() >= k + 3 {
        let x = d[k as int + 2] as nat;
        let c = x / 64;
        lemma_octets_subrange(d, k as int + 2, k as int + 3);
        assert(d.subrange(k as int + 2, k as int + 3) =~= seq![x as u8]);
        lemma_octet_digits(x);
        lemma2_to64();
        digits_join(c, x % 64, 2, 6);
        assert(c * 64 + x % 64 == x);
        lemma_bits_len(c, 2);
        let third = all.subrange(8 * (k as int + 2), 8 * (k as int + 3));
        assert(all.subrange(8 * k as int + 16, 8 * k as int + 18) =~= third.subrange(0, 2));
        assert(third.subrange(0, 2) =~= nat_to_bits(c, 2));
        lemma_small_values(c);
        lemma_digits_are_read(d, 8 * k + 16, c, 2, 2);
        assert(get_length(d, 8 * k + 18) == get_length(d, 8 * k + 24));
    }
}

/// An integer at an octet: of eight bits the octet, of six or four bits its
/// highest ones.
pub proof fn integers_at_an_octet_are_read(d: Seq<u8>, k: nat)
    ensures
        get_int(d, 8 * k, 0, 255) == if k < d.len() {
            Some((d[k as int] as int, 8 * k + 8))
        } else {
            None
        },
        get_int(d, 8 * k, 0, 15) == if k < d.len() {
            Some(((d[k as int] / 16) as int, 8 * k + 4))
        } else {
            None
        },
        get_int(d, 8 * k, 0, 63) == if k < d.len() {
            Some(((d[k as int] / 4) as int, 8 * k + 6))
        } else {
            None
        },
{
    field_widths();
    if k < d.len() {
        let x = d[k as int] as nat;
        let all = octets_to_bits(d);
        lemma_octets_subrange(d, k as int, k as int + 1);
        assert(d.subrange(k as int, k as int + 1) =~= seq![x as u8]);
        lemma_octet_digits(x);
        lemma2_to64();
        digits_join(x / 16, x % 16, 4, 4);
        digits_join(x / 4, x % 4, 6, 2);
        assert(x / 16 * 16 + x % 16 == x && x / 4 * 4 + x % 4 == x);
        lemma_bits_len(x, 8);
        lemma_bits_len(x / 16, 4);
        lemma_bits_len(x / 4, 6);
        let here = all.subrange(8 * k as int, 8 * (k as int + 1));
        assert(all.subrange(8 * k as int, 8 * k as int + 4) =~= here.subrange(0, 4));
        assert(here.subrange(0, 4) =~= nat_to_bits(x / 16, 4));
        assert(all.subrange(8 * k as int, 8 * k as int + 6) =~= here.subrange(0, 6));
        assert(here.subrange(0, 6) =~= nat_to_bits(x / 4, 6));
        lemma_bits_value(x, 255, 8);
        lemma_bits_value(x / 16, 15, 4);
        lemma_bits_value(x / 4, 63, 6);
        lemma_digits_are_read(d, 8 * k, x, 255, 8);
        lemma_digits_are_read(d, 8 * k, x / 16, 15, 4);
        lemma_digits_are_read(d, 8 * k, x / 4, 63, 6);
    }
}

/// Items are read one after the other, each where the one before it ends, and
/// all of them or none.
pub proof fn items_are_read_in_order<T>(d: Seq<u8>, pos: nat, n: nat, get: spec_fn(Seq<u8>, nat) -> Option<(T, nat)>)
    requires
        n > 0,
    ensures
        get_items(d, pos, n, get) == match get(d, pos) {
            None => None,
            Some((first, p)) => match get_items(d, p, (n - 1) as nat, get) {
                None => None,
                Some((rest, end)) => Some((seq![first] + rest, end)),
            },
        },
        get_items(d, pos, 0, get) == Some((Seq::<T>::empty(), pos)),
    decreases n,
{
    let m = (n - 1) as nat;
    if m == 0 {
        assert(get_items(d, pos, m, get) == Some((Seq::<T>::empty(), pos)));
        if get(d, pos) is Some {
            let (first, p) = get(d, pos)->0;
            assert(Seq::<T>::empty().push(first) =~= seq![first] + Seq::<T>::empty());
        }
    } else {
        items_are_read_in_order(d, pos, m, get);
        if get(d, pos) is Some {
            let (first, p) = get(d, pos)->0;
            let before = get_items(d, p, (m - 1) as nat, get);
            if before is Some {
                let (rest, q) = before->0;
                if get(d, q) is Some {
                    assert((seq![first] + rest).push((get(d, q)->0).0) =~= seq![first] + rest.push((get(d, q)->0).0));
                }
            }
        }
    }
}

/// A list is a length and that many items; a container is a list of IEs.
pub proof fn lists_are_read<T>(d: Seq<u8>, pos: nat, get: spec_fn(Seq<u8>, nat) -> Option<(T, nat)>)
    ensures
        get_length(d, pos) is None ==> get_list(d, pos, get) is None,
        get_length(d, pos) is Some ==> get_list(d, pos, get) == get_items(
            d,
            (get_length(d, pos)->0).1,
            (get_length(d, pos)->0).0,
            get,
        ),
        get_container(d, pos) == get_list(d, pos, |x: Seq<u8>, p: nat| get_ie(x, p)),
{
    assert(ie_get() =~= |x: Seq<u8>, p: nat| get_ie(x, p));
}

} // verus!
