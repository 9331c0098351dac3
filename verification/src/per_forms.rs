//! Laws of the packed encoding, bit by bit and octet by octet: what an integer,
//! a length, an octet string and a list look like on the wire.

use vstd::arithmetic::power2::{lemma2_to64, lemma_pow2_pos, lemma_pow2_unfold, pow2};
use vstd::prelude::*;

use crate::per::{
    aligned, bit_width, bits_to_nat, bits_to_octets, get_int, get_length, get_octet_string, get_octets,
    lemma_bits_len, lemma_octets_concat, lemma_octets_injective, lemma_pack, nat_to_bits, octets_to_bits, pad,
    put_int, put_items, put_length, put_list, put_octet_string,
};

verus! {

// ── Bits ──────────────────────────────────────────────────────────────────────

/// Binary digits are written most significant first.
pub proof fn digits_are_positional(v: nat, width: nat, i: int)
    requires
        0 <= i < width,
    ensures
        nat_to_bits(v, width).len() == width,
        nat_to_bits(v, width)[i] == (v / pow2((width - 1 - i) as nat) % 2 == 1),
    decreases width,
{
    lemma_bits_len(v, width);
    lemma_bits_len(v / 2, (width - 1) as nat);
    if i == width - 1 {
        lemma2_to64();
        let one = pow2(0);
        assert(v / one == v) by (nonlinear_arith)
            requires
                one == 1,
        ;
    } else {
        digits_are_positional(v / 2, (width - 1) as nat, i);
        let k = (width - 1 - i) as nat;
        lemma_pow2_unfold(k);
        lemma_pow2_pos((k - 1) as nat);
        vstd::arithmetic::div_mod::lemma_div_denominator(v as int, 2, pow2((k - 1) as nat) as int);
        assert(v / pow2(k) == v / 2 / pow2((k - 1) as nat));
        assert(nat_to_bits(v, width)[i] == nat_to_bits(v / 2, (width - 1) as nat)[i]);
    }
}

/// The digits of a number are those of its high part, then those of its low
/// part.
pub proof fn digits_join(a: nat, b: nat, j: nat, k: nat)
    requires
        b < pow2(k),
    ensures
        nat_to_bits(a * pow2(k) + b, j + k) == nat_to_bits(a, j) + nat_to_bits(b, k),
    decreases k,
{
    if k == 0 {
        lemma2_to64();
        let one = pow2(0);
        assert(a * one == a) by (nonlinear_arith)
            requires
                one == 1,
        ;
        assert(nat_to_bits(a, j) + nat_to_bits(b, k) =~= nat_to_bits(a, j));
    } else {
        let m = (k - 1) as nat;
        let v = a * pow2(k) + b;
        lemma_pow2_unfold(k);
        assert(a * pow2(k) == 2 * (a * pow2(m))) by (nonlinear_arith)
            requires
                pow2(k) == 2 * pow2(m),
        ;
        assert(v / 2 == a * pow2(m) + b / 2);
        digits_join(a, b / 2, j, m);
        assert(j + k - 1 == j + m);
        assert(nat_to_bits(v, j + k) =~= nat_to_bits(v / 2, j + m).push(v % 2 == 1));
        assert(nat_to_bits(a, j) + nat_to_bits(b, k) =~= (nat_to_bits(a, j) + nat_to_bits(b / 2, m)).push(b % 2 == 1));
    }
}

/// A field is as wide as its largest value needs, and no wider.
pub proof fn width_is_least(range: nat, width: nat)
    requires
        range < pow2(width),
        width > 0 ==> range >= pow2((width - 1) as nat),
    ensures
        bit_width(range) == width,
    decreases width,
{
    lemma2_to64();
    if width > 0 {
        let m = (width - 1) as nat;
        lemma_pow2_unfold(width);
        lemma_pow2_pos(m);
        if m > 0 {
            lemma_pow2_unfold(m);
        } else {
            assert(range == 1);
        }
        width_is_least(range / 2, m);
    }
}

/// The first octet boundary is less than an octet away, and what fills the gap
/// is zero.
pub proof fn padding_is_zero(w: Seq<bool>, i: int)
    requires
        w.len() <= i < pad(w).len(),
    ensures
        pad(w).len() % 8 == 0,
        pad(w).len() < w.len() + 8,
        pad(w).subrange(0, w.len() as int) == w,
        !pad(w)[i],
{
    assert(pad(w).subrange(0, w.len() as int) =~= w);
}

/// Where reading goes on at an octet: at the boundary that comes next.
pub proof fn alignment_is_next(pos: nat)
    ensures
        aligned(pos) % 8 == 0,
        pos <= aligned(pos) < pos + 8,
{
}

/// An octet is its eight binary digits, and octets follow one another.
pub proof fn octets_are_bits(d: Seq<u8>, k: int)
    requires
        0 <= k < 8 * d.len(),
    ensures
        octets_to_bits(d).len() == 8 * d.len(),
        octets_to_bits(d)[k] == (d[k / 8] as nat / pow2((7 - k % 8) as nat) % 2 == 1),
{
    digits_are_positional(d[k / 8] as nat, 8, k % 8);
}

/// Bits are packed into the octets that have them for digits, the rest zero.
pub proof fn packed_octets(w: Seq<bool>, d: Seq<u8>)
    requires
        pad(w) == octets_to_bits(d),
    ensures
        bits_to_octets(w) == d,
{
    lemma_pack(w);
    lemma_octets_injective(bits_to_octets(w), d);
}

proof fn lemma_aligned(w: Seq<bool>)
    requires
        w.len() % 8 == 0,
    ensures
        pad(w) == w,
{
    assert(pad(w) =~= w);
}

proof fn lemma_one_octet(v: nat)
    requires
        v < 0x100,
    ensures
        octets_to_bits(seq![v as u8]) == nat_to_bits(v, 8),
{
    lemma_bits_len(v, 8);
    assert(octets_to_bits(seq![v as u8]) =~= nat_to_bits(v, 8));
}

proof fn lemma_octet_digits_2(v: nat)
    requires
        v < 0x1_0000,
    ensures
        octets_to_bits(seq![(v / 256) as u8, (v % 256) as u8]) == nat_to_bits(v, 16),
{
    lemma2_to64();
    lemma_one_octet(v / 256);
    lemma_one_octet(v % 256);
    lemma_octets_concat(seq![(v / 256) as u8], seq![(v % 256) as u8]);
    assert(seq![(v / 256) as u8] + seq![(v % 256) as u8] =~= seq![(v / 256) as u8, (v % 256) as u8]);
    digits_join(v / 256, v % 256, 8, 8);
    assert(v / 256 * 256 + v % 256 == v);
}

proof fn lemma_octet_digits_3(v: nat)
    requires
        v < 0x100_0000,
    ensures
        octets_to_bits(seq![(v / 0x1_0000) as u8, (v / 256 % 256) as u8, (v % 256) as u8]) == nat_to_bits(v, 24),
{
    let h = v / 256;
    let l = v % 256;
    lemma_octet_digits_2(h);
    lemma_one_octet(l);
    let hi = seq![(h / 256) as u8, (h % 256) as u8];
    lemma_octets_concat(hi, seq![l as u8]);
    assert(h / 256 == v / 0x1_0000);
    assert(hi + seq![l as u8] =~= seq![(v / 0x1_0000) as u8, (v / 256 % 256) as u8, (v % 256) as u8]);
    let p = pow2(8);
    assert(p == 256) by {
        lemma2_to64();
    }
    digits_join(h, l, 16, 8);
    assert(h * p == h * 256) by (nonlinear_arith)
        requires
            p == 256,
    ;
}

proof fn lemma_octet_digits_4(v: nat)
    requires
        v < 0x1_0000_0000,
    ensures
        octets_to_bits(
            seq![(v / 0x100_0000) as u8, (v / 0x1_0000 % 256) as u8, (v / 256 % 256) as u8, (v % 256) as u8],
        ) == nat_to_bits(v, 32),
{
    let h = v / 0x1_0000;
    let l = v % 0x1_0000;
    lemma_octet_digits_2(h);
    lemma_octet_digits_2(l);
    let hi = seq![(h / 256) as u8, (h % 256) as u8];
    let lo = seq![(l / 256) as u8, (l % 256) as u8];
    lemma_octets_concat(hi, lo);
    assert(h / 256 == v / 0x100_0000 && l / 256 == v / 256 % 256 && l % 256 == v % 256);
    assert(hi + lo =~= seq![
        (v / 0x100_0000) as u8,
        (v / 0x1_0000 % 256) as u8,
        (v / 256 % 256) as u8,
        (v % 256) as u8,
    ]);
    let p = pow2(16);
    assert(p == 65536) by {
        lemma2_to64();
    }
    digits_join(h, l, 16, 16);
    assert(h * p == h * 65536) by (nonlinear_arith)
        requires
            p == 65536,
    ;
}

/// One, two, three and four octets, as digits.
pub proof fn lemma_octet_digits(v: nat)
    ensures
        v < 0x100 ==> octets_to_bits(seq![v as u8]) == nat_to_bits(v, 8),
        v < 0x1_0000 ==> octets_to_bits(seq![(v / 256) as u8, (v % 256) as u8]) == nat_to_bits(v, 16),
        v < 0x100_0000 ==> octets_to_bits(seq![(v / 0x1_0000) as u8, (v / 256 % 256) as u8, (v % 256) as u8])
            == nat_to_bits(v, 24),
        v < 0x1_0000_0000 ==> octets_to_bits(
            seq![(v / 0x100_0000) as u8, (v / 0x1_0000 % 256) as u8, (v / 256 % 256) as u8, (v % 256) as u8],
        ) == nat_to_bits(v, 32),
{
    if v < 0x100 {
        lemma_one_octet(v);
    }
    if v < 0x1_0000 {
        lemma_octet_digits_2(v);
    }
    if v < 0x100_0000 {
        lemma_octet_digits_3(v);
    }
    if v < 0x1_0000_0000 {
        lemma_octet_digits_4(v);
    }
}

// ── What is written ───────────────────────────────────────────────────────────

/// An integer of `lo..=hi` is its distance from `lo` in binary, in as many
/// digits as `hi - lo` has, behind what was written before.
pub proof fn integers_are_binary(w: Seq<bool>, v: int, lo: int, hi: int, width: nat, i: int)
    requires
        lo <= v <= hi,
        hi - lo < pow2(width),
        width > 0 ==> hi - lo >= pow2((width - 1) as nat),
        0 <= i < width,
    ensures
        put_int(w, v, lo, hi).len() == w.len() + width,
        put_int(w, v, lo, hi).subrange(0, w.len() as int) == w,
        put_int(w, v, lo, hi)[w.len() + i] == ((v - lo) / pow2((width - 1 - i) as nat) as int % 2 == 1),
{
    width_is_least((hi - lo) as nat, width);
    digits_are_positional((v - lo) as nat, width, i);
    assert(put_int(w, v, lo, hi).subrange(0, w.len() as int) =~= w);
}

/// The octets of a length: one below 128, two with the first bit set above.
pub open spec fn length_prefix(n: nat) -> Seq<u8> {
    if n < 128 {
        seq![n as u8]
    } else {
        seq![(128 + n / 256) as u8, (n % 256) as u8]
    }
}

/// A length starts at an octet and is one or two octets.
pub proof fn length_form(w: Seq<bool>, n: nat)
    requires
        n <= 16383,
    ensures
        put_length(w, n) == pad(w) + octets_to_bits(length_prefix(n)),
{
    if n < 128 {
        lemma_octet_digits(n);
    } else {
        lemma_octet_digits(0x8000 + n);
    }
}

/// An octet string is its length, then its octets.
pub proof fn octet_string_form(w: Seq<bool>, s: Seq<u8>)
    requires
        s.len() <= 16383,
    ensures
        put_octet_string(w, s) == pad(w) + octets_to_bits(length_prefix(s.len()) + s),
        bits_to_octets(put_octet_string(Seq::empty(), s)) == length_prefix(s.len()) + s,
{
    length_form(w, s.len());
    length_form(Seq::empty(), s.len());
    lemma_octets_concat(length_prefix(s.len()), s);
    assert(put_octet_string(w, s) =~= pad(w) + octets_to_bits(length_prefix(s.len()) + s));
    let e = Seq::<bool>::empty();
    lemma_aligned(e);
    let x = put_octet_string(e, s);
    assert(x =~= octets_to_bits(length_prefix(s.len()) + s));
    lemma_aligned(x);
    packed_octets(x, length_prefix(s.len()) + s);
}

/// The octets of items one after the other.
pub open spec fn items_octets<T>(items: Seq<T>, form: spec_fn(T) -> Seq<u8>) -> Seq<u8>
    decreases items.len(),
{
    if items.len() == 0 {
        Seq::empty()
    } else {
        items_octets(items.drop_last(), form) + form(items.last())
    }
}

/// Items that are whole octets follow one another as octets.
pub proof fn items_form<T>(
    d: Seq<u8>,
    items: Seq<T>,
    put: spec_fn(Seq<bool>, T) -> Seq<bool>,
    form: spec_fn(T) -> Seq<u8>,
)
    requires
        forall|e: Seq<u8>, i: int|
            0 <= i < items.len() ==> #[trigger] put(octets_to_bits(e), items[i]) == octets_to_bits(e + form(items[i])),
    ensures
        put_items(octets_to_bits(d), items, put) == octets_to_bits(d + items_octets(items, form)),
    decreases items.len(),
{
    if items.len() == 0 {
        assert(d + items_octets(items, form) =~= d);
    } else {
        let head = items.drop_last();
        assert forall|e: Seq<u8>, i: int| 0 <= i < head.len() implies #[trigger] put(octets_to_bits(e), head[i])
            == octets_to_bits(e + form(head[i])) by {
            assert(head[i] == items[i]);
        }
        items_form(d, head, put, form);
        let e = d + items_octets(head, form);
        assert(put(octets_to_bits(e), items[items.len() - 1]) == octets_to_bits(e + form(items.last())));
        assert(e + form(items.last()) =~= d + items_octets(items, form));
    }
}

/// A list of items that are whole octets is the number of items, then the
/// items.
pub proof fn list_form<T>(items: Seq<T>, put: spec_fn(Seq<bool>, T) -> Seq<bool>, form: spec_fn(T) -> Seq<u8>)
    requires
        items.len() <= 16383,
        forall|e: Seq<u8>, i: int|
            0 <= i < items.len() ==> #[trigger] put(octets_to_bits(e), items[i]) == octets_to_bits(e + form(items[i])),
    ensures
        bits_to_octets(put_list(Seq::empty(), items, put)) == length_prefix(items.len()) + items_octets(items, form),
{
    let e = Seq::<bool>::empty();
    length_form(e, items.len());
    lemma_aligned(e);
    let p = length_prefix(items.len());
    assert(put_length(e, items.len()) =~= octets_to_bits(p));
    items_form(p, items, put, form);
    let x = put_list(e, items, put);
    lemma_aligned(x);
    packed_octets(x, p + items_octets(items, form));
}

// ── What is read ──────────────────────────────────────────────────────────────

/// An integer is read if and only if its digits are there and it is not above
/// `hi`; it is `lo` and the number that the digits denote.
pub proof fn integers_are_read(d: Seq<u8>, pos: nat, lo: int, hi: int, width: nat)
    requires
        lo <= hi,
        hi - lo < pow2(width),
        width > 0 ==> hi - lo >= pow2((width - 1) as nat),
    ensures
        ({
            let v = bits_to_nat(octets_to_bits(d).subrange(pos as int, (pos + width) as int));
            &&& get_int(d, pos, lo, hi) is Some <==> pos + width <= 8 * d.len() && v <= hi - lo
            &&& get_int(d, pos, lo, hi) is Some ==> get_int(d, pos, lo, hi) == Some((lo + v, pos + width))
        }),
{
    width_is_least((hi - lo) as nat, width);
}

/// The number that digits denote: twice that of all but the last, and the last.
pub proof fn digits_denote(s: Seq<bool>, b: bool)
    ensures
        bits_to_nat(Seq::<bool>::empty()) == 0,
        bits_to_nat(s.push(b)) == 2 * bits_to_nat(s) + (if b {
            1int
        } else {
            0int
        }),
{
    assert(s.push(b).drop_last() =~= s);
}

/// A length, octets and an octet string are read from the next octet boundary
/// on, if and only if all of their octets are there; a first octet of 192 or
/// more is no length.
pub proof fn octets_are_read(d: Seq<u8>, k: nat, pos: nat, n: nat)
    requires
        8 * k < pos + 8,
        pos <= 8 * k,
    ensures
        get_octets(d, pos, n) is Some <==> k + n <= d.len(),
        k + n <= d.len() ==> get_octets(d, pos, n) == Some((d.subrange(k as int, (k + n) as int), 8 * (k + n))),
        get_length(d, pos) is Some <==> (k < d.len() && d[k as int] < 128) || (k + 1 < d.len() && d[k as int] < 192),
        k < d.len() && d[k as int] < 128 ==> get_length(d, pos) == Some((d[k as int] as nat, 8 * (k + 1))),
        k + 1 < d.len() && 128 <= d[k as int] < 192 ==> get_length(d, pos) == Some(
            ((256 * (d[k as int] - 128) + d[k as int + 1]) as nat, 8 * (k + 2)),
        ),
        get_octet_string(d, pos) is Some <==> get_length(d, pos) is Some && (get_length(d, pos)->0).1 / 8 + (get_length(
            d,
            pos,
        )->0).0 <= d.len(),
        get_octet_string(d, pos) is Some ==> {
            let (m, p) = get_length(d, pos)->0;
            get_octet_string(d, pos) == Some((d.subrange(p as int / 8, p as int / 8 + m), p + 8 * m))
        },
{
    assert(aligned(pos) == 8 * k);
}

} // verus!
