//! ALIGNED PER bit packing.
//!
//! The engine under the NGAP and S1AP codecs: constrained integers as
//! minimal-width bit fields, octet-aligned length determinants, octet
//! strings.
//!
//! The model of an encoding in progress is the sequence of bits written so
//! far. Each `put_*` function says which bits a write appends; each `get_*`
//! function says what a read finds at a bit position, and where it leaves
//! the position. The `*_round_trip` laws say that a read undoes the write of
//! the same kind.
//!
//! Two conventions differ between writing and reading and are part of the
//! interface:
//!
//! - a constrained integer is never aligned, whatever its range;
//! - `write_octets` starts at the current bit, `read_octets` first skips to
//!   the next octet boundary. A caller that writes octets after a field that
//!   does not end on an octet calls `align` in between.
//!
//! A length determinant takes one octet below 128 and two octets below
//! 16384. The fragmented form for longer contents is not supported.

use vstd::prelude::*;

use crate::octets::to_vec;

verus! {

/// The largest length that a length determinant can carry.
pub const MAX_LENGTH: usize = 16_383;

// ── Bits and numbers ──────────────────────────────────────────────────────────

/// The number of binary digits of `range`: the width of a field that holds
/// every value of `0..=range`.
pub open spec fn bit_width(range: nat) -> nat
    decreases range,
{
    if range == 0 {
        0
    } else {
        bit_width(range / 2) + 1
    }
}

/// The `width` low-order binary digits of `v`, most significant first.
pub open spec fn nat_to_bits(v: nat, width: nat) -> Seq<bool>
    decreases width,
{
    if width == 0 {
        Seq::empty()
    } else {
        nat_to_bits(v / 2, (width - 1) as nat).push(v % 2 == 1)
    }
}

/// The number whose binary digits, most significant first, are `s`.
pub open spec fn bits_to_nat(s: Seq<bool>) -> nat
    decreases s.len(),
{
    if s.len() == 0 {
        0
    } else {
        2 * bits_to_nat(s.drop_last()) + (if s.last() { 1nat } else { 0nat })
    }
}

/// The bits of an octet string in transmission order.
pub open spec fn octets_to_bits(d: Seq<u8>) -> Seq<bool> {
    Seq::new(8 * d.len(), |k: int| nat_to_bits(d[k / 8] as nat, 8)[k % 8])
}

/// `w` filled up with zero bits to a whole number of octets.
pub open spec fn pad(w: Seq<bool>) -> Seq<bool> {
    w + Seq::new(((8 - w.len() % 8) % 8) as nat, |k: int| false)
}

/// The octets that carry the bits `w`, the last one filled up with zero bits.
pub open spec fn bits_to_octets(w: Seq<bool>) -> Seq<u8> {
    Seq::new(
        pad(w).len() / 8,
        |i: int| bits_to_nat(pad(w).subrange(8 * i, 8 * i + 8)) as u8,
    )
}

/// The first octet boundary at or after bit position `pos`.
pub open spec fn aligned(pos: nat) -> nat {
    ((pos + 7) / 8 * 8) as nat
}

// ── What a write appends ──────────────────────────────────────────────────────

pub open spec fn put_int(w: Seq<bool>, v: int, lo: int, hi: int) -> Seq<bool> {
    w + nat_to_bits((v - lo) as nat, bit_width((hi - lo) as nat))
}

pub open spec fn put_length(w: Seq<bool>, n: nat) -> Seq<bool> {
    if n < 128 {
        pad(w) + nat_to_bits(n, 8)
    } else {
        pad(w) + nat_to_bits(0x8000 + n, 16)
    }
}

pub open spec fn put_octets(w: Seq<bool>, d: Seq<u8>) -> Seq<bool> {
    w + octets_to_bits(d)
}

pub open spec fn put_octet_string(w: Seq<bool>, d: Seq<u8>) -> Seq<bool> {
    put_octets(put_length(w, d.len()), d)
}

// ── What a read finds ─────────────────────────────────────────────────────────

pub open spec fn get_int(d: Seq<u8>, pos: nat, lo: int, hi: int) -> Option<(int, nat)> {
    let end = pos + bit_width((hi - lo) as nat);
    if end > 8 * d.len() {
        None
    } else {
        let v = bits_to_nat(octets_to_bits(d).subrange(pos as int, end as int));
        if v > hi - lo {
            None
        } else {
            Some((lo + v, end))
        }
    }
}

pub open spec fn get_octets(d: Seq<u8>, pos: nat, n: nat) -> Option<(Seq<u8>, nat)> {
    let start = aligned(pos) / 8;
    if start + n > d.len() {
        None
    } else {
        Some((d.subrange(start as int, (start + n) as int), 8 * (start + n)))
    }
}

pub open spec fn get_length(d: Seq<u8>, pos: nat) -> Option<(nat, nat)> {
    let start = aligned(pos) / 8;
    if start + 1 > d.len() {
        None
    } else if d[start as int] < 128 {
        Some((d[start as int] as nat, 8 * (start + 1)))
    } else if d[start as int] >= 192 || start + 2 > d.len() {
        None
    } else {
        Some((((d[start as int] - 128) * 256 + d[start as int + 1]) as nat, 8 * (start + 2)))
    }
}

pub open spec fn get_octet_string(d: Seq<u8>, pos: nat) -> Option<(Seq<u8>, nat)> {
    match get_length(d, pos) {
        None => None,
        Some((n, p)) => get_octets(d, p, n),
    }
}

/// What a read found, without the position it left.
pub open spec fn value_of<T>(r: Option<(T, nat)>) -> Option<T> {
    match r {
        None => None,
        Some((x, _)) => Some(x),
    }
}

/// The bits `w` stand at the start of the octets `d`.
pub open spec fn carries(d: Seq<u8>, w: Seq<bool>) -> bool {
    &&& w.len() <= 8 * d.len()
    &&& octets_to_bits(d).subrange(0, w.len() as int) == w
}

// ── Lists ─────────────────────────────────────────────────────────────────────

/// Items one after the other, each as `put` writes it.
pub open spec fn put_items<T>(w: Seq<bool>, items: Seq<T>, put: spec_fn(Seq<bool>, T) -> Seq<bool>) -> Seq<bool>
    decreases items.len(),
{
    if items.len() == 0 {
        w
    } else {
        put(put_items(w, items.drop_last(), put), items.last())
    }
}

/// The number of items, then the items.
pub open spec fn put_list<T>(w: Seq<bool>, items: Seq<T>, put: spec_fn(Seq<bool>, T) -> Seq<bool>) -> Seq<bool> {
    put_items(put_length(w, items.len()), items, put)
}

/// `n` items one after the other, each as `get` reads it.
pub open spec fn get_items<T>(
    d: Seq<u8>,
    pos: nat,
    n: nat,
    get: spec_fn(Seq<u8>, nat) -> Option<(T, nat)>,
) -> Option<(Seq<T>, nat)>
    decreases n,
{
    if n == 0 {
        Some((Seq::empty(), pos))
    } else {
        match get_items(d, pos, (n - 1) as nat, get) {
            None => None,
            Some((items, p)) => match get(d, p) {
                None => None,
                Some((item, p2)) => Some((items.push(item), p2)),
            },
        }
    }
}

/// A number of items, then that many items.
pub open spec fn get_list<T>(d: Seq<u8>, pos: nat, get: spec_fn(Seq<u8>, nat) -> Option<(T, nat)>) -> Option<
    (Seq<T>, nat),
> {
    match get_length(d, pos) {
        None => None,
        Some((n, p)) => get_items(d, p, n, get),
    }
}

/// Items that cannot be read stay unreadable when more are asked for.
pub proof fn lemma_items_none<T>(
    d: Seq<u8>,
    pos: nat,
    n: nat,
    m: nat,
    get: spec_fn(Seq<u8>, nat) -> Option<(T, nat)>,
)
    requires
        n <= m,
        get_items(d, pos, n, get) is None,
    ensures
        get_items(d, pos, m, get) is None,
    decreases m,
{
    if n < m {
        lemma_items_none(d, pos, n, (m - 1) as nat, get);
    }
}

/// `get` undoes what `put` writes for the items that `ok` admits.
pub open spec fn item_round_trips<T>(
    put: spec_fn(Seq<bool>, T) -> Seq<bool>,
    get: spec_fn(Seq<u8>, nat) -> Option<(T, nat)>,
    ok: spec_fn(T) -> bool,
) -> bool {
    forall|d: Seq<u8>, w: Seq<bool>, t: T| #[trigger]
        carries(d, put(w, t)) && ok(t) ==> carries(d, w) && get(d, w.len()) == Some((t, put(w, t).len()))
}

proof fn lemma_items_round_trip<T>(
    d: Seq<u8>,
    w: Seq<bool>,
    items: Seq<T>,
    put: spec_fn(Seq<bool>, T) -> Seq<bool>,
    get: spec_fn(Seq<u8>, nat) -> Option<(T, nat)>,
    ok: spec_fn(T) -> bool,
)
    requires
        item_round_trips(put, get, ok),
        forall|i: int| 0 <= i < items.len() ==> ok(#[trigger] items[i]),
        carries(d, put_items(w, items, put)),
    ensures
        get_items(d, w.len(), items.len(), get) == Some((items, put_items(w, items, put).len())),
        carries(d, w),
    decreases items.len(),
{
    if items.len() == 0 {
        assert(items =~= Seq::<T>::empty());
    } else {
        let rest = items.drop_last();
        assert(ok(items[items.len() - 1]));
        assert(carries(d, put(put_items(w, rest, put), items.last())));
        assert forall|i: int| 0 <= i < rest.len() implies ok(#[trigger] rest[i]) by {
            assert(rest[i] == items[i]);
        }
        lemma_items_round_trip(d, w, rest, put, get, ok);
        assert(rest.push(items.last()) =~= items);
    }
}

/// Reading a list gives back the items that were written, when reading one
/// item does.
pub proof fn list_round_trip<T>(
    d: Seq<u8>,
    w: Seq<bool>,
    items: Seq<T>,
    put: spec_fn(Seq<bool>, T) -> Seq<bool>,
    get: spec_fn(Seq<u8>, nat) -> Option<(T, nat)>,
    ok: spec_fn(T) -> bool,
)
    requires
        item_round_trips(put, get, ok),
        items.len() <= MAX_LENGTH,
        forall|i: int| 0 <= i < items.len() ==> ok(#[trigger] items[i]),
        carries(d, put_list(w, items, put)),
    ensures
        get_list(d, w.len(), get) == Some((items, put_list(w, items, put).len())),
        carries(d, w),
{
    lemma_items_round_trip(d, put_length(w, items.len()), items, put, get, ok);
    length_round_trip(d, w, items.len());
}

// ── Facts about numbers and bits ──────────────────────────────────────────────

pub proof fn lemma_bits_len(v: nat, width: nat)
    ensures
        nat_to_bits(v, width).len() == width,
    decreases width,
{
    if width > 0 {
        lemma_bits_len(v / 2, (width - 1) as nat);
    }
}

/// A number is recovered from its digits when they are wide enough.
pub proof fn lemma_bits_value(v: nat, range: nat, width: nat)
    requires
        v <= range,
        width >= bit_width(range),
    ensures
        bits_to_nat(nat_to_bits(v, width)) == v,
    decreases width,
{
    lemma_bits_len(v, width);
    if width > 0 {
        let s = nat_to_bits(v, width);
        assert(s.drop_last() =~= nat_to_bits(v / 2, (width - 1) as nat));
        if range > 0 {
            lemma_bits_value(v / 2, range / 2, (width - 1) as nat);
        } else {
            lemma_bits_value(v / 2, 0, (width - 1) as nat);
        }
    }
}

/// Digits are recovered from the number that they denote.
pub proof fn lemma_value_bits(s: Seq<bool>)
    ensures
        nat_to_bits(bits_to_nat(s), s.len()) == s,
    decreases s.len(),
{
    if s.len() > 0 {
        lemma_value_bits(s.drop_last());
        let v = bits_to_nat(s);
        assert(v / 2 == bits_to_nat(s.drop_last()));
        assert(s.drop_last().push(s.last()) =~= s);
    } else {
        assert(nat_to_bits(0, 0) =~= s);
    }
}

proof fn lemma_octet_value(s: Seq<bool>)
    requires
        s.len() == 8,
    ensures
        bits_to_nat(s) < 256,
{
    reveal_with_fuel(bits_to_nat, 9);
}

proof fn lemma_width_of_octet()
    ensures
        bit_width(255) == 8,
{
    reveal_with_fuel(bit_width, 9);
}

/// Every octet is the number that its eight bits denote.
proof fn lemma_octet_bits(b: u8)
    ensures
        nat_to_bits(b as nat, 8).len() == 8,
        bits_to_nat(nat_to_bits(b as nat, 8)) == b,
{
    lemma_bits_len(b as nat, 8);
    lemma_width_of_octet();
    lemma_bits_value(b as nat, 255, 8);
}

/// Bit `j` of an octet, counted from the most significant, by shifting.
proof fn lemma_octet_bit_shift(b: u8, j: u8)
    requires
        j < 8,
    ensures
        nat_to_bits(b as nat, 8)[j as int] == ((b >> ((7 - j) as u8)) & 1 == 1),
{
    reveal_with_fuel(nat_to_bits, 9);
    assert((b >> 7) & 1 == (b / 128) % 2 && (b >> 6) & 1 == (b / 64) % 2 && (b >> 5) & 1 == (b / 32) % 2
        && (b >> 4) & 1 == (b / 16) % 2 && (b >> 3) & 1 == (b / 8) % 2 && (b >> 2) & 1 == (b / 4) % 2
        && (b >> 1) & 1 == (b / 2) % 2 && (b >> 0) & 1 == b % 2) by (bit_vector);
}

/// The number that one more digit makes.
pub proof fn lemma_push_value(s: Seq<bool>, b: bool)
    ensures
        bits_to_nat(s.push(b)) == 2 * bits_to_nat(s) + (if b { 1nat } else { 0nat }),
{
    assert(s.push(b).drop_last() =~= s);
}

/// A number whose width is at most `width` has `width - k` digits once its
/// `k` low-order ones are dropped; `width` digits bound a number.
proof fn lemma_value_bound(s: Seq<bool>, k: nat)
    requires
        s.len() <= k <= 64,
    ensures
        bits_to_nat(s) < vstd::arithmetic::power2::pow2(k),
    decreases k,
{
    vstd::arithmetic::power2::lemma_pow2_pos(k);
    if s.len() > 0 {
        lemma_value_bound(s.drop_last(), (k - 1) as nat);
        vstd::arithmetic::power2::lemma_pow2_unfold(k);
    }
}

proof fn lemma_width_bound(range: nat, k: nat)
    requires
        range < vstd::arithmetic::power2::pow2(k),
    ensures
        bit_width(range) <= k,
    decreases k,
{
    if k == 0 {
        vstd::arithmetic::power2::lemma2_to64();
    } else if range > 0 {
        vstd::arithmetic::power2::lemma_pow2_unfold(k);
        lemma_width_bound(range / 2, (k - 1) as nat);
    }
}

/// The range of a 64-bit integer needs at most 64 bits.
pub proof fn lemma_width_u64(range: u64)
    ensures
        bit_width(range as nat) <= 64,
{
    vstd::arithmetic::power2::lemma2_to64();
    lemma_width_bound(range as nat, 64);
}

// ── Facts about octets and bits ───────────────────────────────────────────────

proof fn lemma_octets_to_bits_chunk(d: Seq<u8>, i: int)
    requires
        0 <= i < d.len(),
    ensures
        octets_to_bits(d).subrange(8 * i, 8 * i + 8) == nat_to_bits(d[i] as nat, 8),
{
    lemma_octet_bits(d[i]);
    assert(octets_to_bits(d).subrange(8 * i, 8 * i + 8) =~= nat_to_bits(d[i] as nat, 8));
}

/// Two octet strings with the same bits are the same.
pub proof fn lemma_octets_injective(a: Seq<u8>, b: Seq<u8>)
    requires
        octets_to_bits(a) == octets_to_bits(b),
    ensures
        a == b,
{
    assert(octets_to_bits(a).len() == 8 * a.len());
    assert(octets_to_bits(b).len() == 8 * b.len());
    assert forall|i: int| 0 <= i < a.len() implies a[i] == b[i] by {
        lemma_octets_to_bits_chunk(a, i);
        lemma_octets_to_bits_chunk(b, i);
        lemma_octet_bits(a[i]);
        lemma_octet_bits(b[i]);
    }
    assert(a =~= b);
}

pub proof fn lemma_octets_concat(a: Seq<u8>, b: Seq<u8>)
    ensures
        octets_to_bits(a + b) == octets_to_bits(a) + octets_to_bits(b),
{
    let l = octets_to_bits(a + b);
    let r = octets_to_bits(a) + octets_to_bits(b);
    assert forall|k: int| 0 <= k < l.len() implies l[k] == r[k] by {
        if k >= 8 * a.len() {
            let k2 = k - 8 * a.len();
            assert(k2 / 8 == k / 8 - a.len());
            assert(k2 % 8 == k % 8);
        }
    }
    assert(l =~= r);
}

pub proof fn lemma_octets_subrange(d: Seq<u8>, i: int, j: int)
    requires
        0 <= i <= j <= d.len(),
    ensures
        octets_to_bits(d.subrange(i, j)) == octets_to_bits(d).subrange(8 * i, 8 * j),
{
    let s = d.subrange(i, j);
    let r = octets_to_bits(d).subrange(8 * i, 8 * j);
    assert forall|k: int| 0 <= k < 8 * (j - i) implies octets_to_bits(s)[k] == r[k] by {
        assert((8 * i + k) / 8 == i + k / 8);
        assert((8 * i + k) % 8 == k % 8);
    }
    assert(octets_to_bits(s) =~= r);
}

/// Packing bits into octets keeps them, up to the filling.
pub proof fn lemma_pack(w: Seq<bool>)
    ensures
        octets_to_bits(bits_to_octets(w)) == pad(w),
        carries(bits_to_octets(w), w),
{
    let d = bits_to_octets(w);
    assert(pad(w).len() % 8 == 0);
    assert forall|k: int| 0 <= k < 8 * d.len() implies octets_to_bits(d)[k] == pad(w)[k] by {
        let i = k / 8;
        let c = pad(w).subrange(8 * i, 8 * i + 8);
        lemma_octet_value(c);
        lemma_value_bits(c);
        assert(c[k % 8] == pad(w)[k]);
    }
    assert(octets_to_bits(d) =~= pad(w));
    assert(octets_to_bits(d).subrange(0, w.len() as int) =~= w);
}

/// How many octets carry a number of bits.
pub proof fn lemma_packed_len(w: Seq<bool>)
    ensures
        bits_to_octets(w).len() == (w.len() + 7) / 8,
{
}

/// A number below 2^64 adds up to 64 bits.
pub proof fn lemma_int_len(w: Seq<bool>, v: int, hi: u64)
    ensures
        put_int(w, v, 0, hi as int).len() <= w.len() + 64,
{
    lemma_width_u64(hi);
    lemma_bits_len(v as nat, bit_width(hi as nat));
}

/// A list of one item is that item, after one octet for the length.
pub proof fn lemma_list_of_one<T>(items: Seq<T>, put: spec_fn(Seq<bool>, T) -> Seq<bool>)
    requires
        items.len() == 1,
    ensures
        put_list(Seq::empty(), items, put) == put(put_length(Seq::empty(), 1), items[0]),
        put_length(Seq::empty(), 1).len() == 8,
{
    reveal_with_fuel(put_items, 2);
    lemma_bits_len(1, 8);
}

/// An octet string adds its length determinant and up to seven bits of
/// filling to its octets.
pub proof fn lemma_octet_string_len(w: Seq<bool>, s: Seq<u8>)
    ensures
        put_octet_string(w, s).len() <= w.len() + 23 + 8 * s.len(),
{
    lemma_bits_len(s.len(), 8);
    lemma_bits_len(0x8000 + s.len(), 16);
}

/// What stands at the start of `d` still does when less is asked for.
pub proof fn lemma_carries_less(d: Seq<u8>, w: Seq<bool>, more: Seq<bool>)
    requires
        carries(d, w + more),
    ensures
        carries(d, w),
        octets_to_bits(d).subrange(w.len() as int, (w + more).len() as int) == more,
{
    let b = octets_to_bits(d);
    let n = (w + more).len() as int;
    assert(b.subrange(0, n) == w + more);
    assert forall|k: int| 0 <= k < n implies b[k] == (w + more)[k] by {
        assert(b.subrange(0, n)[k] == b[k]);
    }
    assert(b.subrange(0, w.len() as int) =~= w);
    assert(b.subrange(w.len() as int, n) =~= more);
}

// ── Laws ──────────────────────────────────────────────────────────────────────

/// Reading a constrained integer gives back the one that was written.
pub proof fn int_round_trip(d: Seq<u8>, w: Seq<bool>, v: int, lo: int, hi: int)
    requires
        lo <= v <= hi,
        carries(d, put_int(w, v, lo, hi)),
    ensures
        get_int(d, w.len(), lo, hi) == Some((v, put_int(w, v, lo, hi).len())),
        carries(d, w),
{
    let range = (hi - lo) as nat;
    let more = nat_to_bits((v - lo) as nat, bit_width(range));
    lemma_carries_less(d, w, more);
    lemma_bits_len((v - lo) as nat, bit_width(range));
    lemma_bits_value((v - lo) as nat, range, bit_width(range));
}

/// Reading octets gives back those that were written on an octet boundary.
pub proof fn octets_round_trip(d: Seq<u8>, w: Seq<bool>, s: Seq<u8>)
    requires
        w.len() % 8 == 0,
        carries(d, put_octets(w, s)),
    ensures
        get_octets(d, w.len(), s.len()) == Some((s, put_octets(w, s).len())),
        carries(d, w),
{
    lemma_carries_less(d, w, octets_to_bits(s));
    let start = (w.len() / 8) as int;
    assert(aligned(w.len()) == w.len());
    lemma_octets_subrange(d, start, start + s.len());
    lemma_octets_injective(d.subrange(start, start + s.len()), s);
}

proof fn lemma_aligned_pad(w: Seq<bool>)
    ensures
        aligned(w.len()) == pad(w).len(),
        pad(w).len() % 8 == 0,
{
}

/// Reading a length determinant gives back the length that was written.
pub proof fn length_round_trip(d: Seq<u8>, w: Seq<bool>, n: nat)
    requires
        n <= MAX_LENGTH,
        carries(d, put_length(w, n)),
    ensures
        get_length(d, w.len()) == Some((n, put_length(w, n).len())),
        put_length(w, n).len() % 8 == 0,
        carries(d, w),
{
    lemma_aligned_pad(w);
    let p = pad(w);
    let start = (p.len() / 8) as int;
    let width: nat = if n < 128 { 8 } else { 16 };
    let coded: nat = if n < 128 { n } else { 0x8000 + n };
    let more = nat_to_bits(coded, width);
    lemma_bits_len(coded, width);
    lemma_carries_less(d, p, more);
    lemma_carries_less(d, w, Seq::new(((8 - w.len() % 8) % 8) as nat, |k: int| false));
    let b = octets_to_bits(d);
    lemma_octets_to_bits_chunk(d, start);
    lemma_octet_bits(d[start]);
    if n < 128 {
        lemma_width_of_octet();
        lemma_bits_value(n, 255, 8);
        assert(b.subrange(8 * start, 8 * start + 8) =~= more);
    } else {
        lemma_octets_to_bits_chunk(d, start + 1);
        lemma_octet_bits(d[start + 1]);
        lemma_two_octets(coded);
        let hi = nat_to_bits(coded / 256, 8);
        let lo = nat_to_bits(coded % 256, 8);
        lemma_bits_len(coded / 256, 8);
        lemma_bits_len(coded % 256, 8);
        lemma_width_of_octet();
        lemma_bits_value(coded / 256, 255, 8);
        lemma_bits_value(coded % 256, 255, 8);
        assert(b.subrange(8 * start, 8 * start + 16) == hi + lo);
        assert(b.subrange(8 * start, 8 * start + 8) =~= (hi + lo).subrange(0, 8));
        assert(b.subrange(8 * start + 8, 8 * start + 16) =~= (hi + lo).subrange(8, 16));
        assert((hi + lo).subrange(0, 8) =~= hi);
        assert((hi + lo).subrange(8, 16) =~= lo);
    }
}

/// Digits written one after the other denote the shifted first number plus
/// the second.
proof fn lemma_concat_value(a: Seq<bool>, b: Seq<bool>)
    ensures
        bits_to_nat(a + b) == bits_to_nat(a) * vstd::arithmetic::power2::pow2(b.len()) + bits_to_nat(b),
    decreases b.len(),
{
    vstd::arithmetic::power2::lemma2_to64();
    if b.len() == 0 {
        assert(a + b =~= a);
        assert(bits_to_nat(a) * 1 == bits_to_nat(a));
    } else {
        let c = b.drop_last();
        lemma_concat_value(a, c);
        assert((a + b).drop_last() =~= a + c);
        vstd::arithmetic::power2::lemma_pow2_unfold(b.len());
        let x = bits_to_nat(a);
        let y = vstd::arithmetic::power2::pow2(c.len());
        assert(2 * (x * y) == x * (2 * y)) by (nonlinear_arith);
    }
}

/// Sixteen digits are those of the high octet, then those of the low one.
proof fn lemma_two_octets(v: nat)
    requires
        v < 0x10000,
    ensures
        nat_to_bits(v, 16) == nat_to_bits(v / 256, 8) + nat_to_bits(v % 256, 8),
{
    let hi = nat_to_bits(v / 256, 8);
    let lo = nat_to_bits(v % 256, 8);
    lemma_bits_len(v / 256, 8);
    lemma_bits_len(v % 256, 8);
    lemma_width_of_octet();
    lemma_bits_value(v / 256, 255, 8);
    lemma_bits_value(v % 256, 255, 8);
    vstd::arithmetic::power2::lemma2_to64();
    lemma_concat_value(hi, lo);
    lemma_value_bits(hi + lo);
}

/// Reading an octet string gives back the one that was written.
pub proof fn octet_string_round_trip(d: Seq<u8>, w: Seq<bool>, s: Seq<u8>)
    requires
        s.len() <= MAX_LENGTH,
        carries(d, put_octet_string(w, s)),
    ensures
        get_octet_string(d, w.len()) == Some((s, put_octet_string(w, s).len())),
        put_octet_string(w, s).len() % 8 == 0,
        carries(d, w),
{
    lemma_carries_less(d, put_length(w, s.len()), octets_to_bits(s));
    length_round_trip(d, w, s.len());
    octets_round_trip(d, put_length(w, s.len()), s);
}

// ── Writer ────────────────────────────────────────────────────────────────────

/// Writes bit fields into a growing octet buffer.
#[derive(Debug)]
pub struct PerWriter {
    buf: Vec<u8>,
    /// Bits in use in the last octet; 0 on an octet boundary.
    used: u8,
}

impl View for PerWriter {
    type V = Seq<bool>;

    /// The bits written so far.
    closed spec fn view(&self) -> Seq<bool> {
        octets_to_bits(self.buf@).subrange(0, self.bit_len())
    }
}

impl PerWriter {
    spec fn bit_len(self) -> int {
        if self.used == 0 {
            8 * self.buf@.len() as int
        } else {
            8 * (self.buf@.len() - 1) + self.used
        }
    }

    /// The bits after those in use are zero.
    pub closed spec fn wf(self) -> bool {
        &&& self.used < 8
        &&& self.used > 0 ==> self.buf@.len() > 0
        &&& forall|k: int| self.bit_len() <= k < 8 * self.buf@.len() ==> !#[trigger] octets_to_bits(self.buf@)[k]
    }

    pub fn new() -> (w: Self)
        ensures
            w.wf(),
            w@ == Seq::<bool>::empty(),
    {
        let w = PerWriter { buf: Vec::new(), used: 0 };
        assert(w@ =~= Seq::<bool>::empty());
        w
    }

    fn push_bit(&mut self, bit: bool)
        requires
            old(self).wf(),
        ensures
            final(self).wf(),
            final(self)@ == old(self)@.push(bit),
    {
        let ghost before = *self;
        if self.used == 0 {
            self.buf.push(0);
            assert forall|k: int| 8 * before.buf@.len() <= k < 8 * self.buf@.len() implies !#[trigger] octets_to_bits(
                self.buf@,
            )[k] by {
                reveal_with_fuel(nat_to_bits, 9);
            }
        }
        let ghost opened = self.buf@;
        let n: usize = self.buf.len();
        let last: u8 = self.buf[n - 1];
        let used: u8 = self.used;
        let ghost pos = 8 * (n - 1) + used;
        assert(!octets_to_bits(opened)[pos]) by {
            if used > 0 {
                assert(opened == before.buf@);
            }
        }
        if bit {
            let marked: u8 = last | (0x80u8 >> used);
            self.buf.set(n - 1, marked);
            assert forall|j: u8| j < 8 implies #[trigger] nat_to_bits(marked as nat, 8)[j as int] == (if j == used {
                true
            } else {
                nat_to_bits(last as nat, 8)[j as int]
            }) by {
                lemma_octet_bit_shift(marked, j);
                lemma_octet_bit_shift(last, j);
                let s = (7 - j) as u8;
                assert((((last | (0x80u8 >> used)) >> s) & 1) == (if s + used == 7 {
                    1
                } else {
                    (last >> s) & 1
                })) by (bit_vector)
                    requires
                        used < 8,
                        s < 8,
                ;
            }
            assert forall|k: int| 0 <= k < 8 * self.buf@.len() implies #[trigger] octets_to_bits(self.buf@)[k] == (if k
                == pos {
                true
            } else {
                octets_to_bits(opened)[k]
            }) by {
                if k / 8 == n - 1 {
                    let j = (k % 8) as u8;
                    assert(nat_to_bits(marked as nat, 8)[j as int] == (if j == used {
                        true
                    } else {
                        nat_to_bits(last as nat, 8)[j as int]
                    }));
                }
            }
        }
        self.used = if used == 7 {
            0
        } else {
            used + 1
        };
        proof {
            assert forall|k: int| 0 <= k < pos implies octets_to_bits(opened)[k] == #[trigger] octets_to_bits(
                before.buf@,
            )[k] by {}
            assert(self.bit_len() == pos + 1);
            assert(self@ =~= before@.push(bit));
        }
    }

    /// Appends the `width` low-order bits of `v`.
    fn push_bits(&mut self, v: u64, width: u32)
        requires
            old(self).wf(),
            width <= 64,
        ensures
            final(self).wf(),
            final(self)@ == old(self)@ + nat_to_bits(v as nat, width as nat),
        decreases width,
    {
        if width > 0 {
            let ghost before = self@;
            self.push_bits(v / 2, width - 1);
            let ghost high = nat_to_bits((v / 2) as nat, (width - 1) as nat);
            self.push_bit(v % 2 == 1);
            assert(self@ =~= before + high.push(v % 2 == 1));
        } else {
            assert(self@ =~= self@ + nat_to_bits(v as nat, 0));
        }
    }

    /// Writes `v` of `lo..=hi` as a field of the width of that range.
    pub fn write_constrained_int(&mut self, v: u64, lo: u64, hi: u64)
        requires
            old(self).wf(),
            lo <= v <= hi,
        ensures
            final(self).wf(),
            final(self)@ == put_int(old(self)@, v as int, lo as int, hi as int),
    {
        let width = width_of(hi - lo);
        self.push_bits(v - lo, width);
    }

    /// Fills up with zero bits to the next octet boundary.
    pub fn align(&mut self)
        requires
            old(self).wf(),
        ensures
            final(self).wf(),
            final(self)@ == pad(old(self)@),
    {
        let ghost before = *self;
        self.used = 0;
        proof {
            assert(before@.len() == before.bit_len());
            assert(self@ =~= pad(before@));
        }
    }

    /// Writes octets from the current bit on.
    pub fn write_octets(&mut self, data: &[u8])
        requires
            old(self).wf(),
        ensures
            final(self).wf(),
            final(self)@ == put_octets(old(self)@, data@),
    {
        let ghost before = self@;
        let mut i: usize = 0;
        assert(self@ =~= before + octets_to_bits(data@.subrange(0, 0)));
        while i < data.len()
            invariant
                self.wf(),
                i <= data@.len(),
                self@ == before + octets_to_bits(data@.subrange(0, i as int)),
            decreases data@.len() - i,
        {
            let ghost done = data@.subrange(0, i as int);
            self.push_bits(data[i] as u64, 8);
            proof {
                let one = seq![data@[i as int]];
                lemma_octets_concat(done, one);
                lemma_octet_bits(data@[i as int]);
                assert(octets_to_bits(one) =~= nat_to_bits(data@[i as int] as nat, 8));
                assert(done + one =~= data@.subrange(0, i + 1));
                assert(self@ =~= before + octets_to_bits(data@.subrange(0, i + 1)));
            }
            i += 1;
        }
        assert(data@.subrange(0, i as int) =~= data@);
    }

    /// Writes a length determinant on the next octet boundary.
    pub fn write_length_determinant(&mut self, n: usize)
        requires
            old(self).wf(),
            n <= MAX_LENGTH,
        ensures
            final(self).wf(),
            final(self)@ == put_length(old(self)@, n as nat),
    {
        self.align();
        if n < 128 {
            self.push_bits(n as u64, 8);
        } else {
            self.push_bits(0x8000 + n as u64, 16);
        }
    }

    /// Writes the length of `data`, then `data`.
    pub fn write_octet_string(&mut self, data: &[u8])
        requires
            old(self).wf(),
            data@.len() <= MAX_LENGTH,
        ensures
            final(self).wf(),
            final(self)@ == put_octet_string(old(self)@, data@),
    {
        self.write_length_determinant(data.len());
        self.write_octets(data);
    }

    /// The octets written, the last one filled up with zero bits.
    pub fn into_bytes(self) -> (d: Vec<u8>)
        requires
            self.wf(),
        ensures
            d@ == bits_to_octets(self@),
    {
        proof {
            assert(self@.len() == self.bit_len());
            assert(pad(self@) =~= octets_to_bits(self.buf@));
            lemma_pack(self@);
            lemma_octets_injective(self.buf@, bits_to_octets(self@));
        }
        self.buf
    }
}

fn width_of(range: u64) -> (width: u32)
    ensures
        width == bit_width(range as nat),
        width <= 64,
{
    proof {
        lemma_width_u64(range);
    }
    let mut rest: u64 = range;
    let mut width: u32 = 0;
    while rest > 0
        invariant
            width + bit_width(rest as nat) == bit_width(range as nat),
            bit_width(range as nat) <= 64,
        decreases rest,
    {
        rest = rest / 2;
        width += 1;
    }
    width
}

// ── Reader ────────────────────────────────────────────────────────────────────

/// Reads bit fields from an octet slice. A read that fails returns `None`
/// and leaves the position where it was.
#[derive(Debug)]
pub struct PerReader<'a> {
    buf: &'a [u8],
    octet: usize,
    bit: u8,
}

impl<'a> PerReader<'a> {
    /// The octets being read.
    pub closed spec fn data(self) -> Seq<u8> {
        self.buf@
    }

    /// The position of the next bit.
    pub closed spec fn pos(self) -> nat {
        (8 * self.octet + self.bit) as nat
    }

    pub closed spec fn wf(self) -> bool {
        &&& self.bit < 8
        &&& 8 * self.octet + self.bit <= 8 * self.buf@.len()
    }

    pub fn new(buf: &'a [u8]) -> (r: Self)
        ensures
            r.wf(),
            r.data() == buf@,
            r.pos() == 0,
    {
        PerReader { buf, octet: 0, bit: 0 }
    }

    fn read_bit(&mut self) -> (b: Option<bool>)
        requires
            old(self).wf(),
        ensures
            final(self).wf(),
            final(self).data() == old(self).data(),
            old(self).pos() < 8 * old(self).data().len() ==> {
                &&& b == Some(octets_to_bits(old(self).data())[old(self).pos() as int])
                &&& final(self).pos() == old(self).pos() + 1
            },
            old(self).pos() >= 8 * old(self).data().len() ==> b is None && *final(self) == *old(self),
    {
        if self.octet >= self.buf.len() {
            return None;
        }
        let o: u8 = self.buf[self.octet];
        let value: bool = (o >> (7 - self.bit)) & 1 == 1;
        proof {
            lemma_octet_bit_shift(o, self.bit);
        }
        if self.bit == 7 {
            self.bit = 0;
            self.octet += 1;
        } else {
            self.bit += 1;
        }
        Some(value)
    }

    /// Reads a field of the width of `lo..=hi`; `None` when it runs past the
    /// end or holds a value above `hi`.
    pub fn read_constrained_int(&mut self, lo: u64, hi: u64) -> (v: Option<u64>)
        requires
            old(self).wf(),
            lo <= hi,
        ensures
            final(self).wf(),
            final(self).data() == old(self).data(),
            match get_int(old(self).data(), old(self).pos(), lo as int, hi as int) {
                Some((x, p)) => v is Some && v->0 == x && final(self).pos() == p,
                None => v is None && final(self).pos() == old(self).pos(),
            },
    {
        let width = width_of(hi - lo);
        let octet: usize = self.octet;
        let bit: u8 = self.bit;
        let ghost start = self.pos();
        let ghost all = octets_to_bits(self.data());
        let mut acc: u64 = 0;
        let mut i: u32 = 0;
        assert(all.subrange(start as int, start as int) =~= Seq::<bool>::empty());
        while i < width
            invariant
                old(self).wf(),
                self.wf(),
                self.data() == old(self).data(),
                octet == old(self).octet,
                bit == old(self).bit,
                start == old(self).pos(),
                all == octets_to_bits(self.data()),
                i <= width <= 64,
                width == bit_width((hi - lo) as nat),
                self.pos() == start + i,
                acc == bits_to_nat(all.subrange(start as int, start + i)),
            decreases width - i,
        {
            let ghost seen = all.subrange(start as int, start + i);
            match self.read_bit() {
                None => {
                    self.octet = octet;
                    self.bit = bit;
                    return None;
                },
                Some(b) => {
                    proof {
                        assert(all.subrange(start as int, start + i + 1) =~= seen.push(b));
                        lemma_push_value(seen, b);
                        lemma_value_bound(seen.push(b), 64);
                        vstd::arithmetic::power2::lemma2_to64();
                    }
                    acc = acc * 2 + (if b {
                        1
                    } else {
                        0
                    });
                    i += 1;
                },
            }
        }
        if acc > hi - lo {
            self.octet = octet;
            self.bit = bit;
            return None;
        }
        Some(lo + acc)
    }

    /// The octet at the next octet boundary.
    fn next_octet(&self) -> (start: usize)
        requires
            self.wf(),
        ensures
            start == aligned(self.pos()) / 8,
            start <= self.buf@.len(),
    {
        let _len: usize = self.buf.len();
        if self.bit > 0 {
            self.octet + 1
        } else {
            self.octet
        }
    }

    /// Reads `n` octets from the next octet boundary on.
    pub fn read_octets(&mut self, n: usize) -> (v: Option<Vec<u8>>)
        requires
            old(self).wf(),
        ensures
            final(self).wf(),
            final(self).data() == old(self).data(),
            match get_octets(old(self).data(), old(self).pos(), n as nat) {
                Some((x, p)) => v is Some && v->0@ == x && final(self).pos() == p,
                None => v is None && final(self).pos() == old(self).pos(),
            },
    {
        let len: usize = self.buf.len();
        let start: usize = self.next_octet();
        if n > len - start {
            return None;
        }
        let out = to_vec(&self.buf[start..start + n]);
        self.octet = start + n;
        self.bit = 0;
        Some(out)
    }

    /// Reads a length determinant from the next octet boundary on; `None`
    /// when it runs past the end or announces the fragmented form.
    pub fn read_length_determinant(&mut self) -> (v: Option<usize>)
        requires
            old(self).wf(),
        ensures
            final(self).wf(),
            final(self).data() == old(self).data(),
            match get_length(old(self).data(), old(self).pos()) {
                Some((x, p)) => v is Some && v->0 == x && final(self).pos() == p,
                None => v is None && final(self).pos() == old(self).pos(),
            },
    {
        let len: usize = self.buf.len();
        let start: usize = self.next_octet();
        if start >= len {
            return None;
        }
        let first: usize = self.buf[start] as usize;
        if first < 128 {
            self.octet = start + 1;
            self.bit = 0;
            return Some(first);
        }
        if first >= 192 || start + 1 >= len {
            return None;
        }
        let second: usize = self.buf[start + 1] as usize;
        self.octet = start + 2;
        self.bit = 0;
        Some((first - 128) * 256 + second)
    }

    /// Reads a length determinant and that many octets.
    pub fn read_octet_string(&mut self) -> (v: Option<Vec<u8>>)
        requires
            old(self).wf(),
        ensures
            final(self).wf(),
            final(self).data() == old(self).data(),
            match get_octet_string(old(self).data(), old(self).pos()) {
                Some((x, p)) => v is Some && v->0@ == x && final(self).pos() == p,
                None => v is None && final(self).pos() == old(self).pos(),
            },
    {
        let octet: usize = self.octet;
        let bit: u8 = self.bit;
        match self.read_length_determinant() {
            None => None,
            Some(n) => {
                match self.read_octets(n) {
                    None => {
                        self.octet = octet;
                        self.bit = bit;
                        None
                    },
                    Some(v) => Some(v),
                }
            },
        }
    }
}

} // verus!
