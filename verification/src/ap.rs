//! The framing that NGAP and S1AP share: protocol IE containers and the PDU
//! wrapper around them.
//!
//! ```text
//! PDU       ::= CHOICE { initiatingMessage, successfulOutcome, unsuccessfulOutcome }
//!   each one ::= SEQUENCE { procedureCode INTEGER(0..255), criticality, value OPEN TYPE }
//!   value    ::= SEQUENCE OF { id INTEGER(0..65535), criticality, value OPEN TYPE }
//! ```
//!
//! The number of IEs is written as a length determinant. Both protocols
//! frame every message this way; what differs is which IEs a message has.

use bytes::Bytes;
use vstd::prelude::*;

use crate::octets::{bytes_from_vec, octets_of};
use crate::per::{
    bit_width, bits_to_octets, carries, get_int, get_items, get_length, get_list, get_octet_string, int_round_trip,
    lemma_bits_len, lemma_items_none, lemma_octet_string_len, lemma_pack, lemma_packed_len, lemma_width_u64,
    list_round_trip, octet_string_round_trip, put_int, put_items, put_length, put_list,
    put_octet_string, value_of, PerReader, PerWriter, MAX_LENGTH,
};

verus! {

pub const PROTOCOL_IE_ID_MAX: u64 = 65_535;

pub const PROCEDURE_CODE_MAX: u64 = 255;

pub const CRITICALITY_MAX: u64 = 2;

pub const PDU_CHOICE_MAX: u64 = 2;

pub const PDU_CHOICE_INITIATING_MESSAGE: u64 = 0;

pub const PDU_CHOICE_SUCCESSFUL_OUTCOME: u64 = 1;

/// Identifier, criticality and encoded value of one IE.
pub type IeEntry = (u32, u8, Vec<u8>);

/// One IE as a mathematical value.
#[verifier::ext_equal]
pub struct Ie {
    pub id: u32,
    pub criticality: u8,
    pub value: Seq<u8>,
}

pub open spec fn ie_of(e: IeEntry) -> Ie {
    Ie { id: e.0, criticality: e.1, value: e.2@ }
}

pub open spec fn ies_of(entries: Seq<IeEntry>) -> Seq<Ie> {
    entries.map_values(|e: IeEntry| ie_of(e))
}

/// A PDU as a mathematical value.
#[verifier::ext_equal]
pub struct Pdu {
    pub choice: u64,
    pub procedure_code: u32,
    pub criticality: u8,
    pub value: Seq<u8>,
}

// ── Encoding ──────────────────────────────────────────────────────────────────

pub open spec fn put_ie(w: Seq<bool>, ie: Ie) -> Seq<bool> {
    put_octet_string(
        put_int(put_int(w, ie.id as int, 0, PROTOCOL_IE_ID_MAX as int), ie.criticality as int, 0, CRITICALITY_MAX as int),
        ie.value,
    )
}

/// How an IE is written into a container.
pub open spec fn ie_put() -> spec_fn(Seq<bool>, Ie) -> Seq<bool> {
    |w: Seq<bool>, ie: Ie| put_ie(w, ie)
}

/// A container: the number of IEs, then each of them.
pub open spec fn put_container(w: Seq<bool>, ies: Seq<Ie>) -> Seq<bool> {
    put_list(w, ies, ie_put())
}

pub open spec fn container_octets(ies: Seq<Ie>) -> Seq<u8> {
    bits_to_octets(put_container(Seq::empty(), ies))
}

pub open spec fn put_pdu(w: Seq<bool>, pdu: Pdu) -> Seq<bool> {
    put_octet_string(
        put_int(
            put_int(
                put_int(w, pdu.choice as int, 0, PDU_CHOICE_MAX as int),
                pdu.procedure_code as int,
                0,
                PROCEDURE_CODE_MAX as int,
            ),
            pdu.criticality as int,
            0,
            CRITICALITY_MAX as int,
        ),
        pdu.value,
    )
}

pub open spec fn pdu_octets(pdu: Pdu) -> Seq<u8> {
    bits_to_octets(put_pdu(Seq::empty(), pdu))
}

/// A PDU around a container.
pub open spec fn message_octets(choice: u64, procedure_code: u32, criticality: u8, ies: Seq<Ie>) -> Seq<u8> {
    pdu_octets(Pdu { choice, procedure_code, criticality, value: container_octets(ies) })
}

/// The identifiers and criticalities are within their ranges.
pub open spec fn ies_tagged(ies: Seq<Ie>) -> bool {
    forall|i: int| 0 <= i < ies.len() ==> (#[trigger] ies[i]).id <= PROTOCOL_IE_ID_MAX && ies[i].criticality
        <= CRITICALITY_MAX
}

/// Every length in the container can be written.
pub open spec fn ies_fit(ies: Seq<Ie>) -> bool {
    &&& ies.len() <= MAX_LENGTH
    &&& forall|i: int| 0 <= i < ies.len() ==> (#[trigger] ies[i]).value.len() <= MAX_LENGTH
}

/// The container and the PDU around it can be written.
pub open spec fn message_fits(ies: Seq<Ie>) -> bool {
    &&& ies_fit(ies)
    &&& container_octets(ies).len() <= MAX_LENGTH
}

// ── Decoding ──────────────────────────────────────────────────────────────────

pub open spec fn get_ie(d: Seq<u8>, pos: nat) -> Option<(Ie, nat)> {
    match get_int(d, pos, 0, PROTOCOL_IE_ID_MAX as int) {
        None => None,
        Some((id, p1)) => match get_int(d, p1, 0, CRITICALITY_MAX as int) {
            None => None,
            Some((criticality, p2)) => match get_octet_string(d, p2) {
                None => None,
                Some((value, p3)) => Some((Ie { id: id as u32, criticality: criticality as u8, value }, p3)),
            },
        },
    }
}

/// How an IE is read out of a container.
pub open spec fn ie_get() -> spec_fn(Seq<u8>, nat) -> Option<(Ie, nat)> {
    |d: Seq<u8>, pos: nat| get_ie(d, pos)
}

pub open spec fn get_container(d: Seq<u8>, pos: nat) -> Option<(Seq<Ie>, nat)> {
    get_list(d, pos, ie_get())
}

pub open spec fn get_pdu(d: Seq<u8>) -> Option<Pdu> {
    match get_int(d, 0, 0, PDU_CHOICE_MAX as int) {
        None => None,
        Some((choice, p1)) => match get_int(d, p1, 0, PROCEDURE_CODE_MAX as int) {
            None => None,
            Some((procedure_code, p2)) => match get_int(d, p2, 0, CRITICALITY_MAX as int) {
                None => None,
                Some((criticality, p3)) => match get_octet_string(d, p3) {
                    None => None,
                    Some((value, _)) => Some(
                        Pdu {
                            choice: choice as u64,
                            procedure_code: procedure_code as u32,
                            criticality: criticality as u8,
                            value,
                        },
                    ),
                },
            },
        },
    }
}

/// The value of the last IE with that identifier.
pub open spec fn last_ie(ies: Seq<Ie>, id: u32) -> Option<Seq<u8>>
    decreases ies.len(),
{
    if ies.len() == 0 {
        None
    } else if ies.last().id == id {
        Some(ies.last().value)
    } else {
        last_ie(ies.drop_last(), id)
    }
}

/// What `parse` makes of the last IE with that identifier which it accepts.
pub open spec fn last_parsed<T>(ies: Seq<Ie>, id: u32, parse: spec_fn(Seq<u8>) -> Option<T>) -> Option<T>
    decreases ies.len(),
{
    if ies.len() == 0 {
        None
    } else if ies.last().id == id && parse(ies.last().value) is Some {
        parse(ies.last().value)
    } else {
        last_parsed(ies.drop_last(), id, parse)
    }
}

/// The constrained integer of `0..=max` in the last IE with that identifier.
pub open spec fn int_in(ies: Seq<Ie>, id: u32, max: u64) -> Option<int> {
    match last_ie(ies, id) {
        None => None,
        Some(v) => value_of(get_int(v, 0, 0, max as int)),
    }
}

/// The octet string in the last IE with that identifier.
pub open spec fn octet_string_in(ies: Seq<Ie>, id: u32) -> Option<Seq<u8>> {
    match last_ie(ies, id) {
        None => None,
        Some(v) => value_of(get_octet_string(v, 0)),
    }
}

/// An IE value that is one constrained integer of `0..=max`.
pub open spec fn int_value(v: int, max: u64) -> Seq<u8> {
    bits_to_octets(put_int(Seq::empty(), v, 0, max as int))
}

/// An IE value that is one octet string.
pub open spec fn octet_string_value(s: Seq<u8>) -> Seq<u8> {
    bits_to_octets(put_octet_string(Seq::empty(), s))
}

// ── Laws ──────────────────────────────────────────────────────────────────────

proof fn lemma_ie_round_trip(d: Seq<u8>, w: Seq<bool>, ie: Ie)
    requires
        ie.id <= PROTOCOL_IE_ID_MAX,
        ie.criticality <= CRITICALITY_MAX,
        ie.value.len() <= MAX_LENGTH,
        carries(d, put_ie(w, ie)),
    ensures
        get_ie(d, w.len()) == Some((ie, put_ie(w, ie).len())),
        carries(d, w),
{
    let w1 = put_int(w, ie.id as int, 0, PROTOCOL_IE_ID_MAX as int);
    let w2 = put_int(w1, ie.criticality as int, 0, CRITICALITY_MAX as int);
    octet_string_round_trip(d, w2, ie.value);
    int_round_trip(d, w1, ie.criticality as int, 0, CRITICALITY_MAX as int);
    int_round_trip(d, w, ie.id as int, 0, PROTOCOL_IE_ID_MAX as int);
}

/// Reading a container gives back the IEs that were written.
pub proof fn container_round_trip(d: Seq<u8>, w: Seq<bool>, ies: Seq<Ie>)
    requires
        ies_tagged(ies),
        ies_fit(ies),
        carries(d, put_container(w, ies)),
    ensures
        get_container(d, w.len()) == Some((ies, put_container(w, ies).len())),
        carries(d, w),
{
    let ok = |ie: Ie|
        ie.id <= PROTOCOL_IE_ID_MAX && ie.criticality <= CRITICALITY_MAX && ie.value.len() <= MAX_LENGTH;
    assert forall|d: Seq<u8>, w: Seq<bool>, ie: Ie| #[trigger]
        carries(d, ie_put()(w, ie)) && ok(ie) implies carries(d, w) && ie_get()(d, w.len()) == Some(
        (ie, ie_put()(w, ie).len()),
    ) by {
        lemma_ie_round_trip(d, w, ie);
    }
    list_round_trip(d, w, ies, ie_put(), ie_get(), ok);
}

/// Reading a PDU gives back the one that was written.
pub proof fn pdu_round_trip(pdu: Pdu)
    requires
        pdu.choice <= PDU_CHOICE_MAX,
        pdu.procedure_code <= PROCEDURE_CODE_MAX,
        pdu.criticality <= CRITICALITY_MAX,
        pdu.value.len() <= MAX_LENGTH,
    ensures
        get_pdu(pdu_octets(pdu)) == Some(pdu),
{
    let d = pdu_octets(pdu);
    let w0 = Seq::<bool>::empty();
    lemma_pack(put_pdu(w0, pdu));
    let w1 = put_int(w0, pdu.choice as int, 0, PDU_CHOICE_MAX as int);
    let w2 = put_int(w1, pdu.procedure_code as int, 0, PROCEDURE_CODE_MAX as int);
    let w3 = put_int(w2, pdu.criticality as int, 0, CRITICALITY_MAX as int);
    octet_string_round_trip(d, w3, pdu.value);
    int_round_trip(d, w2, pdu.criticality as int, 0, CRITICALITY_MAX as int);
    int_round_trip(d, w1, pdu.procedure_code as int, 0, PROCEDURE_CODE_MAX as int);
    int_round_trip(d, w0, pdu.choice as int, 0, PDU_CHOICE_MAX as int);
}

/// Reading a message gives back its IEs, its procedure code and its choice.
pub proof fn message_round_trip(choice: u64, procedure_code: u32, criticality: u8, ies: Seq<Ie>)
    requires
        choice <= PDU_CHOICE_MAX,
        procedure_code <= PROCEDURE_CODE_MAX,
        criticality <= CRITICALITY_MAX,
        ies_tagged(ies),
        message_fits(ies),
    ensures
        get_pdu(message_octets(choice, procedure_code, criticality, ies)) == Some(
            Pdu { choice, procedure_code, criticality, value: container_octets(ies) },
        ),
        value_of(get_container(container_octets(ies), 0)) == Some(ies),
{
    pdu_round_trip(Pdu { choice, procedure_code, criticality, value: container_octets(ies) });
    let w = put_container(Seq::empty(), ies);
    lemma_pack(w);
    container_round_trip(container_octets(ies), Seq::empty(), ies);
}

/// At most one IE has that identifier.
pub open spec fn at_most_one(ies: Seq<Ie>, id: u32) -> bool {
    forall|i: int, j: int|
        0 <= i < ies.len() && 0 <= j < ies.len() && (#[trigger] ies[i]).id == id && (#[trigger] ies[j]).id == id ==> i
            == j
}

/// Some IE has that identifier and that value.
pub open spec fn holds(ies: Seq<Ie>, id: u32, value: Seq<u8>) -> bool {
    exists|i: int| 0 <= i < ies.len() && (#[trigger] ies[i]).id == id && ies[i].value == value
}

/// Two containers have the same value under an identifier, or none: wherever
/// it stands, whatever its criticality and whatever other IEs there are.
pub open spec fn same_value(a: Seq<Ie>, b: Seq<Ie>, id: u32) -> bool {
    &&& at_most_one(a, id)
    &&& at_most_one(b, id)
    &&& forall|value: Seq<u8>| #[trigger] holds(a, id, value) <==> holds(b, id, value)
}

proof fn lemma_last_ie(ies: Seq<Ie>, id: u32)
    requires
        at_most_one(ies, id),
    ensures
        last_ie(ies, id) is Some ==> holds(ies, id, last_ie(ies, id)->0),
        forall|value: Seq<u8>| #[trigger] holds(ies, id, value) ==> last_ie(ies, id) == Some(value),
    decreases ies.len(),
{
    if ies.len() > 0 {
        let rest = ies.drop_last();
        let n = ies.len() - 1;
        assert forall|i: int, j: int|
            0 <= i < rest.len() && 0 <= j < rest.len() && (#[trigger] rest[i]).id == id && (#[trigger] rest[j]).id
                == id implies i == j by {
            assert(ies[i] == rest[i] && ies[j] == rest[j]);
        }
        lemma_last_ie(rest, id);
        if ies[n].id == id {
            assert(holds(ies, id, ies[n].value));
        } else {
            if last_ie(rest, id) is Some {
                let value = last_ie(rest, id)->0;
                let i = choose|i: int| 0 <= i < rest.len() && (#[trigger] rest[i]).id == id && rest[i].value == value;
                assert(ies[i] == rest[i]);
            }
            assert forall|value: Seq<u8>| #[trigger] holds(ies, id, value) implies last_ie(ies, id) == Some(value) by {
                let i = choose|i: int| 0 <= i < ies.len() && (#[trigger] ies[i]).id == id && ies[i].value == value;
                assert(rest[i] == ies[i]);
                assert(holds(rest, id, value));
            }
        }
    }
}

proof fn lemma_last_parsed<T>(ies: Seq<Ie>, id: u32, parse: spec_fn(Seq<u8>) -> Option<T>)
    requires
        at_most_one(ies, id),
    ensures
        last_parsed(ies, id, parse) == match last_ie(ies, id) {
            None => None,
            Some(value) => parse(value),
        },
    decreases ies.len(),
{
    if ies.len() > 0 {
        let rest = ies.drop_last();
        let n = ies.len() - 1;
        assert forall|i: int, j: int|
            0 <= i < rest.len() && 0 <= j < rest.len() && (#[trigger] rest[i]).id == id && (#[trigger] rest[j]).id
                == id implies i == j by {
            assert(ies[i] == rest[i] && ies[j] == rest[j]);
        }
        lemma_last_parsed(rest, id, parse);
        lemma_last_ie(rest, id);
        if ies[n].id == id && last_ie(rest, id) is Some {
            let value = last_ie(rest, id)->0;
            let i = choose|i: int| 0 <= i < rest.len() && (#[trigger] rest[i]).id == id && rest[i].value == value;
            assert(ies[i] == rest[i]);
        }
    }
}

/// Containers with the same value under an identifier are read alike.
pub proof fn same_values_are_read_alike(a: Seq<Ie>, b: Seq<Ie>, id: u32)
    requires
        same_value(a, b, id),
    ensures
        last_ie(a, id) == last_ie(b, id),
{
    lemma_last_ie(a, id);
    lemma_last_ie(b, id);
    if last_ie(a, id) is Some {
        assert(holds(b, id, last_ie(a, id)->0));
    }
    if last_ie(b, id) is Some {
        assert(holds(a, id, last_ie(b, id)->0));
    }
}

/// Containers with the same value under an identifier are parsed alike.
pub proof fn same_values_are_parsed_alike<T>(a: Seq<Ie>, b: Seq<Ie>, id: u32, parse: spec_fn(Seq<u8>) -> Option<T>)
    requires
        same_value(a, b, id),
    ensures
        last_parsed(a, id, parse) == last_parsed(b, id, parse),
{
    same_values_are_read_alike(a, b, id);
    lemma_last_parsed(a, id, parse);
    lemma_last_parsed(b, id, parse);
}

/// The last IE of a sequence decides for its own identifier, and leaves the
/// others to the IEs before it.
pub broadcast proof fn lemma_last_ie_push(ies: Seq<Ie>, ie: Ie, id: u32)
    ensures
        #[trigger] last_ie(ies.push(ie), id) == (if ie.id == id {
            Some(ie.value)
        } else {
            last_ie(ies, id)
        }),
{
    assert(ies.push(ie).drop_last() =~= ies);
}

pub broadcast proof fn lemma_last_parsed_push<T>(ies: Seq<Ie>, ie: Ie, id: u32, parse: spec_fn(Seq<u8>) -> Option<T>)
    ensures
        #[trigger] last_parsed(ies.push(ie), id, parse) == (if ie.id == id && parse(ie.value) is Some {
            parse(ie.value)
        } else {
            last_parsed(ies, id, parse)
        }),
{
    assert(ies.push(ie).drop_last() =~= ies);
}

/// An integer value is read back.
pub proof fn lemma_int_value(v: int, max: u64)
    requires
        0 <= v <= max,
    ensures
        value_of(get_int(int_value(v, max), 0, 0, max as int)) == Some(v),
{
    lemma_pack(put_int(Seq::empty(), v, 0, max as int));
    int_round_trip(int_value(v, max), Seq::empty(), v, 0, max as int);
}

/// An octet string value is read back.
pub proof fn lemma_octet_string_value(s: Seq<u8>)
    requires
        s.len() <= MAX_LENGTH,
    ensures
        value_of(get_octet_string(octet_string_value(s), 0)) == Some(s),
{
    lemma_pack(put_octet_string(Seq::empty(), s));
    octet_string_round_trip(octet_string_value(s), Seq::empty(), s);
}

// ── Sizes ─────────────────────────────────────────────────────────────────────

/// An upper bound of the octets that IEs take up: six each beside the value.
pub open spec fn ies_size(ies: Seq<Ie>) -> nat
    decreases ies.len(),
{
    if ies.len() == 0 {
        0
    } else {
        ies_size(ies.drop_last()) + ies.last().value.len() + 6
    }
}

pub broadcast proof fn lemma_ies_size_push(ies: Seq<Ie>, ie: Ie)
    ensures
        #[trigger] ies_size(ies.push(ie)) == ies_size(ies) + ie.value.len() + 6,
{
    assert(ies.push(ie).drop_last() =~= ies);
}

proof fn lemma_ies_len(w: Seq<bool>, ies: Seq<Ie>)
    ensures
        put_items(w, ies, ie_put()).len() <= w.len() + 8 * ies_size(ies),
        ies.len() * 6 <= ies_size(ies),
    decreases ies.len(),
{
    if ies.len() > 0 {
        let rest = put_items(w, ies.drop_last(), ie_put());
        let ie = ies.last();
        lemma_ies_len(w, ies.drop_last());
        lemma_width_u64(PROTOCOL_IE_ID_MAX);
        reveal_with_fuel(bit_width, 17);
        lemma_bits_len(ie.id as nat, 16);
        lemma_bits_len(ie.criticality as nat, 2);
        let w1 = put_int(rest, ie.id as int, 0, PROTOCOL_IE_ID_MAX as int);
        let w2 = put_int(w1, ie.criticality as int, 0, CRITICALITY_MAX as int);
        lemma_octet_string_len(w2, ie.value);
    }
}

proof fn lemma_ies_values(ies: Seq<Ie>, i: int)
    requires
        0 <= i < ies.len(),
    ensures
        ies[i].value.len() <= ies_size(ies),
    decreases ies.len(),
{
    if i < ies.len() - 1 {
        lemma_ies_values(ies.drop_last(), i);
    }
}

/// A message fits when its IEs together stay below the longest length.
pub proof fn small_message_fits(ies: Seq<Ie>)
    requires
        ies_size(ies) + 3 <= MAX_LENGTH,
    ensures
        message_fits(ies),
{
    let start = put_length(Seq::<bool>::empty(), ies.len());
    lemma_ies_len(start, ies);
    lemma_bits_len(ies.len(), 8);
    lemma_bits_len(0x8000 + ies.len(), 16);
    lemma_packed_len(put_container(Seq::empty(), ies));
    assert forall|i: int| 0 <= i < ies.len() implies (#[trigger] ies[i]).value.len() <= MAX_LENGTH by {
        lemma_ies_values(ies, i);
    }
}

pub proof fn lemma_int_value_len(v: int, max: u64)
    ensures
        int_value(v, max).len() <= 8,
{
    lemma_width_u64(max);
    lemma_bits_len(v as nat, bit_width(max as nat));
    lemma_packed_len(put_int(Seq::empty(), v, 0, max as int));
}

pub proof fn lemma_octet_string_value_len(s: Seq<u8>)
    ensures
        octet_string_value(s).len() <= s.len() + 3,
{
    lemma_octet_string_len(Seq::empty(), s);
    lemma_packed_len(put_octet_string(Seq::empty(), s));
}

// ── Writing and reading ───────────────────────────────────────────────────────

pub fn write_ie_container(w: &mut PerWriter, entries: &[IeEntry])
    requires
        old(w).wf(),
        ies_tagged(ies_of(entries@)),
        ies_fit(ies_of(entries@)),
    ensures
        final(w).wf(),
        final(w)@ == put_container(old(w)@, ies_of(entries@)),
{
    let ghost ies = ies_of(entries@);
    w.write_length_determinant(entries.len());
    let ghost start = w@;
    let mut i: usize = 0;
    while i < entries.len()
        invariant
            w.wf(),
            i <= entries@.len(),
            ies == ies_of(entries@),
            ies_tagged(ies),
            ies_fit(ies),
            w@ == put_items(start, ies.take(i as int), ie_put()),
        decreases entries@.len() - i,
    {
        proof {
            assert(ies[i as int] == ie_of(entries@[i as int]));
            assert(ies.take(i + 1).drop_last() =~= ies.take(i as int));
        }
        let entry = &entries[i];
        w.write_constrained_int(entry.0 as u64, 0, PROTOCOL_IE_ID_MAX);
        w.write_constrained_int(entry.1 as u64, 0, CRITICALITY_MAX);
        w.write_octet_string(entry.2.as_slice());
        i += 1;
    }
    assert(ies.take(i as int) =~= ies);
}

fn read_ie(r: &mut PerReader) -> (e: Option<IeEntry>)
    requires
        old(r).wf(),
    ensures
        final(r).wf(),
        final(r).data() == old(r).data(),
        match get_ie(old(r).data(), old(r).pos()) {
            Some((x, p)) => e is Some && ie_of(e->0) == x && final(r).pos() == p,
            None => e is None,
        },
{
    let id: u64 = match r.read_constrained_int(0, PROTOCOL_IE_ID_MAX) {
        Some(v) => v,
        None => return None,
    };
    let criticality: u64 = match r.read_constrained_int(0, CRITICALITY_MAX) {
        Some(v) => v,
        None => return None,
    };
    match r.read_octet_string() {
        Some(value) => Some((id as u32, criticality as u8, value)),
        None => None,
    }
}

pub fn read_ie_container(r: &mut PerReader) -> (v: Option<Vec<IeEntry>>)
    requires
        old(r).wf(),
    ensures
        final(r).wf(),
        final(r).data() == old(r).data(),
        match get_container(old(r).data(), old(r).pos()) {
            Some((x, p)) => v is Some && ies_of(v->0@) == x && final(r).pos() == p,
            None => v is None,
        },
{
    let count: usize = match r.read_length_determinant() {
        Some(n) => n,
        None => return None,
    };
    let ghost start = r.pos();
    let ghost d = r.data();
    let mut out: Vec<IeEntry> = Vec::new();
    let mut i: usize = 0;
    assert(ies_of(out@) =~= Seq::<Ie>::empty());
    while i < count
        invariant
            r.wf(),
            r.data() == d,
            d == old(r).data(),
            i <= count,
            get_length(d, old(r).pos()) == Some((count as nat, start)),
            get_items(d, start, i as nat, ie_get()) == Some((ies_of(out@), r.pos())),
        decreases count - i,
    {
        match read_ie(r) {
            None => {
                proof {
                    lemma_items_none(d, start, (i + 1) as nat, count as nat, ie_get());
                }
                return None;
            },
            Some(e) => {
                let ghost before = out@;
                out.push(e);
                assert(ies_of(out@) =~= ies_of(before).push(ie_of(e)));
            },
        }
        i += 1;
    }
    Some(out)
}

pub fn encode_pdu_wrapper(choice: u64, procedure_code: u32, criticality: u8, value_bytes: &[u8]) -> (b: Bytes)
    requires
        choice <= PDU_CHOICE_MAX,
        procedure_code <= PROCEDURE_CODE_MAX,
        criticality <= CRITICALITY_MAX,
        value_bytes@.len() <= MAX_LENGTH,
    ensures
        octets_of(b) == pdu_octets(Pdu { choice, procedure_code, criticality, value: value_bytes@ }),
{
    let mut w = PerWriter::new();
    w.write_constrained_int(choice, 0, PDU_CHOICE_MAX);
    w.write_constrained_int(procedure_code as u64, 0, PROCEDURE_CODE_MAX);
    w.write_constrained_int(criticality as u64, 0, CRITICALITY_MAX);
    w.write_octet_string(value_bytes);
    bytes_from_vec(w.into_bytes())
}

/// Choice, procedure code, criticality and value of a PDU. The choice tells
/// a request from the response that shares its procedure code.
pub fn decode_pdu_wrapper(buf: &[u8]) -> (v: Option<(u64, u32, u8, Vec<u8>)>)
    ensures
        match get_pdu(buf@) {
            Some(pdu) => v is Some && pdu == (Pdu {
                choice: (v->0).0,
                procedure_code: (v->0).1,
                criticality: (v->0).2,
                value: (v->0).3@,
            }),
            None => v is None,
        },
{
    let mut r = PerReader::new(buf);
    let choice: u64 = match r.read_constrained_int(0, PDU_CHOICE_MAX) {
        Some(v) => v,
        None => return None,
    };
    let procedure_code: u64 = match r.read_constrained_int(0, PROCEDURE_CODE_MAX) {
        Some(v) => v,
        None => return None,
    };
    let criticality: u64 = match r.read_constrained_int(0, CRITICALITY_MAX) {
        Some(v) => v,
        None => return None,
    };
    match r.read_octet_string() {
        Some(value) => Some((choice, procedure_code as u32, criticality as u8, value)),
        None => None,
    }
}

/// Encodes a message from its IEs; `None` when some length in it cannot be
/// written.
pub fn encode_message(choice: u64, procedure_code: u32, criticality: u8, entries: &[IeEntry]) -> (b: Option<Bytes>)
    requires
        choice <= PDU_CHOICE_MAX,
        procedure_code <= PROCEDURE_CODE_MAX,
        criticality <= CRITICALITY_MAX,
        ies_tagged(ies_of(entries@)),
    ensures
        b is Some <==> message_fits(ies_of(entries@)),
        b is Some ==> octets_of(b->0) == message_octets(choice, procedure_code, criticality, ies_of(entries@)),
{
    let ghost ies = ies_of(entries@);
    if entries.len() > MAX_LENGTH {
        return None;
    }
    let mut i: usize = 0;
    while i < entries.len()
        invariant
            i <= entries@.len(),
            ies == ies_of(entries@),
            forall|k: int| 0 <= k < i ==> (#[trigger] ies[k]).value.len() <= MAX_LENGTH,
        decreases entries@.len() - i,
    {
        assert(ies[i as int] == ie_of(entries@[i as int]));
        if entries[i].2.len() > MAX_LENGTH {
            assert(!ies_fit(ies));
            return None;
        }
        i += 1;
    }
    let mut w = PerWriter::new();
    write_ie_container(&mut w, entries);
    let value = w.into_bytes();
    if value.len() > MAX_LENGTH {
        return None;
    }
    Some(encode_pdu_wrapper(choice, procedure_code, criticality, value.as_slice()))
}

/// The value of the last IE with that identifier.
pub fn last_ie_value<'a>(entries: &'a [IeEntry], id: u32) -> (v: Option<&'a Vec<u8>>)
    ensures
        match last_ie(ies_of(entries@), id) {
            Some(x) => v is Some && v->0@ == x,
            None => v is None,
        },
{
    let ghost ies = ies_of(entries@);
    let mut i: usize = entries.len();
    assert(ies.take(i as int) =~= ies);
    while i > 0
        invariant
            i <= entries@.len(),
            ies == ies_of(entries@),
            last_ie(ies, id) == last_ie(ies.take(i as int), id),
        decreases i,
    {
        i -= 1;
        proof {
            assert(ies.take(i + 1).drop_last() =~= ies.take(i as int));
            assert(ies.take(i + 1).last() == ie_of(entries@[i as int]));
        }
        if entries[i].0 == id {
            return Some(&entries[i].2);
        }
    }
    None
}

pub fn int_field(entries: &[IeEntry], id: u32, max: u64) -> (v: Option<u64>)
    ensures
        match int_in(ies_of(entries@), id, max) {
            Some(x) => v is Some && v->0 == x,
            None => v is None,
        },
        v is Some ==> v->0 <= max,
{
    match last_ie_value(entries, id) {
        Some(value) => {
            let mut r = PerReader::new(value.as_slice());
            r.read_constrained_int(0, max)
        },
        None => None,
    }
}

pub fn octet_string_field(entries: &[IeEntry], id: u32) -> (v: Option<Vec<u8>>)
    ensures
        match octet_string_in(ies_of(entries@), id) {
            Some(x) => v is Some && v->0@ == x,
            None => v is None,
        },
{
    match last_ie_value(entries, id) {
        Some(value) => {
            let mut r = PerReader::new(value.as_slice());
            r.read_octet_string()
        },
        None => None,
    }
}

/// Appends an IE whose value is one constrained integer of `0..=max`.
pub fn push_int(entries: &mut Vec<IeEntry>, id: u32, criticality: u8, v: u64, max: u64)
    requires
        v <= max,
    ensures
        ies_of(final(entries)@) == ies_of(old(entries)@).push(Ie { id, criticality, value: int_value(v as int, max) }),
{
    let mut w = PerWriter::new();
    w.write_constrained_int(v, 0, max);
    entries.push((id, criticality, w.into_bytes()));
    assert(ies_of(entries@) =~= ies_of(old(entries)@).push(Ie { id, criticality, value: int_value(v as int, max) }));
}

/// Appends an IE whose value is one octet string.
pub fn push_octet_string(entries: &mut Vec<IeEntry>, id: u32, criticality: u8, s: &[u8])
    requires
        s@.len() <= MAX_LENGTH,
    ensures
        ies_of(final(entries)@) == ies_of(old(entries)@).push(Ie { id, criticality, value: octet_string_value(s@) }),
{
    let mut w = PerWriter::new();
    w.write_octet_string(s);
    entries.push((id, criticality, w.into_bytes()));
    assert(ies_of(entries@) =~= ies_of(old(entries)@).push(Ie { id, criticality, value: octet_string_value(s@) }));
}

} // verus!
