//! Laws of the S1AP format: the procedure codes, the IEs of each message with
//! their identifiers, criticalities and octets, and what each decodes to.

use vstd::prelude::*;

use crate::ap::{get_container, get_pdu, int_in, last_ie, last_parsed, message_fits, octet_string_in, Ie};
use crate::ap_forms::{
    field_widths, ie_octets, int_value_forms, lemma_octets_packed, lemma_pad_behind_octets, lemma_pad_digits,
    message_form, octet_string_value_form,
};
use crate::ap_reading::{integers_at_an_octet_are_read, lemma_digits_are_read, lemma_two_octets};
use crate::error::ProtoError;
use crate::ngap::forms::four_octets;
use crate::per::{
    bits_to_octets, get_int, get_list, lemma_bits_len, lemma_bits_value, lemma_octets_concat, lemma_pack,
    lemma_packed_len, nat_to_bits, octets_to_bits, pad, put_int, put_items, put_length, put_list, value_of,
};
use crate::per_forms::{digits_join, items_octets, length_form, length_prefix, lemma_octet_digits, list_form};
use crate::s1ap::ie_ids::{
    CRITICALITY_IGNORE, CRITICALITY_NOTIFY, CRITICALITY_REJECT, PROCEDURE_CODE_MAX, PROTOCOL_IE_ID_MAX,
};
use crate::s1ap::messages::{
    DownlinkNasTransportView, ErabSetupItemView, ErabToSetupView, InitialContextSetupRequestView,
    InitialContextSetupResponseView, InitialUeMessageView, S1apMessageView, UplinkNasTransportView,
};
use crate::s1ap::wire;
use crate::s1ap::wire::{
    bit_rates_value, choice, criticality, downlink_nas_transport_ies, encodable, erab_id_get, erab_id_put,
    erab_ids_value, erab_setup_get, erab_setup_put, erab_to_setup_get, erab_to_setup_put, erabs_setup_value,
    erabs_to_setup_value, get_bit_rates, get_erab_ids, get_erabs_setup, get_erabs_to_setup, ies,
    initial_context_setup_request_ies, initial_context_setup_response_ies, initial_ue_message_ies, lemma_tagged,
    message, message_from, octets, octets_in, octets_value, procedure_code, supported, uplink_nas_transport_ies,
};

verus! {

/// A number in three octets, most significant first.
pub open spec fn three_octets(v: u32) -> Seq<u8> {
    seq![(v / 0x1_0000) as u8, (v / 0x100 % 256) as u8, (v % 256) as u8]
}

// ── Values ────────────────────────────────────────────────────────────────────

/// Bit rates are two numbers of 34 binary digits, filled up with four zeros;
/// octets of a fixed number are themselves.
pub proof fn fixed_value_forms(ambr: (u64, u64), s: Seq<u8>)
    ensures
        octets_to_bits(bit_rates_value(ambr)) == nat_to_bits(ambr.0 as nat, 34) + nat_to_bits(ambr.1 as nat, 34) + seq![
            false,
            false,
            false,
            false,
        ],
        bit_rates_value(ambr).len() == 9,
        octets_value(s) == s,
{
    field_widths();
    lemma_bits_len(ambr.0 as nat, 34);
    lemma_bits_len(ambr.1 as nat, 34);
    let w = put_int(put_int(Seq::empty(), ambr.0 as int, 0, 10_000_000_000), ambr.1 as int, 0, 10_000_000_000);
    assert(w =~= nat_to_bits(ambr.0 as nat, 34) + nat_to_bits(ambr.1 as nat, 34));
    lemma_pack(w);
    lemma_packed_len(w);
    assert(pad(w) =~= w + seq![false, false, false, false]);
    lemma_octets_packed(s);
}

/// The octets of an E-RAB to set up: its number in four bits, the QCI in the
/// next eight, the TEID, the address.
pub open spec fn erab_to_setup_octets(s: ErabToSetupView) -> Seq<u8> {
    seq![(s.erab_id * 16 + s.qci / 16) as u8, (s.qci % 16 * 16) as u8] + s.gtp_teid + s.transport_layer_addr
}

/// The octets of an E-RAB that is set up: its number in four bits, the
/// address, the TEID.
pub open spec fn erab_setup_octets(s: ErabSetupItemView) -> Seq<u8> {
    seq![(s.e_rab_id * 16) as u8] + s.transport_layer_addr + s.gtp_teid
}

proof fn lemma_erab_to_setup(e: Seq<u8>, s: ErabToSetupView)
    requires
        s.erab_id <= 15,
    ensures
        (erab_to_setup_put())(octets_to_bits(e), s) == octets_to_bits(e + erab_to_setup_octets(s)),
{
    field_widths();
    vstd::arithmetic::power2::lemma2_to64();
    let a = s.erab_id as nat;
    let b = s.qci as nat;
    let v = (a * 256 + b) * 16;
    let head = seq![(s.erab_id * 16 + s.qci / 16) as u8, (s.qci % 16 * 16) as u8];
    let w = put_int(put_int(octets_to_bits(e), s.erab_id as int, 0, 15), s.qci as int, 0, 255);
    digits_join(a, b, 4, 8);
    assert(w =~= octets_to_bits(e) + nat_to_bits(a * 256 + b, 12));
    lemma_pad_behind_octets(e, nat_to_bits(a * 256 + b, 12));
    lemma_pad_digits(a * 256 + b, 12, 4);
    lemma_octet_digits(v);
    assert(v / 256 == a * 16 + b / 16 && v % 256 == b % 16 * 16);
    assert(head =~= seq![(v / 256) as u8, (v % 256) as u8]);
    lemma_octets_concat(e, head);
    assert(pad(w) == octets_to_bits(e + head));
    lemma_octets_concat(e + head, s.gtp_teid);
    lemma_octets_concat(e + head + s.gtp_teid, s.transport_layer_addr);
    assert(e + head + s.gtp_teid + s.transport_layer_addr =~= e + erab_to_setup_octets(s));
}

proof fn lemma_erab_setup(e: Seq<u8>, s: ErabSetupItemView)
    requires
        s.e_rab_id <= 15,
    ensures
        (erab_setup_put())(octets_to_bits(e), s) == octets_to_bits(e + erab_setup_octets(s)),
{
    field_widths();
    vstd::arithmetic::power2::lemma2_to64();
    let a = s.e_rab_id as nat;
    let head = seq![(s.e_rab_id * 16) as u8];
    let w = put_int(octets_to_bits(e), s.e_rab_id as int, 0, 15);
    lemma_pad_behind_octets(e, nat_to_bits(a, 4));
    lemma_pad_digits(a, 4, 4);
    lemma_octet_digits(a * 16);
    lemma_octets_concat(e, head);
    assert(pad(w) == octets_to_bits(e + head));
    lemma_octets_concat(e + head, s.transport_layer_addr);
    lemma_octets_concat(e + head + s.transport_layer_addr, s.gtp_teid);
    assert(e + head + s.transport_layer_addr + s.gtp_teid =~= e + erab_setup_octets(s));
}

/// Lists of E-RABs are their number and their octets.
pub proof fn erab_list_forms(to_setup: Seq<ErabToSetupView>, setup: Seq<ErabSetupItemView>)
    requires
        to_setup.len() <= 16383,
        setup.len() <= 16383,
        forall|i: int| 0 <= i < to_setup.len() ==> (#[trigger] to_setup[i]).erab_id <= 15,
        forall|i: int| 0 <= i < setup.len() ==> (#[trigger] setup[i]).e_rab_id <= 15,
    ensures
        erabs_to_setup_value(to_setup) == length_prefix(to_setup.len()) + items_octets(
            to_setup,
            |s: ErabToSetupView| erab_to_setup_octets(s),
        ),
        erabs_setup_value(setup) == length_prefix(setup.len()) + items_octets(
            setup,
            |s: ErabSetupItemView| erab_setup_octets(s),
        ),
{
    let f1 = |s: ErabToSetupView| erab_to_setup_octets(s);
    assert forall|e: Seq<u8>, i: int| 0 <= i < to_setup.len() implies #[trigger] (erab_to_setup_put())(
        octets_to_bits(e),
        to_setup[i],
    ) == octets_to_bits(e + f1(to_setup[i])) by {
        lemma_erab_to_setup(e, to_setup[i]);
    }
    list_form(to_setup, erab_to_setup_put(), f1);
    let f2 = |s: ErabSetupItemView| erab_setup_octets(s);
    assert forall|e: Seq<u8>, i: int| 0 <= i < setup.len() implies #[trigger] (erab_setup_put())(
        octets_to_bits(e),
        setup[i],
    ) == octets_to_bits(e + f2(setup[i])) by {
        lemma_erab_setup(e, setup[i]);
    }
    list_form(setup, erab_setup_put(), f2);
}

proof fn lemma_nibbles(w: Seq<bool>, ids: Seq<u8>, i: int)
    requires
        0 <= i < ids.len(),
    ensures
        put_items(w, ids, erab_id_put()).len() == w.len() + 4 * ids.len(),
        put_items(w, ids, erab_id_put()).subrange(0, w.len() as int) == w,
        put_items(w, ids, erab_id_put()).subrange(w.len() + 4 * i, w.len() + 4 * i + 4) == nat_to_bits(
            ids[i] as nat,
            4,
        ),
    decreases ids.len(),
{
    field_widths();
    let head = ids.drop_last();
    let before = put_items(w, head, erab_id_put());
    let all = put_items(w, ids, erab_id_put());
    lemma_bits_len(ids.last() as nat, 4);
    assert(all == before + nat_to_bits(ids.last() as nat, 4));
    if head.len() > 0 {
        lemma_nibbles(
            w,
            head,
            if i < head.len() {
                i
            } else {
                0
            },
        );
    }
    assert(before.len() == w.len() + 4 * head.len());
    assert(before.subrange(0, w.len() as int) =~= w);
    assert(all.subrange(0, w.len() as int) =~= before.subrange(0, w.len() as int));
    if i < head.len() {
        assert(all.subrange(w.len() + 4 * i, w.len() + 4 * i + 4) =~= before.subrange(
            w.len() + 4 * i,
            w.len() + 4 * i + 4,
        ));
    } else {
        assert(all.subrange(w.len() + 4 * i, w.len() + 4 * i + 4) =~= nat_to_bits(ids[i] as nat, 4));
    }
}

/// The E-RABs that failed are their number, then four bits for each.
pub proof fn erab_ids_form(ids: Seq<u8>, i: int)
    requires
        ids.len() <= 16383,
        0 <= i < ids.len(),
    ensures
        ({
            let prefix = length_prefix(ids.len());
            let d = erab_ids_value(ids);
            let start = 8 * prefix.len() + 4 * i;
            &&& d.len() == prefix.len() + (ids.len() + 1) / 2
            &&& d.subrange(0, prefix.len() as int) == prefix
            &&& octets_to_bits(d).subrange(start, start + 4) == nat_to_bits(ids[i] as nat, 4)
        }),
{
    let e = Seq::<bool>::empty();
    let prefix = length_prefix(ids.len());
    length_form(e, ids.len());
    let w = put_length(e, ids.len());
    assert(pad(e) =~= e);
    assert(w =~= octets_to_bits(prefix));
    assert(w.len() == 8 * prefix.len());
    lemma_nibbles(w, ids, i);
    let x = put_items(w, ids, erab_id_put());
    let d = bits_to_octets(x);
    lemma_pack(x);
    lemma_packed_len(x);
    let start = 8 * prefix.len() + 4 * i;
    assert(octets_to_bits(d).subrange(start, start + 4) =~= x.subrange(start, start + 4));
    crate::per::lemma_octets_subrange(d, 0, prefix.len() as int);
    assert(octets_to_bits(d).subrange(0, 8 * prefix.len() as int) =~= x.subrange(0, w.len() as int));
    crate::per::lemma_octets_injective(d.subrange(0, prefix.len() as int), prefix);
}

// ── Messages ──────────────────────────────────────────────────────────────────

/// Procedure codes, and which message is an answer: that has PDU choice 1.
pub proof fn message_heads(m: S1apMessageView)
    ensures
        CRITICALITY_REJECT == 0 && CRITICALITY_IGNORE == 1 && CRITICALITY_NOTIFY == 2,
        PROTOCOL_IE_ID_MAX == 65_535 && PROCEDURE_CODE_MAX == 255,
        m is InitialUeMessage ==> procedure_code(m) == 12 && choice(m) == 0 && criticality(m) == 1,
        m is UplinkNasTransport ==> procedure_code(m) == 13 && choice(m) == 0 && criticality(m) == 1,
        m is DownlinkNasTransport ==> procedure_code(m) == 11 && choice(m) == 0 && criticality(m) == 1,
        m is InitialContextSetupRequest ==> procedure_code(m) == 9 && choice(m) == 0 && criticality(m) == 0,
        m is InitialContextSetupResponse ==> procedure_code(m) == 9 && choice(m) == 1 && criticality(m) == 0,
{
}

/// The octets of a message: the head of its PDU, and a container with its IEs.
pub proof fn message_octet_form(m: S1apMessageView)
    requires
        encodable(m),
    ensures
        ({
            let container = length_prefix(ies(m).len()) + items_octets(ies(m), |ie: Ie| ie_octets(ie));
            octets(m) == seq![
                (choice(m) * 64 + procedure_code(m) / 4) as u8,
                (procedure_code(m) % 4 * 64 + criticality(m) * 16) as u8,
            ] + length_prefix(container.len()) + container
        }),
{
    lemma_tagged(m);
    message_form(choice(m), procedure_code(m), criticality(m), ies(m));
}

/// The IEs of InitialUEMessage.
pub proof fn initial_ue_message_form(m: InitialUeMessageView)
    requires
        m.nas_pdu.len() <= 16383,
        m.enb_ue_s1ap_id <= 16_777_215,
        m.rrc_cause <= 15,
    ensures
        initial_ue_message_ies(m) == seq![
            Ie { id: 8, criticality: 0, value: three_octets(m.enb_ue_s1ap_id) },
            Ie { id: 26, criticality: 0, value: length_prefix(m.nas_pdu.len()) + m.nas_pdu },
            Ie { id: 67, criticality: 1, value: m.tai },
            Ie { id: 100, criticality: 1, value: m.eutran_cgi },
            Ie { id: 134, criticality: 1, value: seq![(m.rrc_cause * 16) as u8] },
        ],
{
    int_value_forms(m.enb_ue_s1ap_id);
    int_value_forms(m.rrc_cause as u32);
    octet_string_value_form(m.nas_pdu);
    lemma_octets_packed(m.tai);
    lemma_octets_packed(m.eutran_cgi);
}

/// The IEs of UplinkNASTransport and of DownlinkNASTransport.
pub proof fn nas_transport_forms(up: UplinkNasTransportView, down: DownlinkNasTransportView)
    requires
        up.nas_pdu.len() <= 16383,
        down.nas_pdu.len() <= 16383,
        up.enb_ue_s1ap_id <= 16_777_215,
        down.enb_ue_s1ap_id <= 16_777_215,
    ensures
        uplink_nas_transport_ies(up) == seq![
            Ie { id: 0, criticality: 0, value: four_octets(up.mme_ue_s1ap_id) },
            Ie { id: 8, criticality: 0, value: three_octets(up.enb_ue_s1ap_id) },
            Ie { id: 26, criticality: 0, value: length_prefix(up.nas_pdu.len()) + up.nas_pdu },
            Ie { id: 67, criticality: 1, value: up.tai },
            Ie { id: 100, criticality: 1, value: up.eutran_cgi },
        ],
        downlink_nas_transport_ies(down) == seq![
            Ie { id: 0, criticality: 0, value: four_octets(down.mme_ue_s1ap_id) },
            Ie { id: 8, criticality: 0, value: three_octets(down.enb_ue_s1ap_id) },
            Ie { id: 26, criticality: 0, value: length_prefix(down.nas_pdu.len()) + down.nas_pdu },
        ],
{
    int_value_forms(up.mme_ue_s1ap_id);
    int_value_forms(up.enb_ue_s1ap_id);
    int_value_forms(down.mme_ue_s1ap_id);
    int_value_forms(down.enb_ue_s1ap_id);
    octet_string_value_form(up.nas_pdu);
    octet_string_value_form(down.nas_pdu);
    lemma_octets_packed(up.tai);
    lemma_octets_packed(up.eutran_cgi);
}

/// The IEs of InitialContextSetupRequest: those that are empty are left out.
pub proof fn context_setup_request_form(m: InitialContextSetupRequestView)
    requires
        m.nas_pdu is Some ==> m.nas_pdu->0.len() <= 16383,
        m.enb_ue_s1ap_id <= 16_777_215,
    ensures
        initial_context_setup_request_ies(m) == seq![
            Ie { id: 0, criticality: 0, value: four_octets(m.mme_ue_s1ap_id) },
            Ie { id: 8, criticality: 0, value: three_octets(m.enb_ue_s1ap_id) },
            Ie { id: 66, criticality: 0, value: bit_rates_value(m.ue_ambr) },
            Ie { id: 73, criticality: 0, value: m.security_key },
        ] + (if m.e_rabs.len() == 0 {
            Seq::empty()
        } else {
            seq![Ie { id: 24, criticality: 0, value: erabs_to_setup_value(m.e_rabs) }]
        }) + (match m.nas_pdu {
            None => Seq::empty(),
            Some(nas_pdu) => seq![Ie { id: 26, criticality: 0, value: length_prefix(nas_pdu.len()) + nas_pdu }],
        }),
{
    int_value_forms(m.mme_ue_s1ap_id);
    int_value_forms(m.enb_ue_s1ap_id);
    lemma_octets_packed(m.security_key);
    if m.nas_pdu is Some {
        octet_string_value_form(m.nas_pdu->0);
    }
}

/// The IEs of InitialContextSetupResponse: those that are empty are left out.
pub proof fn context_setup_response_form(m: InitialContextSetupResponseView)
    requires
        m.enb_ue_s1ap_id <= 16_777_215,
    ensures
        initial_context_setup_response_ies(m) == seq![
            Ie { id: 0, criticality: 0, value: four_octets(m.mme_ue_s1ap_id) },
            Ie { id: 8, criticality: 0, value: three_octets(m.enb_ue_s1ap_id) },
        ] + (if m.e_rabs_setup.len() == 0 {
            Seq::empty()
        } else {
            seq![Ie { id: 51, criticality: 0, value: erabs_setup_value(m.e_rabs_setup) }]
        }) + (if m.e_rabs_failed.len() == 0 {
            Seq::empty()
        } else {
            seq![Ie { id: 48, criticality: 1, value: erab_ids_value(m.e_rabs_failed) }]
        }),
{
    int_value_forms(m.mme_ue_s1ap_id);
    int_value_forms(m.enb_ue_s1ap_id);
}

/// Which messages can be sent: those of five kinds whose fields are within
/// their ranges and whose IEs fit.
pub proof fn what_is_encodable(m: S1apMessageView)
    ensures
        encodable(m) <==> message_fits(ies(m)) && match m {
            S1apMessageView::InitialUeMessage(v) => {
                v.nas_pdu.len() <= 16383 && v.tai.len() == 5 && v.eutran_cgi.len() == 7 && v.rrc_cause <= 15
                    && v.enb_ue_s1ap_id <= 16_777_215
            },
            S1apMessageView::UplinkNasTransport(v) => {
                v.nas_pdu.len() <= 16383 && v.tai.len() == 5 && v.eutran_cgi.len() == 7 && v.enb_ue_s1ap_id
                    <= 16_777_215
            },
            S1apMessageView::DownlinkNasTransport(v) => v.nas_pdu.len() <= 16383 && v.enb_ue_s1ap_id <= 16_777_215,
            S1apMessageView::InitialContextSetupRequest(v) => {
                &&& v.enb_ue_s1ap_id <= 16_777_215
                &&& v.ue_ambr.0 <= 10_000_000_000 && v.ue_ambr.1 <= 10_000_000_000
                &&& v.security_key.len() == 32
                &&& v.nas_pdu is Some ==> v.nas_pdu->0.len() <= 16383
                &&& v.e_rabs.len() <= 16383
                &&& forall|i: int|
                    0 <= i < v.e_rabs.len() ==> (#[trigger] v.e_rabs[i]).erab_id <= 15 && v.e_rabs[i].gtp_teid.len()
                        == 4 && v.e_rabs[i].transport_layer_addr.len() == 4
            },
            S1apMessageView::InitialContextSetupResponse(v) => {
                &&& v.enb_ue_s1ap_id <= 16_777_215
                &&& v.e_rabs_setup.len() <= 16383 && v.e_rabs_failed.len() <= 16383
                &&& forall|i: int|
                    0 <= i < v.e_rabs_setup.len() ==> (#[trigger] v.e_rabs_setup[i]).e_rab_id <= 15
                        && v.e_rabs_setup[i].gtp_teid.len() == 4 && v.e_rabs_setup[i].transport_layer_addr.len() == 4
                &&& forall|i: int| 0 <= i < v.e_rabs_failed.len() ==> #[trigger] v.e_rabs_failed[i] <= 15
            },
            _ => false,
        },
        supported(m) <==> {
            ||| m is InitialUeMessage
            ||| m is UplinkNasTransport
            ||| m is DownlinkNasTransport
            ||| m is InitialContextSetupRequest
            ||| m is InitialContextSetupResponse
        },
{
}

// ── Reading ───────────────────────────────────────────────────────────────────

/// Values of a fixed form are read from the first octets of an IE.
pub proof fn fixed_values_are_read(ies: Seq<Ie>, id: u32, n: nat, d: Seq<u8>)
    ensures
        octets_in(ies, id, n) is Some <==> last_ie(ies, id) is Some && last_ie(ies, id)->0.len() >= n,
        octets_in(ies, id, n) is Some ==> octets_in(ies, id, n) == Some(last_ie(ies, id)->0.subrange(0, n as int)),
        (get_bit_rates())(d) is Some <==> get_int(d, 0, 0, 10_000_000_000) is Some && get_int(
            d,
            34,
            0,
            10_000_000_000,
        ) is Some,
        (get_bit_rates())(d) is Some ==> (get_bit_rates())(d) == Some(
            ((get_int(d, 0, 0, 10_000_000_000)->0).0 as u64, (get_int(d, 34, 0, 10_000_000_000)->0).0 as u64),
        ),
{
    field_widths();
}

/// An E-RAB is read from the octet where it starts.
pub proof fn erabs_are_read(d: Seq<u8>, k: nat)
    ensures
        (erab_to_setup_get())(d, 8 * k) == if k + 10 <= d.len() {
            Some(
                (
                    ErabToSetupView {
                        erab_id: (d[k as int] / 16) as u8,
                        qci: (d[k as int] % 16 * 16 + d[k as int + 1] / 16) as u8,
                        gtp_teid: d.subrange(k as int + 2, k as int + 6),
                        transport_layer_addr: d.subrange(k as int + 6, k as int + 10),
                    },
                    8 * (k + 10),
                ),
            )
        } else {
            None
        },
        (erab_setup_get())(d, 8 * k) == if k + 9 <= d.len() {
            Some(
                (
                    ErabSetupItemView {
                        e_rab_id: (d[k as int] / 16) as u8,
                        transport_layer_addr: d.subrange(k as int + 1, k as int + 5),
                        gtp_teid: d.subrange(k as int + 5, k as int + 9),
                    },
                    8 * (k + 9),
                ),
            )
        } else {
            None
        },
        (get_erabs_to_setup())(d) == value_of(get_list(d, 0, erab_to_setup_get())),
        (get_erabs_setup())(d) == value_of(get_list(d, 0, erab_setup_get())),
        (get_erab_ids())(d) == value_of(get_list(d, 0, erab_id_get())),
{
    integers_at_an_octet_are_read(d, k);
    field_widths();
    if k + 2 <= d.len() {
        let x = d[k as int] as nat;
        let y = d[k as int + 1] as nat;
        let a = x / 16;
        let b = x % 16 * 16 + y / 16;
        let r = y % 16;
        lemma_two_octets(d, k);
        vstd::arithmetic::power2::lemma2_to64();
        digits_join(a, b, 4, 8);
        digits_join(a * 256 + b, r, 12, 4);
        assert((a * 256 + b) * 16 + r == x * 256 + y);
        lemma_bits_len(a, 4);
        lemma_bits_len(b, 8);
        let all = octets_to_bits(d);
        let here = all.subrange(8 * k as int, 8 * k as int + 16);
        assert(all.subrange(8 * k as int + 4, 8 * k as int + 12) =~= here.subrange(4, 12));
        assert(here.subrange(4, 12) =~= nat_to_bits(b, 8));
        lemma_bits_value(b, 255, 8);
        lemma_digits_are_read(d, 8 * k + 4, b, 255, 8);
    }
}

/// The number of an E-RAB that failed is four bits, wherever they stand.
pub proof fn erab_ids_are_read(d: Seq<u8>, pos: nat)
    ensures
        ({
            let v = get_int(d, pos, 0, 15);
            &&& (erab_id_get())(d, pos) is Some <==> v is Some
            &&& v is Some ==> (erab_id_get())(d, pos) == Some(((v->0).0 as u8, (v->0).1))
            &&& v is Some <==> pos + 4 <= 8 * d.len()
        }),
{
    field_widths();
    if pos + 4 <= 8 * d.len() {
        let s = octets_to_bits(d).subrange(pos as int, pos as int + 4);
        let s3 = s.drop_last();
        let s2 = s3.drop_last();
        let s1 = s2.drop_last();
        let s0 = s1.drop_last();
        assert(crate::per::bits_to_nat(s0) == 0);
        assert(crate::per::bits_to_nat(s1) <= 1);
        assert(crate::per::bits_to_nat(s2) <= 3);
        assert(crate::per::bits_to_nat(s3) <= 7);
        assert(crate::per::bits_to_nat(s) <= 15);
    }
}

/// The outcome for what is no message.
pub open spec fn refused(reason: &'static str) -> Result<S1apMessageView, ProtoError> {
    Err(ProtoError::MalformedS1ap { reason })
}

/// What the IEs of each procedure are read as, and which error comes where one
/// is missing.
#[verifier::spinoff_prover]
pub proof fn transports_are_read(pdu_choice: u64, v: Seq<Ie>)
    ensures
        ({
            let mme = int_in(v, 0, 4_294_967_295);
            let enb = int_in(v, 8, 16_777_215);
            let nas = octet_string_in(v, 26);
            let rrc = int_in(v, 134, 15);
            let tai = octets_in(v, 67, 5);
            let cgi = octets_in(v, 100, 7);
            &&& message_from(pdu_choice, 12, v) == if enb is None {
                refused("missing eNB-UE-S1AP-ID")
            } else if nas is None {
                refused("missing NAS-PDU")
            } else if tai is None {
                refused("missing TAI")
            } else if cgi is None {
                refused("missing E-UTRAN CGI")
            } else if rrc is None {
                refused("missing RRC-Establishment-Cause")
            } else {
                Ok(
                    S1apMessageView::InitialUeMessage(
                        InitialUeMessageView {
                            enb_ue_s1ap_id: enb->0 as u32,
                            nas_pdu: nas->0,
                            tai: tai->0,
                            eutran_cgi: cgi->0,
                            rrc_cause: rrc->0 as u8,
                        },
                    ),
                )
            }
            &&& message_from(pdu_choice, 13, v) == if mme is None {
                refused("missing MME-UE-S1AP-ID")
            } else if enb is None {
                refused("missing eNB-UE-S1AP-ID")
            } else if nas is None {
                refused("missing NAS-PDU")
            } else if tai is None {
                refused("missing TAI")
            } else if cgi is None {
                refused("missing E-UTRAN CGI")
            } else {
                Ok(
                    S1apMessageView::UplinkNasTransport(
                        UplinkNasTransportView {
                            mme_ue_s1ap_id: mme->0 as u32,
                            enb_ue_s1ap_id: enb->0 as u32,
                            nas_pdu: nas->0,
                            tai: tai->0,
                            eutran_cgi: cgi->0,
                        },
                    ),
                )
            }
            &&& message_from(pdu_choice, 11, v) == if mme is None {
                refused("missing MME-UE-S1AP-ID")
            } else if enb is None {
                refused("missing eNB-UE-S1AP-ID")
            } else if nas is None {
                refused("missing NAS-PDU")
            } else {
                Ok(
                    S1apMessageView::DownlinkNasTransport(
                        DownlinkNasTransportView {
                            mme_ue_s1ap_id: mme->0 as u32,
                            enb_ue_s1ap_id: enb->0 as u32,
                            nas_pdu: nas->0,
                        },
                    ),
                )
            }
        }),
{
}

/// The same of context setup, where the PDU choice tells the request from its
/// answer. Lists that are missing or unreadable are empty.
#[verifier::spinoff_prover]
pub proof fn contexts_are_read(v: Seq<Ie>)
    ensures
        ({
            let mme = int_in(v, 0, 4_294_967_295);
            let enb = int_in(v, 8, 16_777_215);
            let rates = last_parsed(v, 66, get_bit_rates());
            let key = octets_in(v, 73, 32);
            let to_setup = last_parsed(v, 24, get_erabs_to_setup());
            let setup = last_parsed(v, 51, get_erabs_setup());
            let failed = last_parsed(v, 48, get_erab_ids());
            &&& message_from(0, 9, v) == if mme is None {
                refused("missing MME-UE-S1AP-ID")
            } else if enb is None {
                refused("missing eNB-UE-S1AP-ID")
            } else if rates is None {
                refused("missing UE-AggregateMaximumBitrate")
            } else if key is None {
                refused("missing SecurityKey")
            } else {
                Ok(
                    S1apMessageView::InitialContextSetupRequest(
                        InitialContextSetupRequestView {
                            mme_ue_s1ap_id: mme->0 as u32,
                            enb_ue_s1ap_id: enb->0 as u32,
                            e_rabs: match to_setup {
                                Some(s) => s,
                                None => Seq::empty(),
                            },
                            nas_pdu: octet_string_in(v, 26),
                            ue_ambr: rates->0,
                            security_key: key->0,
                        },
                    ),
                )
            }
            &&& message_from(1, 9, v) == if mme is None {
                refused("missing MME-UE-S1AP-ID")
            } else if enb is None {
                refused("missing eNB-UE-S1AP-ID")
            } else {
                Ok(
                    S1apMessageView::InitialContextSetupResponse(
                        InitialContextSetupResponseView {
                            mme_ue_s1ap_id: mme->0 as u32,
                            enb_ue_s1ap_id: enb->0 as u32,
                            e_rabs_setup: match setup {
                                Some(s) => s,
                                None => Seq::empty(),
                            },
                            e_rabs_failed: match failed {
                                Some(s) => s,
                                None => Seq::empty(),
                            },
                        },
                    ),
                )
            }
        }),
{
}

/// What is said of a message that cannot be sent, and of one that is not known.
pub proof fn refusals_are_explained(d: Seq<u8>)
    ensures
        wire::REASON_UNSUPPORTED_MESSAGE@
            == "PER encoding not yet implemented for this S1AP message — only InitialUEMessage/Uplink/DownlinkNASTransport/InitialContextSetupRequest/Response"@,
        wire::REASON_NOT_ENCODABLE@
            == "a field is outside its PER range, or a length above what a length determinant carries"@,
        wire::REASON_UNSUPPORTED_PROCEDURE@
            == "unsupported procedure code — only InitialUEMessage/Uplink/DownlinkNASTransport/InitialContextSetupRequest/Response"@,
        get_pdu(d) is Some && get_container(get_pdu(d)->0.value, 0) is Some ==> {
            let code = get_pdu(d)->0.procedure_code;
            let choice = get_pdu(d)->0.choice;
            !(code == 11 || code == 12 || code == 13 || (code == 9 && (choice == 0 || choice == 1))) ==> message(d)
                == refused(wire::REASON_UNSUPPORTED_PROCEDURE)
        },
{
}

/// Octets are a message if and only if they are a PDU around a container of a
/// known procedure with its IEs.
pub proof fn octets_are_read(d: Seq<u8>)
    ensures
        get_pdu(d) is None ==> message(d) == refused("failed to decode PDU wrapper"),
        get_pdu(d) is Some && get_container(get_pdu(d)->0.value, 0) is None ==> message(d) == refused(
            "failed to decode IE container",
        ),
        get_pdu(d) is Some && get_container(get_pdu(d)->0.value, 0) is Some ==> message(d) == message_from(
            get_pdu(d)->0.choice,
            get_pdu(d)->0.procedure_code,
            (get_container(get_pdu(d)->0.value, 0)->0).0,
        ),
        message(d) is Ok ==> {
            let code = get_pdu(d)->0.procedure_code;
            let choice = get_pdu(d)->0.choice;
            code == 11 || code == 12 || code == 13 || (code == 9 && (choice == 0 || choice == 1))
        },
{
}

} // verus!
