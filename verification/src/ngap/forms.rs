//! Laws of the NGAP format: the procedure codes, the IEs of each message with
//! their identifiers, criticalities and octets, and what each decodes to.

use vstd::prelude::*;

use crate::ap::{get_container, get_pdu, int_in, last_ie, last_parsed, message_fits, octet_string_in, Ie};
use crate::ap_forms::{
    field_widths, ie_octets, int_value_forms, lemma_octets_packed, lemma_pad_behind_octets, lemma_pad_digits,
    message_form, octet_string_value_form,
};
use crate::ap_reading::integers_at_an_octet_are_read;
use crate::error::ProtoError;
use crate::ngap::ie_ids::{
    CRITICALITY_IGNORE, CRITICALITY_NOTIFY, CRITICALITY_REJECT, PROCEDURE_CODE_MAX, PROTOCOL_IE_ID_MAX,
};
use crate::ngap::messages::{
    DownlinkNasTransportView, InitialContextSetupRequestView, InitialContextSetupResponseView, InitialUeMessageView,
    NgapCause, NgapMessageView, PduSessionSetupItemView, PduSessionToSetupView, UeContextReleaseCompleteView,
    UplinkNasTransportView,
};
use crate::ngap::wire;
use crate::ngap::wire::{
    bit_rates_value, cause_in, choice, criticality, downlink_nas_transport_ies, encodable, get_bit_rates, get_key,
    get_session_ids, get_sessions_setup, get_sessions_to_setup, ies, initial_context_setup_request_ies,
    initial_context_setup_response_ies, initial_ue_message_ies, items_in, lemma_tagged, location_in, location_value,
    message, message_from, octets, procedure_code, session_id_get, session_id_put, session_ids_value,
    session_setup_get, session_setup_put, session_to_setup_get, session_to_setup_ok, session_to_setup_put, sessions_setup_value,
    sessions_to_setup_value, supported, ue_context_release_command_ies, ue_context_release_complete_ies,
    uplink_nas_transport_ies,
};
use crate::per::{
    bits_to_octets, get_int, get_list, get_octets, lemma_bits_len, lemma_octets_concat, lemma_pack, nat_to_bits,
    octets_to_bits, pad, put_int, put_octets, value_of,
};
use crate::per_forms::{items_octets, length_prefix, lemma_octet_digits, list_form};

verus! {

/// A number in four octets, most significant first.
pub open spec fn four_octets(v: u32) -> Seq<u8> {
    seq![(v / 0x100_0000) as u8, (v / 0x1_0000 % 256) as u8, (v / 0x100 % 256) as u8, (v % 256) as u8]
}

// ── Values ────────────────────────────────────────────────────────────────────

/// A location is the nine octets of the NR-CGI, then the six of the TAI.
pub proof fn location_form(nr_cgi: Seq<u8>, tai: Seq<u8>)
    ensures
        location_value(nr_cgi, tai) == nr_cgi + tai,
{
    lemma_octets_concat(nr_cgi, tai);
    let w = put_octets(put_octets(Seq::empty(), nr_cgi), tai);
    assert(w =~= octets_to_bits(nr_cgi + tai));
    lemma_octets_packed(nr_cgi + tai);
}

/// Bit rates are two numbers of 42 binary digits, filled up with four zeros.
pub proof fn bit_rates_form(ambr: (u64, u64))
    ensures
        octets_to_bits(bit_rates_value(ambr)) == nat_to_bits(ambr.0 as nat, 42) + nat_to_bits(ambr.1 as nat, 42) + seq![
            false,
            false,
            false,
            false,
        ],
        bit_rates_value(ambr).len() == 11,
{
    field_widths();
    lemma_bits_len(ambr.0 as nat, 42);
    lemma_bits_len(ambr.1 as nat, 42);
    let w = put_int(put_int(Seq::empty(), ambr.0 as int, 0, 4_000_000_000_000), ambr.1 as int, 0, 4_000_000_000_000);
    assert(w =~= nat_to_bits(ambr.0 as nat, 42) + nat_to_bits(ambr.1 as nat, 42));
    lemma_pack(w);
    crate::per::lemma_packed_len(w);
    assert(pad(w) =~= w + seq![false, false, false, false]);
}

/// The octets of a session to set up: its number, the QFI in the six highest
/// bits, the TEID, the address.
pub open spec fn session_to_setup_octets(s: PduSessionToSetupView) -> Seq<u8> {
    seq![s.pdu_session_id, (s.qfi * 4) as u8] + s.gtp_teid + s.transport_layer_addr
}

/// The octets of a session that is set up: its number, the address, the TEID.
pub open spec fn session_setup_octets(s: PduSessionSetupItemView) -> Seq<u8> {
    seq![s.pdu_session_id] + s.transport_layer_addr + s.gtp_teid
}

/// Lists of sessions are their number and their octets.
pub proof fn session_list_forms(
    to_setup: Seq<PduSessionToSetupView>,
    setup: Seq<PduSessionSetupItemView>,
    failed: Seq<u8>,
)
    requires
        to_setup.len() <= 16383,
        setup.len() <= 16383,
        failed.len() <= 16383,
        forall|i: int| 0 <= i < to_setup.len() ==> (#[trigger] to_setup[i]).qfi <= 63,
    ensures
        sessions_to_setup_value(to_setup) == length_prefix(to_setup.len()) + items_octets(
            to_setup,
            |s: PduSessionToSetupView| session_to_setup_octets(s),
        ),
        sessions_setup_value(setup) == length_prefix(setup.len()) + items_octets(
            setup,
            |s: PduSessionSetupItemView| session_setup_octets(s),
        ),
        session_ids_value(failed) == length_prefix(failed.len()) + failed,
{
    field_widths();
    let f1 = |s: PduSessionToSetupView| session_to_setup_octets(s);
    assert forall|e: Seq<u8>, i: int| 0 <= i < to_setup.len() implies #[trigger] (session_to_setup_put())(
        octets_to_bits(e),
        to_setup[i],
    ) == octets_to_bits(e + f1(to_setup[i])) by {
        lemma_session_to_setup(e, to_setup[i]);
    }
    list_form(to_setup, session_to_setup_put(), f1);
    let f2 = |s: PduSessionSetupItemView| session_setup_octets(s);
    assert forall|e: Seq<u8>, i: int| 0 <= i < setup.len() implies #[trigger] (session_setup_put())(
        octets_to_bits(e),
        setup[i],
    ) == octets_to_bits(e + f2(setup[i])) by {
        lemma_session_setup(e, setup[i]);
    }
    list_form(setup, session_setup_put(), f2);
    let f3 = |id: u8| seq![id];
    assert forall|e: Seq<u8>, i: int| 0 <= i < failed.len() implies #[trigger] (session_id_put())(
        octets_to_bits(e),
        failed[i],
    ) == octets_to_bits(e + f3(failed[i])) by {
        lemma_octet_digits(failed[i] as nat);
        lemma_octets_concat(e, seq![failed[i]]);
    }
    list_form(failed, session_id_put(), f3);
    lemma_single_octets(failed, f3);
}

proof fn lemma_single_octets(s: Seq<u8>, form: spec_fn(u8) -> Seq<u8>)
    requires
        forall|x: u8| #[trigger] form(x) == seq![x],
    ensures
        items_octets(s, form) == s,
    decreases s.len(),
{
    if s.len() > 0 {
        lemma_single_octets(s.drop_last(), form);
        assert(items_octets(s, form) =~= s);
    } else {
        assert(items_octets(s, form) =~= s);
    }
}

proof fn lemma_session_to_setup(e: Seq<u8>, s: PduSessionToSetupView)
    requires
        s.qfi <= 63,
    ensures
        (session_to_setup_put())(octets_to_bits(e), s) == octets_to_bits(e + session_to_setup_octets(s)),
{
    field_widths();
    vstd::arithmetic::power2::lemma2_to64();
    let id = seq![s.pdu_session_id];
    let q = s.qfi as nat;
    lemma_octet_digits(s.pdu_session_id as nat);
    lemma_octet_digits(q * 4);
    lemma_octets_concat(e, id);
    let w = put_int(put_int(octets_to_bits(e), s.pdu_session_id as int, 0, 255), s.qfi as int, 0, 63);
    assert(w =~= octets_to_bits(e + id) + nat_to_bits(q, 6));
    lemma_pad_behind_octets(e + id, nat_to_bits(q, 6));
    lemma_pad_digits(q, 6, 2);
    let head = e + id + seq![(s.qfi * 4) as u8];
    lemma_octets_concat(e + id, seq![(s.qfi * 4) as u8]);
    assert(pad(w) == octets_to_bits(head));
    lemma_octets_concat(head, s.gtp_teid);
    lemma_octets_concat(head + s.gtp_teid, s.transport_layer_addr);
    assert(head + s.gtp_teid + s.transport_layer_addr =~= e + session_to_setup_octets(s));
}

proof fn lemma_session_setup(e: Seq<u8>, s: PduSessionSetupItemView)
    ensures
        (session_setup_put())(octets_to_bits(e), s) == octets_to_bits(e + session_setup_octets(s)),
{
    field_widths();
    let id = seq![s.pdu_session_id];
    lemma_octet_digits(s.pdu_session_id as nat);
    lemma_octets_concat(e, id);
    let w = put_int(octets_to_bits(e), s.pdu_session_id as int, 0, 255);
    assert(w =~= octets_to_bits(e + id));
    assert(w.len() == 8 * (e + id).len());
    assert(pad(w) =~= w);
    lemma_octets_concat(e + id, s.transport_layer_addr);
    lemma_octets_concat(e + id + s.transport_layer_addr, s.gtp_teid);
    assert(e + id + s.transport_layer_addr + s.gtp_teid =~= e + session_setup_octets(s));
}

// ── Messages ──────────────────────────────────────────────────────────────────

/// Procedure codes, and which messages are answers: those have PDU choice 1.
pub proof fn message_heads(m: NgapMessageView)
    ensures
        CRITICALITY_REJECT == 0 && CRITICALITY_IGNORE == 1 && CRITICALITY_NOTIFY == 2,
        PROTOCOL_IE_ID_MAX == 65_535 && PROCEDURE_CODE_MAX == 255,
        m is InitialUeMessage ==> procedure_code(m) == 15 && choice(m) == 0 && criticality(m) == 1,
        m is UplinkNasTransport ==> procedure_code(m) == 46 && choice(m) == 0 && criticality(m) == 1,
        m is DownlinkNasTransport ==> procedure_code(m) == 4 && choice(m) == 0 && criticality(m) == 1,
        m is InitialContextSetupRequest ==> procedure_code(m) == 14 && choice(m) == 0 && criticality(m) == 0,
        m is InitialContextSetupResponse ==> procedure_code(m) == 14 && choice(m) == 1 && criticality(m) == 0,
        m is UeContextReleaseCommand ==> procedure_code(m) == 41 && choice(m) == 0 && criticality(m) == 1,
        m is UeContextReleaseComplete ==> procedure_code(m) == 41 && choice(m) == 1 && criticality(m) == 1,
{
}

/// The octets of a message: the head of its PDU, and a container with its IEs.
pub proof fn message_octet_form(m: NgapMessageView)
    requires
        encodable(m),
    ensures
        ({
            let container = length_prefix(ies(m).len()) + items_octets(ies(m), |ie: Ie| ie_octets(ie));
            octets(m) == seq![
                (choice(m) * 64 + procedure_code(m) / 4) as u8,
                (procedure_code(m) % 4 * 64 + criticality(m) * 16) as u8,
            ] + length_prefix(container.len()) + container
        }),
{
    lemma_tagged(m);
    message_form(choice(m), procedure_code(m), criticality(m), ies(m));
}

/// The IEs of InitialUEMessage.
pub proof fn initial_ue_message_form(m: InitialUeMessageView)
    requires
        m.nas_pdu.len() <= 16383,
        m.rrc_establishment_cause <= 15,
    ensures
        initial_ue_message_ies(m) == seq![
            Ie { id: 85, criticality: 0, value: four_octets(m.ran_ue_ngap_id) },
            Ie { id: 38, criticality: 0, value: length_prefix(m.nas_pdu.len()) + m.nas_pdu },
            Ie { id: 121, criticality: 1, value: m.nr_cgi + m.tai },
            Ie { id: 90, criticality: 1, value: seq![(m.rrc_establishment_cause * 16) as u8] },
        ],
{
    int_value_forms(m.ran_ue_ngap_id);
    int_value_forms(m.rrc_establishment_cause as u32);
    octet_string_value_form(m.nas_pdu);
    location_form(m.nr_cgi, m.tai);
}

/// The IEs of UplinkNASTransport and of DownlinkNASTransport.
pub proof fn nas_transport_forms(up: UplinkNasTransportView, down: DownlinkNasTransportView)
    requires
        up.nas_pdu.len() <= 16383,
        down.nas_pdu.len() <= 16383,
    ensures
        uplink_nas_transport_ies(up) == seq![
            Ie { id: 10, criticality: 0, value: four_octets(up.amf_ue_ngap_id) },
            Ie { id: 85, criticality: 0, value: four_octets(up.ran_ue_ngap_id) },
            Ie { id: 38, criticality: 0, value: length_prefix(up.nas_pdu.len()) + up.nas_pdu },
            Ie { id: 121, criticality: 1, value: up.nr_cgi + up.tai },
        ],
        downlink_nas_transport_ies(down) == seq![
            Ie { id: 10, criticality: 0, value: four_octets(down.amf_ue_ngap_id) },
            Ie { id: 85, criticality: 0, value: four_octets(down.ran_ue_ngap_id) },
            Ie { id: 38, criticality: 0, value: length_prefix(down.nas_pdu.len()) + down.nas_pdu },
        ],
{
    int_value_forms(up.amf_ue_ngap_id);
    int_value_forms(up.ran_ue_ngap_id);
    int_value_forms(down.amf_ue_ngap_id);
    int_value_forms(down.ran_ue_ngap_id);
    octet_string_value_form(up.nas_pdu);
    octet_string_value_form(down.nas_pdu);
    location_form(up.nr_cgi, up.tai);
}

/// The IEs of InitialContextSetupRequest: those that are empty are left out.
pub proof fn context_setup_request_form(m: InitialContextSetupRequestView)
    requires
        m.nas_pdu is Some ==> m.nas_pdu->0.len() <= 16383,
    ensures
        initial_context_setup_request_ies(m) == seq![
            Ie { id: 10, criticality: 0, value: four_octets(m.amf_ue_ngap_id) },
            Ie { id: 85, criticality: 0, value: four_octets(m.ran_ue_ngap_id) },
            Ie { id: 94, criticality: 0, value: m.security_key },
            Ie { id: 110, criticality: 1, value: bit_rates_value(m.ue_ambr) },
        ] + (if m.pdu_sessions.len() == 0 {
            Seq::empty()
        } else {
            seq![Ie { id: 71, criticality: 0, value: sessions_to_setup_value(m.pdu_sessions) }]
        }) + (match m.nas_pdu {
            None => Seq::empty(),
            Some(nas_pdu) => seq![Ie { id: 38, criticality: 0, value: length_prefix(nas_pdu.len()) + nas_pdu }],
        }),
{
    int_value_forms(m.amf_ue_ngap_id);
    int_value_forms(m.ran_ue_ngap_id);
    lemma_octets_packed(m.security_key);
    if m.nas_pdu is Some {
        octet_string_value_form(m.nas_pdu->0);
    }
}

/// The IEs of InitialContextSetupResponse: those that are empty are left out.
pub proof fn context_setup_response_form(m: InitialContextSetupResponseView)
    ensures
        initial_context_setup_response_ies(m) == seq![
            Ie { id: 10, criticality: 0, value: four_octets(m.amf_ue_ngap_id) },
            Ie { id: 85, criticality: 0, value: four_octets(m.ran_ue_ngap_id) },
        ] + (if m.pdu_sessions_setup.len() == 0 {
            Seq::empty()
        } else {
            seq![Ie { id: 72, criticality: 1, value: sessions_setup_value(m.pdu_sessions_setup) }]
        }) + (if m.pdu_sessions_failed.len() == 0 {
            Seq::empty()
        } else {
            seq![Ie { id: 55, criticality: 1, value: session_ids_value(m.pdu_sessions_failed) }]
        }),
{
    int_value_forms(m.amf_ue_ngap_id);
    int_value_forms(m.ran_ue_ngap_id);
}

/// The number of a cause.
pub open spec fn number_of(cause: NgapCause) -> u8 {
    match cause {
        NgapCause::RadioNetworkUnspecified => 0,
        NgapCause::TransportUnspecified => 1,
        NgapCause::NasNormalRelease => 2,
        NgapCause::NasDeregister => 3,
        NgapCause::NasAuthFailure => 4,
        NgapCause::ProtocolUnspecified => 5,
        NgapCause::MiscUnspecified => 6,
    }
}

/// The IEs of UEContextReleaseCommand and of UEContextReleaseComplete.
pub proof fn release_forms(amf_id: u32, ran_id: u32, cause: NgapCause, m: UeContextReleaseCompleteView)
    ensures
        ue_context_release_command_ies(amf_id, ran_id, cause) == seq![
            Ie { id: 10, criticality: 0, value: four_octets(amf_id) },
            Ie { id: 85, criticality: 0, value: four_octets(ran_id) },
            Ie { id: 15, criticality: 1, value: seq![(number_of(cause) * 32) as u8] },
        ],
        ue_context_release_complete_ies(m) == seq![
            Ie { id: 10, criticality: 1, value: four_octets(m.amf_ue_ngap_id) },
            Ie { id: 85, criticality: 1, value: four_octets(m.ran_ue_ngap_id) },
        ],
{
    int_value_forms(amf_id);
    int_value_forms(ran_id);
    int_value_forms(m.amf_ue_ngap_id);
    int_value_forms(m.ran_ue_ngap_id);
    int_value_forms(number_of(cause) as u32);
}

/// Which messages can be sent: those of seven kinds whose fields are within
/// their ranges and whose IEs fit.
pub proof fn what_is_encodable(m: NgapMessageView)
    ensures
        encodable(m) <==> message_fits(ies(m)) && match m {
            NgapMessageView::InitialUeMessage(v) => {
                v.nas_pdu.len() <= 16383 && v.tai.len() == 6 && v.nr_cgi.len() == 9 && v.rrc_establishment_cause <= 15
            },
            NgapMessageView::UplinkNasTransport(v) => {
                v.nas_pdu.len() <= 16383 && v.tai.len() == 6 && v.nr_cgi.len() == 9
            },
            NgapMessageView::DownlinkNasTransport(v) => v.nas_pdu.len() <= 16383,
            NgapMessageView::InitialContextSetupRequest(v) => {
                &&& v.ue_ambr.0 <= 4_000_000_000_000 && v.ue_ambr.1 <= 4_000_000_000_000
                &&& v.security_key.len() == 32
                &&& v.nas_pdu is Some ==> v.nas_pdu->0.len() <= 16383
                &&& v.pdu_sessions.len() <= 16383
                &&& forall|i: int|
                    0 <= i < v.pdu_sessions.len() ==> (#[trigger] v.pdu_sessions[i]).qfi <= 63
                        && v.pdu_sessions[i].gtp_teid.len() == 4 && v.pdu_sessions[i].transport_layer_addr.len() == 4
            },
            NgapMessageView::InitialContextSetupResponse(v) => {
                &&& v.pdu_sessions_setup.len() <= 16383 && v.pdu_sessions_failed.len() <= 16383
                &&& forall|i: int|
                    0 <= i < v.pdu_sessions_setup.len() ==> (#[trigger] v.pdu_sessions_setup[i]).gtp_teid.len() == 4
                        && v.pdu_sessions_setup[i].transport_layer_addr.len() == 4
            },
            NgapMessageView::UeContextReleaseCommand { .. } => true,
            NgapMessageView::UeContextReleaseComplete(_) => true,
            _ => false,
        },
        supported(m) <==> {
            ||| m is InitialUeMessage
            ||| m is UplinkNasTransport
            ||| m is DownlinkNasTransport
            ||| m is InitialContextSetupRequest
            ||| m is InitialContextSetupResponse
            ||| m is UeContextReleaseCommand
            ||| m is UeContextReleaseComplete
        },
{
    match m {
        NgapMessageView::InitialContextSetupRequest(v) => {
            assert(forall|i: int|
                0 <= i < v.pdu_sessions.len() ==> session_to_setup_ok(#[trigger] v.pdu_sessions[i])
                    == (v.pdu_sessions[i].qfi <= 63 && v.pdu_sessions[i].gtp_teid.len() == 4
                    && v.pdu_sessions[i].transport_layer_addr.len() == 4));
        },
        _ => {},
    }
}

// ── Reading ───────────────────────────────────────────────────────────────────

/// Values of a fixed form are read from the first octets of an IE.
pub proof fn fixed_values_are_read(ies: Seq<Ie>, d: Seq<u8>)
    ensures
        (get_key())(d) == if d.len() >= 32 {
            Some(d.subrange(0, 32))
        } else {
            None
        },
        (get_bit_rates())(d) is Some <==> get_int(d, 0, 0, 4_000_000_000_000) is Some && get_int(
            d,
            42,
            0,
            4_000_000_000_000,
        ) is Some,
        (get_bit_rates())(d) is Some ==> (get_bit_rates())(d) == Some(
            (
                (get_int(d, 0, 0, 4_000_000_000_000)->0).0 as u64,
                (get_int(d, 42, 0, 4_000_000_000_000)->0).0 as u64,
            ),
        ),
        location_in(ies) is Some <==> last_ie(ies, 121) is Some && last_ie(ies, 121)->0.len() >= 15,
        location_in(ies) is Some ==> location_in(ies) == Some(
            (last_ie(ies, 121)->0.subrange(0, 9), last_ie(ies, 121)->0.subrange(9, 15)),
        ),
        ({
            let n = int_in(ies, 15, 6);
            &&& cause_in(ies) is Some <==> n is Some && 0 <= n->0 <= 6
            &&& cause_in(ies) is Some ==> number_of(cause_in(ies)->0) == n->0
        }),
{
    field_widths();
}

/// A session is read from the octet where it starts.
pub proof fn sessions_are_read(d: Seq<u8>, k: nat)
    ensures
        (session_to_setup_get())(d, 8 * k) == if k + 10 <= d.len() {
            Some(
                (
                    PduSessionToSetupView {
                        pdu_session_id: d[k as int],
                        qfi: (d[k as int + 1] / 4) as u8,
                        gtp_teid: d.subrange(k as int + 2, k as int + 6),
                        transport_layer_addr: d.subrange(k as int + 6, k as int + 10),
                    },
                    8 * (k + 10),
                ),
            )
        } else {
            None
        },
        (session_setup_get())(d, 8 * k) == if k + 9 <= d.len() {
            Some(
                (
                    PduSessionSetupItemView {
                        pdu_session_id: d[k as int],
                        transport_layer_addr: d.subrange(k as int + 1, k as int + 5),
                        gtp_teid: d.subrange(k as int + 5, k as int + 9),
                    },
                    8 * (k + 9),
                ),
            )
        } else {
            None
        },
        (session_id_get())(d, 8 * k) == if k < d.len() {
            Some((d[k as int], 8 * (k + 1)))
        } else {
            None
        },
        (get_sessions_to_setup())(d) == value_of(get_list(d, 0, session_to_setup_get())),
        (get_sessions_setup())(d) == value_of(get_list(d, 0, session_setup_get())),
        (get_session_ids())(d) == value_of(get_list(d, 0, session_id_get())),
{
    integers_at_an_octet_are_read(d, k);
    integers_at_an_octet_are_read(d, k + 1);
}

/// The outcome for what is no message.
pub open spec fn refused(reason: &'static str) -> Result<NgapMessageView, ProtoError> {
    Err(ProtoError::MalformedNgap { reason })
}

/// What the IEs of each procedure are read as, and which error comes where one
/// is missing.
#[verifier::spinoff_prover]
pub proof fn transports_are_read(pdu_choice: u64, v: Seq<Ie>)
    ensures
        ({
            let amf = int_in(v, 10, 4_294_967_295);
            let ran = int_in(v, 85, 4_294_967_295);
            let nas = octet_string_in(v, 38);
            let rrc = int_in(v, 90, 15);
            let location = location_in(v);
            &&& message_from(pdu_choice, 15, v) == if location is None {
                refused("missing UserLocationInformation")
            } else if ran is None {
                refused("missing RAN-UE-NGAP-ID")
            } else if nas is None {
                refused("missing NAS-PDU")
            } else if rrc is None {
                refused("missing RRCEstablishmentCause")
            } else {
                Ok(
                    NgapMessageView::InitialUeMessage(
                        InitialUeMessageView {
                            ran_ue_ngap_id: ran->0 as u32,
                            nas_pdu: nas->0,
                            tai: (location->0).1,
                            nr_cgi: (location->0).0,
                            rrc_establishment_cause: rrc->0 as u8,
                        },
                    ),
                )
            }
            &&& message_from(pdu_choice, 46, v) == if location is None {
                refused("missing UserLocationInformation")
            } else if amf is None {
                refused("missing AMF-UE-NGAP-ID")
            } else if ran is None {
                refused("missing RAN-UE-NGAP-ID")
            } else if nas is None {
                refused("missing NAS-PDU")
            } else {
                Ok(
                    NgapMessageView::UplinkNasTransport(
                        UplinkNasTransportView {
                            amf_ue_ngap_id: amf->0 as u32,
                            ran_ue_ngap_id: ran->0 as u32,
                            nas_pdu: nas->0,
                            tai: (location->0).1,
                            nr_cgi: (location->0).0,
                        },
                    ),
                )
            }
            &&& message_from(pdu_choice, 4, v) == if amf is None {
                refused("missing AMF-UE-NGAP-ID")
            } else if ran is None {
                refused("missing RAN-UE-NGAP-ID")
            } else if nas is None {
                refused("missing NAS-PDU")
            } else {
                Ok(
                    NgapMessageView::DownlinkNasTransport(
                        DownlinkNasTransportView {
                            amf_ue_ngap_id: amf->0 as u32,
                            ran_ue_ngap_id: ran->0 as u32,
                            nas_pdu: nas->0,
                        },
                    ),
                )
            }
        }),
{
}

/// The same of context setup and release, where the PDU choice tells a request
/// from its answer. Lists that are missing or unreadable are empty.
#[verifier::spinoff_prover]
pub proof fn contexts_are_read(v: Seq<Ie>)
    ensures
        ({
            let amf = int_in(v, 10, 4_294_967_295);
            let ran = int_in(v, 85, 4_294_967_295);
            let rates = last_parsed(v, 110, get_bit_rates());
            let key = last_parsed(v, 94, get_key());
            let to_setup = last_parsed(v, 71, get_sessions_to_setup());
            let setup = last_parsed(v, 72, get_sessions_setup());
            let failed = last_parsed(v, 55, get_session_ids());
            let cause = cause_in(v);
            &&& message_from(0, 14, v) == if amf is None {
                refused("missing AMF-UE-NGAP-ID")
            } else if ran is None {
                refused("missing RAN-UE-NGAP-ID")
            } else if rates is None {
                refused("missing UEAggregateMaximumBitRate")
            } else if key is None {
                refused("missing SecurityKey")
            } else {
                Ok(
                    NgapMessageView::InitialContextSetupRequest(
                        InitialContextSetupRequestView {
                            amf_ue_ngap_id: amf->0 as u32,
                            ran_ue_ngap_id: ran->0 as u32,
                            pdu_sessions: match to_setup {
                                Some(s) => s,
                                None => Seq::empty(),
                            },
                            nas_pdu: octet_string_in(v, 38),
                            ue_ambr: rates->0,
                            security_key: key->0,
                        },
                    ),
                )
            }
            &&& message_from(1, 14, v) == if amf is None {
                refused("missing AMF-UE-NGAP-ID")
            } else if ran is None {
                refused("missing RAN-UE-NGAP-ID")
            } else {
                Ok(
                    NgapMessageView::InitialContextSetupResponse(
                        InitialContextSetupResponseView {
                            amf_ue_ngap_id: amf->0 as u32,
                            ran_ue_ngap_id: ran->0 as u32,
                            pdu_sessions_setup: match setup {
                                Some(s) => s,
                                None => Seq::empty(),
                            },
                            pdu_sessions_failed: match failed {
                                Some(s) => s,
                                None => Seq::empty(),
                            },
                        },
                    ),
                )
            }
            &&& message_from(0, 41, v) == if amf is None {
                refused("missing AMF-UE-NGAP-ID")
            } else if ran is None {
                refused("missing RAN-UE-NGAP-ID")
            } else if cause is None {
                refused("missing or invalid Cause")
            } else {
                Ok(
                    NgapMessageView::UeContextReleaseCommand {
                        amf_ue_ngap_id: amf->0 as u32,
                        ran_ue_ngap_id: ran->0 as u32,
                        cause: cause->0,
                    },
                )
            }
            &&& message_from(1, 41, v) == if amf is None {
                refused("missing AMF-UE-NGAP-ID")
            } else if ran is None {
                refused("missing RAN-UE-NGAP-ID")
            } else {
                Ok(
                    NgapMessageView::UeContextReleaseComplete(
                        UeContextReleaseCompleteView {
                            amf_ue_ngap_id: amf->0 as u32,
                            ran_ue_ngap_id: ran->0 as u32,
                        },
                    ),
                )
            }
        }),
{
}

/// What is said of a message that cannot be sent, and of one that is not known.
pub proof fn refusals_are_explained(d: Seq<u8>)
    ensures
        wire::REASON_UNSUPPORTED_MESSAGE@
            == "PER encoding not yet implemented for this NGAP message — only InitialUEMessage/Uplink/DownlinkNASTransport/ InitialContextSetupRequest/Response/UeContextReleaseCommand/Complete"@,
        wire::REASON_NOT_ENCODABLE@
            == "a field is outside its PER range, or a length above what a length determinant carries"@,
        wire::REASON_UNSUPPORTED_PROCEDURE@
            == "unsupported procedure code (or PDU choice) — only InitialUEMessage/Uplink/ DownlinkNASTransport/InitialContextSetupRequest/Response/ UeContextReleaseCommand/Complete"@,
        get_pdu(d) is Some && get_container(get_pdu(d)->0.value, 0) is Some ==> {
            let code = get_pdu(d)->0.procedure_code;
            let choice = get_pdu(d)->0.choice;
            !(code == 4 || code == 15 || code == 46 || ((code == 14 || code == 41) && (choice == 0 || choice == 1)))
                ==> message(d) == refused(wire::REASON_UNSUPPORTED_PROCEDURE)
        },
{
}

/// Octets are a message if and only if they are a PDU around a container of a
/// known procedure with its IEs.
pub proof fn octets_are_read(d: Seq<u8>)
    ensures
        get_pdu(d) is None ==> message(d) == refused("failed to decode PDU wrapper"),
        get_pdu(d) is Some && get_container(get_pdu(d)->0.value, 0) is None ==> message(d) == refused(
            "failed to decode IE container",
        ),
        get_pdu(d) is Some && get_container(get_pdu(d)->0.value, 0) is Some ==> message(d) == message_from(
            get_pdu(d)->0.choice,
            get_pdu(d)->0.procedure_code,
            (get_container(get_pdu(d)->0.value, 0)->0).0,
        ),
        message(d) is Ok ==> {
            let code = get_pdu(d)->0.procedure_code;
            let choice = get_pdu(d)->0.choice;
            code == 4 || code == 15 || code == 46 || ((code == 14 || code == 41) && (choice == 0 || choice == 1))
        },
{
}

} // verus!
