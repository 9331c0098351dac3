//! The S1AP wire format as mathematics: which IEs each message has, what a
//! decoder makes of a sequence of IEs, and the law that decoding undoes
//! encoding.

use vstd::prelude::*;

use crate::ap::{
    get_container, get_pdu, ies_tagged, int_in, int_value, last_ie, last_parsed, lemma_ies_size_push, lemma_int_value,
    lemma_int_value_len, lemma_last_ie_push, lemma_last_parsed_push, lemma_octet_string_value,
    lemma_octet_string_value_len, message_fits, message_octets, message_round_trip, octet_string_in,
    octet_string_value, same_value, same_values_are_parsed_alike, same_values_are_read_alike, small_message_fits, Ie,
    CRITICALITY_MAX, PDU_CHOICE_INITIATING_MESSAGE, PDU_CHOICE_MAX, PDU_CHOICE_SUCCESSFUL_OUTCOME, PROCEDURE_CODE_MAX,
};
use crate::error::ProtoError;
use crate::s1ap::ie_ids as ie;
use crate::s1ap::messages::{
    DownlinkNasTransportView, ErabSetupItemView, ErabToSetupView, InitialContextSetupRequestView,
    InitialContextSetupResponseView, InitialUeMessageView, S1apMessageView, UplinkNasTransportView,
};
use crate::per::{
    bits_to_octets, carries, get_int, get_list, get_octets, int_round_trip, lemma_carries_less, lemma_int_len,
    lemma_list_of_one, lemma_pack, lemma_packed_len, list_round_trip, octets_round_trip, pad, put_int, put_length,
    put_list, put_octets, value_of, MAX_LENGTH,
};

verus! {

pub const REASON_UNSUPPORTED_MESSAGE: &'static str =
    "PER encoding not yet implemented for this S1AP message — only InitialUEMessage/Uplink/DownlinkNASTransport/InitialContextSetupRequest/Response";

pub const REASON_NOT_ENCODABLE: &'static str =
    "a field is outside its PER range, or a length above what a length determinant carries";

pub const REASON_UNSUPPORTED_PROCEDURE: &'static str =
    "unsupported procedure code — only InitialUEMessage/Uplink/DownlinkNASTransport/InitialContextSetupRequest/Response";

pub open spec fn malformed<T>(reason: &'static str) -> Result<T, ProtoError> {
    Err(ProtoError::MalformedS1ap { reason })
}

// ── Fields ────────────────────────────────────────────────────────────────────

/// An IE value that is octets of a fixed number.
pub open spec fn octets_value(s: Seq<u8>) -> Seq<u8> {
    bits_to_octets(put_octets(Seq::empty(), s))
}

/// The `n` octets in the last IE with that identifier.
pub open spec fn octets_in(ies: Seq<Ie>, id: u32, n: nat) -> Option<Seq<u8>> {
    match last_ie(ies, id) {
        None => None,
        Some(v) => value_of(get_octets(v, 0, n)),
    }
}

/// Both bit rates, one after the other.
pub open spec fn bit_rates_value(ambr: (u64, u64)) -> Seq<u8> {
    bits_to_octets(
        put_int(
            put_int(Seq::empty(), ambr.0 as int, 0, ie::BIT_RATE_MAX as int),
            ambr.1 as int,
            0,
            ie::BIT_RATE_MAX as int,
        ),
    )
}

pub open spec fn get_bit_rates() -> spec_fn(Seq<u8>) -> Option<(u64, u64)> {
    |d: Seq<u8>|
        match get_int(d, 0, 0, ie::BIT_RATE_MAX as int) {
            None => None,
            Some((dl, p)) => match get_int(d, p, 0, ie::BIT_RATE_MAX as int) {
                None => None,
                Some((ul, _)) => Some((dl as u64, ul as u64)),
            },
        }
}

// ── E-RAB lists ─────────────────────────────────────────────────────────

pub open spec fn erab_to_setup_put() -> spec_fn(Seq<bool>, ErabToSetupView) -> Seq<bool> {
    |w: Seq<bool>, s: ErabToSetupView|
        put_octets(
            put_octets(
                pad(
                    put_int(
                        put_int(w, s.erab_id as int, 0, ie::ERAB_ID_MAX as int),
                        s.qci as int,
                        0,
                        ie::QCI_MAX as int,
                    ),
                ),
                s.gtp_teid,
            ),
            s.transport_layer_addr,
        )
}

pub open spec fn erab_to_setup_get() -> spec_fn(Seq<u8>, nat) -> Option<(ErabToSetupView, nat)> {
    |d: Seq<u8>, pos: nat|
        match get_int(d, pos, 0, ie::ERAB_ID_MAX as int) {
            None => None,
            Some((id, p1)) => match get_int(d, p1, 0, ie::QCI_MAX as int) {
                None => None,
                Some((qci, p2)) => match get_octets(d, p2, 4) {
                    None => None,
                    Some((gtp_teid, p3)) => match get_octets(d, p3, 4) {
                        None => None,
                        Some((transport_layer_addr, p4)) => Some(
                            (
                                ErabToSetupView {
                                    erab_id: id as u8,
                                    qci: qci as u8,
                                    gtp_teid,
                                    transport_layer_addr,
                                },
                                p4,
                            ),
                        ),
                    },
                },
            },
        }
}

pub open spec fn erab_to_setup_ok(s: ErabToSetupView) -> bool {
    s.erab_id <= ie::ERAB_ID_MAX && s.gtp_teid.len() == 4 && s.transport_layer_addr.len() == 4
}

pub open spec fn erabs_to_setup_value(s: Seq<ErabToSetupView>) -> Seq<u8> {
    bits_to_octets(put_list(Seq::empty(), s, erab_to_setup_put()))
}

pub open spec fn get_erabs_to_setup() -> spec_fn(Seq<u8>) -> Option<Seq<ErabToSetupView>> {
    |d: Seq<u8>| value_of(get_list(d, 0, erab_to_setup_get()))
}

pub open spec fn erab_setup_put() -> spec_fn(Seq<bool>, ErabSetupItemView) -> Seq<bool> {
    |w: Seq<bool>, s: ErabSetupItemView|
        put_octets(
            put_octets(
                pad(put_int(w, s.e_rab_id as int, 0, ie::ERAB_ID_MAX as int)),
                s.transport_layer_addr,
            ),
            s.gtp_teid,
        )
}

pub open spec fn erab_setup_get() -> spec_fn(Seq<u8>, nat) -> Option<(ErabSetupItemView, nat)> {
    |d: Seq<u8>, pos: nat|
        match get_int(d, pos, 0, ie::ERAB_ID_MAX as int) {
            None => None,
            Some((id, p1)) => match get_octets(d, p1, 4) {
                None => None,
                Some((transport_layer_addr, p2)) => match get_octets(d, p2, 4) {
                    None => None,
                    Some((gtp_teid, p3)) => Some(
                        (ErabSetupItemView { e_rab_id: id as u8, transport_layer_addr, gtp_teid }, p3),
                    ),
                },
            },
        }
}

pub open spec fn erab_setup_ok(s: ErabSetupItemView) -> bool {
    s.e_rab_id <= ie::ERAB_ID_MAX && s.gtp_teid.len() == 4 && s.transport_layer_addr.len() == 4
}

pub open spec fn erabs_setup_value(s: Seq<ErabSetupItemView>) -> Seq<u8> {
    bits_to_octets(put_list(Seq::empty(), s, erab_setup_put()))
}

pub open spec fn get_erabs_setup() -> spec_fn(Seq<u8>) -> Option<Seq<ErabSetupItemView>> {
    |d: Seq<u8>| value_of(get_list(d, 0, erab_setup_get()))
}

pub open spec fn erab_id_put() -> spec_fn(Seq<bool>, u8) -> Seq<bool> {
    |w: Seq<bool>, id: u8| put_int(w, id as int, 0, ie::ERAB_ID_MAX as int)
}

pub open spec fn erab_id_get() -> spec_fn(Seq<u8>, nat) -> Option<(u8, nat)> {
    |d: Seq<u8>, pos: nat|
        match get_int(d, pos, 0, ie::ERAB_ID_MAX as int) {
            None => None,
            Some((id, p)) => Some((id as u8, p)),
        }
}

pub open spec fn erab_ids_value(ids: Seq<u8>) -> Seq<u8> {
    bits_to_octets(put_list(Seq::empty(), ids, erab_id_put()))
}

pub open spec fn get_erab_ids() -> spec_fn(Seq<u8>) -> Option<Seq<u8>> {
    |d: Seq<u8>| value_of(get_list(d, 0, erab_id_get()))
}

/// The items of a list IE; none when no IE holds a readable list.
pub open spec fn items_in<T>(ies: Seq<Ie>, id: u32, parse: spec_fn(Seq<u8>) -> Option<Seq<T>>) -> Seq<T> {
    match last_parsed(ies, id, parse) {
        None => Seq::empty(),
        Some(items) => items,
    }
}

// ── Messages to IEs ───────────────────────────────────────────────────────────

pub open spec fn mme_ue_id_ie(id: u32, criticality: u8) -> Ie {
    Ie { id: ie::ID_MME_UE_S1AP_ID, criticality, value: int_value(id as int, ie::MME_UE_S1AP_ID_MAX) }
}

pub open spec fn enb_ue_id_ie(id: u32, criticality: u8) -> Ie {
    Ie { id: ie::ID_ENB_UE_S1AP_ID, criticality, value: int_value(id as int, ie::ENB_UE_S1AP_ID_MAX) }
}

pub open spec fn nas_pdu_ie(nas_pdu: Seq<u8>) -> Ie {
    Ie { id: ie::ID_NAS_PDU, criticality: ie::CRITICALITY_REJECT, value: octet_string_value(nas_pdu) }
}

pub open spec fn tai_ie(tai: Seq<u8>) -> Ie {
    Ie { id: ie::ID_TAI, criticality: ie::CRITICALITY_IGNORE, value: octets_value(tai) }
}

pub open spec fn eutran_cgi_ie(eutran_cgi: Seq<u8>) -> Ie {
    Ie { id: ie::ID_EUTRAN_CGI, criticality: ie::CRITICALITY_IGNORE, value: octets_value(eutran_cgi) }
}

pub open spec fn initial_ue_message_ies(m: InitialUeMessageView) -> Seq<Ie> {
    Seq::empty().push(enb_ue_id_ie(m.enb_ue_s1ap_id, ie::CRITICALITY_REJECT)).push(nas_pdu_ie(m.nas_pdu)).push(
        tai_ie(m.tai),
    ).push(eutran_cgi_ie(m.eutran_cgi)).push(
        Ie {
            id: ie::ID_RRC_ESTABLISHMENT_CAUSE,
            criticality: ie::CRITICALITY_IGNORE,
            value: int_value(m.rrc_cause as int, ie::RRC_ESTABLISHMENT_CAUSE_MAX),
        },
    )
}

pub open spec fn initial_ue_message_ok(m: InitialUeMessageView) -> bool {
    &&& m.nas_pdu.len() <= MAX_LENGTH
    &&& m.tai.len() == 5
    &&& m.eutran_cgi.len() == 7
    &&& m.enb_ue_s1ap_id <= ie::ENB_UE_S1AP_ID_MAX
    &&& m.rrc_cause <= ie::RRC_ESTABLISHMENT_CAUSE_MAX
    &&& message_fits(initial_ue_message_ies(m))
}

pub open spec fn uplink_nas_transport_ies(m: UplinkNasTransportView) -> Seq<Ie> {
    Seq::empty().push(mme_ue_id_ie(m.mme_ue_s1ap_id, ie::CRITICALITY_REJECT)).push(
        enb_ue_id_ie(m.enb_ue_s1ap_id, ie::CRITICALITY_REJECT),
    ).push(nas_pdu_ie(m.nas_pdu)).push(tai_ie(m.tai)).push(
        eutran_cgi_ie(m.eutran_cgi),
    )
}

pub open spec fn uplink_nas_transport_ok(m: UplinkNasTransportView) -> bool {
    &&& m.nas_pdu.len() <= MAX_LENGTH
    &&& m.tai.len() == 5
    &&& m.eutran_cgi.len() == 7
    &&& m.enb_ue_s1ap_id <= ie::ENB_UE_S1AP_ID_MAX
    &&& message_fits(uplink_nas_transport_ies(m))
}

pub open spec fn downlink_nas_transport_ies(m: DownlinkNasTransportView) -> Seq<Ie> {
    Seq::empty().push(mme_ue_id_ie(m.mme_ue_s1ap_id, ie::CRITICALITY_REJECT)).push(
        enb_ue_id_ie(m.enb_ue_s1ap_id, ie::CRITICALITY_REJECT),
    ).push(nas_pdu_ie(m.nas_pdu))
}

pub open spec fn downlink_nas_transport_ok(m: DownlinkNasTransportView) -> bool {
    &&& m.enb_ue_s1ap_id <= ie::ENB_UE_S1AP_ID_MAX
    &&& m.nas_pdu.len() <= MAX_LENGTH
    &&& message_fits(downlink_nas_transport_ies(m))
}

pub open spec fn initial_context_setup_request_ies(m: InitialContextSetupRequestView) -> Seq<Ie> {
    let fixed = Seq::empty().push(mme_ue_id_ie(m.mme_ue_s1ap_id, ie::CRITICALITY_REJECT)).push(
        enb_ue_id_ie(m.enb_ue_s1ap_id, ie::CRITICALITY_REJECT),
    ).push(
        Ie {
            id: ie::ID_UE_AGGREGATE_MAXIMUM_BITRATE,
            criticality: ie::CRITICALITY_REJECT,
            value: bit_rates_value(m.ue_ambr),
        },
    ).push(
        Ie { id: ie::ID_SECURITY_KEY, criticality: ie::CRITICALITY_REJECT, value: octets_value(m.security_key) },
    );
    let with_sessions = if m.e_rabs.len() == 0 {
        fixed
    } else {
        fixed.push(
            Ie {
                id: ie::ID_E_RAB_TO_BE_SETUP_LIST_CTXT_SU_REQ,
                criticality: ie::CRITICALITY_REJECT,
                value: erabs_to_setup_value(m.e_rabs),
            },
        )
    };
    match m.nas_pdu {
        None => with_sessions,
        Some(nas_pdu) => with_sessions.push(nas_pdu_ie(nas_pdu)),
    }
}

/// What an octet string or a list in the message can hold.
pub open spec fn initial_context_setup_request_in_range(m: InitialContextSetupRequestView) -> bool {
    &&& m.enb_ue_s1ap_id <= ie::ENB_UE_S1AP_ID_MAX
    &&& m.ue_ambr.0 <= ie::BIT_RATE_MAX
    &&& m.ue_ambr.1 <= ie::BIT_RATE_MAX
    &&& m.security_key.len() == 32
    &&& m.e_rabs.len() <= MAX_LENGTH
    &&& forall|i: int| 0 <= i < m.e_rabs.len() ==> erab_to_setup_ok(#[trigger] m.e_rabs[i])
    &&& m.nas_pdu is Some ==> m.nas_pdu->0.len() <= MAX_LENGTH
}

pub open spec fn initial_context_setup_request_ok(m: InitialContextSetupRequestView) -> bool {
    &&& initial_context_setup_request_in_range(m)
    &&& message_fits(initial_context_setup_request_ies(m))
}

pub open spec fn initial_context_setup_response_ies(m: InitialContextSetupResponseView) -> Seq<Ie> {
    let fixed = Seq::empty().push(mme_ue_id_ie(m.mme_ue_s1ap_id, ie::CRITICALITY_REJECT)).push(
        enb_ue_id_ie(m.enb_ue_s1ap_id, ie::CRITICALITY_REJECT),
    );
    let with_setup = if m.e_rabs_setup.len() == 0 {
        fixed
    } else {
        fixed.push(
            Ie {
                id: ie::ID_E_RAB_SETUP_LIST_CTXT_SU_RES,
                criticality: ie::CRITICALITY_REJECT,
                value: erabs_setup_value(m.e_rabs_setup),
            },
        )
    };
    if m.e_rabs_failed.len() == 0 {
        with_setup
    } else {
        with_setup.push(
            Ie {
                id: ie::ID_E_RAB_FAILED_TO_SETUP_LIST_CTXT_SU_RES,
                criticality: ie::CRITICALITY_IGNORE,
                value: erab_ids_value(m.e_rabs_failed),
            },
        )
    }
}

pub open spec fn initial_context_setup_response_in_range(m: InitialContextSetupResponseView) -> bool {
    &&& m.enb_ue_s1ap_id <= ie::ENB_UE_S1AP_ID_MAX
    &&& m.e_rabs_setup.len() <= MAX_LENGTH
    &&& forall|i: int| 0 <= i < m.e_rabs_setup.len() ==> erab_setup_ok(#[trigger] m.e_rabs_setup[i])
    &&& m.e_rabs_failed.len() <= MAX_LENGTH
    &&& forall|i: int| 0 <= i < m.e_rabs_failed.len() ==> #[trigger] m.e_rabs_failed[i] <= ie::ERAB_ID_MAX
}

pub open spec fn initial_context_setup_response_ok(m: InitialContextSetupResponseView) -> bool {
    &&& initial_context_setup_response_in_range(m)
    &&& message_fits(initial_context_setup_response_ies(m))
}

/// The messages that have a wire encoding here.
pub open spec fn supported(m: S1apMessageView) -> bool {
    ||| m is InitialUeMessage
    ||| m is UplinkNasTransport
    ||| m is DownlinkNasTransport
    ||| m is InitialContextSetupRequest
    ||| m is InitialContextSetupResponse
}

/// The message has a wire encoding, and its fields and lengths fit it.
pub open spec fn encodable(m: S1apMessageView) -> bool {
    match m {
        S1apMessageView::InitialUeMessage(m) => initial_ue_message_ok(m),
        S1apMessageView::UplinkNasTransport(m) => uplink_nas_transport_ok(m),
        S1apMessageView::DownlinkNasTransport(m) => downlink_nas_transport_ok(m),
        S1apMessageView::InitialContextSetupRequest(m) => initial_context_setup_request_ok(m),
        S1apMessageView::InitialContextSetupResponse(m) => initial_context_setup_response_ok(m),
        _ => false,
    }
}

/// The IEs of a supported message.
pub open spec fn ies(m: S1apMessageView) -> Seq<Ie> {
    match m {
        S1apMessageView::InitialUeMessage(m) => initial_ue_message_ies(m),
        S1apMessageView::UplinkNasTransport(m) => uplink_nas_transport_ies(m),
        S1apMessageView::DownlinkNasTransport(m) => downlink_nas_transport_ies(m),
        S1apMessageView::InitialContextSetupRequest(m) => initial_context_setup_request_ies(m),
        S1apMessageView::InitialContextSetupResponse(m) => initial_context_setup_response_ies(m),
        _ => Seq::empty(),
    }
}

pub open spec fn choice(m: S1apMessageView) -> u64 {
    if m is InitialContextSetupResponse {
        PDU_CHOICE_SUCCESSFUL_OUTCOME
    } else {
        PDU_CHOICE_INITIATING_MESSAGE
    }
}

pub open spec fn procedure_code(m: S1apMessageView) -> u32 {
    match m {
        S1apMessageView::InitialUeMessage(_) => ie::PROC_INITIAL_UE_MESSAGE,
        S1apMessageView::UplinkNasTransport(_) => ie::PROC_UPLINK_NAS_TRANSPORT,
        S1apMessageView::DownlinkNasTransport(_) => ie::PROC_DOWNLINK_NAS_TRANSPORT,
        _ => ie::PROC_INITIAL_CONTEXT_SETUP,
    }
}

pub open spec fn criticality(m: S1apMessageView) -> u8 {
    if m is InitialContextSetupRequest || m is InitialContextSetupResponse {
        ie::CRITICALITY_REJECT
    } else {
        ie::CRITICALITY_IGNORE
    }
}

/// The wire encoding of a supported message.
pub open spec fn octets(m: S1apMessageView) -> Seq<u8> {
    message_octets(choice(m), procedure_code(m), criticality(m), ies(m))
}

// ── IEs to messages ───────────────────────────────────────────────────────────

pub open spec fn mme_ue_id_in(ies: Seq<Ie>) -> Option<int> {
    int_in(ies, ie::ID_MME_UE_S1AP_ID, ie::MME_UE_S1AP_ID_MAX)
}

pub open spec fn enb_ue_id_in(ies: Seq<Ie>) -> Option<int> {
    int_in(ies, ie::ID_ENB_UE_S1AP_ID, ie::ENB_UE_S1AP_ID_MAX)
}

pub open spec fn initial_ue_message_from(ies: Seq<Ie>) -> Result<S1apMessageView, ProtoError> {
    let rrc_cause = int_in(ies, ie::ID_RRC_ESTABLISHMENT_CAUSE, ie::RRC_ESTABLISHMENT_CAUSE_MAX);
    if enb_ue_id_in(ies) is None {
        malformed("missing eNB-UE-S1AP-ID")
    } else if octet_string_in(ies, ie::ID_NAS_PDU) is None {
        malformed("missing NAS-PDU")
    } else if octets_in(ies, ie::ID_TAI, 5) is None {
        malformed("missing TAI")
    } else if octets_in(ies, ie::ID_EUTRAN_CGI, 7) is None {
        malformed("missing E-UTRAN CGI")
    } else if rrc_cause is None {
        malformed("missing RRC-Establishment-Cause")
    } else {
        Ok(
            S1apMessageView::InitialUeMessage(
                InitialUeMessageView {
                    enb_ue_s1ap_id: enb_ue_id_in(ies)->0 as u32,
                    nas_pdu: octet_string_in(ies, ie::ID_NAS_PDU)->0,
                    tai: octets_in(ies, ie::ID_TAI, 5)->0,
                    eutran_cgi: octets_in(ies, ie::ID_EUTRAN_CGI, 7)->0,
                    rrc_cause: rrc_cause->0 as u8,
                },
            ),
        )
    }
}

pub open spec fn uplink_nas_transport_from(ies: Seq<Ie>) -> Result<S1apMessageView, ProtoError> {
    if mme_ue_id_in(ies) is None {
        malformed("missing MME-UE-S1AP-ID")
    } else if enb_ue_id_in(ies) is None {
        malformed("missing eNB-UE-S1AP-ID")
    } else if octet_string_in(ies, ie::ID_NAS_PDU) is None {
        malformed("missing NAS-PDU")
    } else if octets_in(ies, ie::ID_TAI, 5) is None {
        malformed("missing TAI")
    } else if octets_in(ies, ie::ID_EUTRAN_CGI, 7) is None {
        malformed("missing E-UTRAN CGI")
    } else {
        Ok(
            S1apMessageView::UplinkNasTransport(
                UplinkNasTransportView {
                    mme_ue_s1ap_id: mme_ue_id_in(ies)->0 as u32,
                    enb_ue_s1ap_id: enb_ue_id_in(ies)->0 as u32,
                    nas_pdu: octet_string_in(ies, ie::ID_NAS_PDU)->0,
                    tai: octets_in(ies, ie::ID_TAI, 5)->0,
                    eutran_cgi: octets_in(ies, ie::ID_EUTRAN_CGI, 7)->0,
                },
            ),
        )
    }
}

pub open spec fn downlink_nas_transport_from(ies: Seq<Ie>) -> Result<S1apMessageView, ProtoError> {
    if mme_ue_id_in(ies) is None {
        malformed("missing MME-UE-S1AP-ID")
    } else if enb_ue_id_in(ies) is None {
        malformed("missing eNB-UE-S1AP-ID")
    } else if octet_string_in(ies, ie::ID_NAS_PDU) is None {
        malformed("missing NAS-PDU")
    } else {
        Ok(
            S1apMessageView::DownlinkNasTransport(
                DownlinkNasTransportView {
                    mme_ue_s1ap_id: mme_ue_id_in(ies)->0 as u32,
                    enb_ue_s1ap_id: enb_ue_id_in(ies)->0 as u32,
                    nas_pdu: octet_string_in(ies, ie::ID_NAS_PDU)->0,
                },
            ),
        )
    }
}

pub open spec fn initial_context_setup_request_from(ies: Seq<Ie>) -> Result<S1apMessageView, ProtoError> {
    let ambr = last_parsed(ies, ie::ID_UE_AGGREGATE_MAXIMUM_BITRATE, get_bit_rates());
    let key = octets_in(ies, ie::ID_SECURITY_KEY, 32);
    if mme_ue_id_in(ies) is None {
        malformed("missing MME-UE-S1AP-ID")
    } else if enb_ue_id_in(ies) is None {
        malformed("missing eNB-UE-S1AP-ID")
    } else if ambr is None {
        malformed("missing UE-AggregateMaximumBitrate")
    } else if key is None {
        malformed("missing SecurityKey")
    } else {
        Ok(
            S1apMessageView::InitialContextSetupRequest(
                InitialContextSetupRequestView {
                    mme_ue_s1ap_id: mme_ue_id_in(ies)->0 as u32,
                    enb_ue_s1ap_id: enb_ue_id_in(ies)->0 as u32,
                    e_rabs: items_in(
                        ies,
                        ie::ID_E_RAB_TO_BE_SETUP_LIST_CTXT_SU_REQ,
                        get_erabs_to_setup(),
                    ),
                    nas_pdu: octet_string_in(ies, ie::ID_NAS_PDU),
                    ue_ambr: ambr->0,
                    security_key: key->0,
                },
            ),
        )
    }
}

pub open spec fn initial_context_setup_response_from(ies: Seq<Ie>) -> Result<S1apMessageView, ProtoError> {
    if mme_ue_id_in(ies) is None {
        malformed("missing MME-UE-S1AP-ID")
    } else if enb_ue_id_in(ies) is None {
        malformed("missing eNB-UE-S1AP-ID")
    } else {
        Ok(
            S1apMessageView::InitialContextSetupResponse(
                InitialContextSetupResponseView {
                    mme_ue_s1ap_id: mme_ue_id_in(ies)->0 as u32,
                    enb_ue_s1ap_id: enb_ue_id_in(ies)->0 as u32,
                    e_rabs_setup: items_in(
                        ies,
                        ie::ID_E_RAB_SETUP_LIST_CTXT_SU_RES,
                        get_erabs_setup(),
                    ),
                    e_rabs_failed: items_in(
                        ies,
                        ie::ID_E_RAB_FAILED_TO_SETUP_LIST_CTXT_SU_RES,
                        get_erab_ids(),
                    ),
                },
            ),
        )
    }
}

/// The message that procedure code, choice and IEs denote.
pub open spec fn message_from(choice: u64, procedure_code: u32, ies: Seq<Ie>) -> Result<S1apMessageView, ProtoError> {
    if procedure_code == ie::PROC_INITIAL_UE_MESSAGE {
        initial_ue_message_from(ies)
    } else if procedure_code == ie::PROC_UPLINK_NAS_TRANSPORT {
        uplink_nas_transport_from(ies)
    } else if procedure_code == ie::PROC_DOWNLINK_NAS_TRANSPORT {
        downlink_nas_transport_from(ies)
    } else if procedure_code == ie::PROC_INITIAL_CONTEXT_SETUP && choice == PDU_CHOICE_INITIATING_MESSAGE {
        initial_context_setup_request_from(ies)
    } else if procedure_code == ie::PROC_INITIAL_CONTEXT_SETUP && choice == PDU_CHOICE_SUCCESSFUL_OUTCOME {
        initial_context_setup_response_from(ies)
    } else {
        malformed(REASON_UNSUPPORTED_PROCEDURE)
    }
}

/// The message that octets denote.
pub open spec fn message(d: Seq<u8>) -> Result<S1apMessageView, ProtoError> {
    match get_pdu(d) {
        None => malformed("failed to decode PDU wrapper"),
        Some(pdu) => match value_of(get_container(pdu.value, 0)) {
            None => malformed("failed to decode IE container"),
            Some(ies) => message_from(pdu.choice, pdu.procedure_code, ies),
        },
    }
}

// ── Laws ──────────────────────────────────────────────────────────────────────

proof fn lemma_octets_value(s: Seq<u8>)
    ensures
        value_of(get_octets(octets_value(s), 0, s.len())) == Some(s),
{
    let w0 = Seq::<bool>::empty();
    lemma_pack(put_octets(w0, s));
    octets_round_trip(octets_value(s), w0, s);
}

proof fn lemma_bit_rates(ambr: (u64, u64))
    requires
        ambr.0 <= ie::BIT_RATE_MAX,
        ambr.1 <= ie::BIT_RATE_MAX,
    ensures
        get_bit_rates()(bit_rates_value(ambr)) == Some(ambr),
{
    let w0 = Seq::<bool>::empty();
    let w1 = put_int(w0, ambr.0 as int, 0, ie::BIT_RATE_MAX as int);
    let d = bit_rates_value(ambr);
    lemma_pack(put_int(w1, ambr.1 as int, 0, ie::BIT_RATE_MAX as int));
    int_round_trip(d, w1, ambr.1 as int, 0, ie::BIT_RATE_MAX as int);
    int_round_trip(d, w0, ambr.0 as int, 0, ie::BIT_RATE_MAX as int);
}

/// What is carried after filling up is read from the next octet boundary.
proof fn lemma_octets_after_pad(d: Seq<u8>, w: Seq<bool>, s: Seq<u8>)
    requires
        carries(d, put_octets(pad(w), s)),
    ensures
        get_octets(d, w.len(), s.len()) == Some((s, put_octets(pad(w), s).len())),
        put_octets(pad(w), s).len() % 8 == 0,
        carries(d, w),
{
    octets_round_trip(d, pad(w), s);
    lemma_carries_less(d, w, Seq::new(((8 - w.len() % 8) % 8) as nat, |k: int| false));
}

/// Reading a list of E-RABs to set up gives back those that were written, in
/// order and with all their fields.
pub proof fn erabs_to_setup_round_trip(s: Seq<ErabToSetupView>)
    requires
        s.len() <= MAX_LENGTH,
        forall|i: int| 0 <= i < s.len() ==> erab_to_setup_ok(#[trigger] s[i]),
    ensures
        get_erabs_to_setup()(erabs_to_setup_value(s)) == Some(s),
{
    let put = erab_to_setup_put();
    let get = erab_to_setup_get();
    let ok = |t: ErabToSetupView| erab_to_setup_ok(t);
    assert forall|d: Seq<u8>, w: Seq<bool>, t: ErabToSetupView| #[trigger]
        carries(d, put(w, t)) && ok(t) implies carries(d, w) && get(d, w.len()) == Some((t, put(w, t).len())) by {
        let w1 = put_int(w, t.erab_id as int, 0, ie::ERAB_ID_MAX as int);
        let w2 = put_int(w1, t.qci as int, 0, ie::QCI_MAX as int);
        let w3 = put_octets(pad(w2), t.gtp_teid);
        octets_round_trip(d, w3, t.transport_layer_addr);
        lemma_octets_after_pad(d, w2, t.gtp_teid);
        int_round_trip(d, w1, t.qci as int, 0, ie::QCI_MAX as int);
        int_round_trip(d, w, t.erab_id as int, 0, ie::ERAB_ID_MAX as int);
    }
    let w0 = Seq::<bool>::empty();
    lemma_pack(put_list(w0, s, put));
    assert forall|i: int| 0 <= i < s.len() implies ok(#[trigger] s[i]) by {
        assert(erab_to_setup_ok(s[i]));
    }
    list_round_trip(erabs_to_setup_value(s), w0, s, put, get, ok);
}

/// Reading a list of E-RABs that were set up gives back those that were
/// written, in order and with all their fields.
pub proof fn erabs_setup_round_trip(s: Seq<ErabSetupItemView>)
    requires
        s.len() <= MAX_LENGTH,
        forall|i: int| 0 <= i < s.len() ==> erab_setup_ok(#[trigger] s[i]),
    ensures
        get_erabs_setup()(erabs_setup_value(s)) == Some(s),
{
    let put = erab_setup_put();
    let get = erab_setup_get();
    let ok = |t: ErabSetupItemView| erab_setup_ok(t);
    assert forall|d: Seq<u8>, w: Seq<bool>, t: ErabSetupItemView| #[trigger]
        carries(d, put(w, t)) && ok(t) implies carries(d, w) && get(d, w.len()) == Some((t, put(w, t).len())) by {
        let w1 = put_int(w, t.e_rab_id as int, 0, ie::ERAB_ID_MAX as int);
        let w2 = put_octets(pad(w1), t.transport_layer_addr);
        octets_round_trip(d, w2, t.gtp_teid);
        lemma_octets_after_pad(d, w1, t.transport_layer_addr);
        int_round_trip(d, w, t.e_rab_id as int, 0, ie::ERAB_ID_MAX as int);
    }
    let w0 = Seq::<bool>::empty();
    lemma_pack(put_list(w0, s, put));
    assert forall|i: int| 0 <= i < s.len() implies ok(#[trigger] s[i]) by {
        assert(erab_setup_ok(s[i]));
    }
    list_round_trip(erabs_setup_value(s), w0, s, put, get, ok);
}

/// Reading a list of E-RAB identifiers gives back those that were written, in
/// order.
pub proof fn erab_ids_round_trip(s: Seq<u8>)
    requires
        s.len() <= MAX_LENGTH,
        forall|i: int| 0 <= i < s.len() ==> #[trigger] s[i] <= ie::ERAB_ID_MAX,
    ensures
        get_erab_ids()(erab_ids_value(s)) == Some(s),
{
    let put = erab_id_put();
    let get = erab_id_get();
    let ok = |t: u8| t <= ie::ERAB_ID_MAX;
    assert forall|d: Seq<u8>, w: Seq<bool>, t: u8| #[trigger] carries(d, put(w, t)) && ok(t) implies carries(d, w)
        && get(d, w.len()) == Some((t, put(w, t).len())) by {
        int_round_trip(d, w, t as int, 0, ie::ERAB_ID_MAX as int);
    }
    let w0 = Seq::<bool>::empty();
    lemma_pack(put_list(w0, s, put));
    list_round_trip(erab_ids_value(s), w0, s, put, get, ok);
}

/// The identifiers and criticalities that S1AP uses are within their ranges.
pub proof fn lemma_tagged(m: S1apMessageView)
    ensures
        ies_tagged(ies(m)),
{
}

proof fn lemma_initial_ue_message(v: InitialUeMessageView)
    requires
        initial_ue_message_ok(v),
    ensures
        initial_ue_message_from(initial_ue_message_ies(v)) == Ok::<S1apMessageView, ProtoError>(
            S1apMessageView::InitialUeMessage(v),
        ),
{
    broadcast use lemma_last_ie_push;

    lemma_int_value(v.enb_ue_s1ap_id as int, ie::ENB_UE_S1AP_ID_MAX);
    lemma_octet_string_value(v.nas_pdu);
    lemma_octets_value(v.tai);
    lemma_octets_value(v.eutran_cgi);
    lemma_int_value(v.rrc_cause as int, ie::RRC_ESTABLISHMENT_CAUSE_MAX);
}

proof fn lemma_uplink_nas_transport(v: UplinkNasTransportView)
    requires
        uplink_nas_transport_ok(v),
    ensures
        uplink_nas_transport_from(uplink_nas_transport_ies(v)) == Ok::<S1apMessageView, ProtoError>(
            S1apMessageView::UplinkNasTransport(v),
        ),
{
    broadcast use lemma_last_ie_push;

    lemma_int_value(v.mme_ue_s1ap_id as int, ie::MME_UE_S1AP_ID_MAX);
    lemma_int_value(v.enb_ue_s1ap_id as int, ie::ENB_UE_S1AP_ID_MAX);
    lemma_octet_string_value(v.nas_pdu);
    lemma_octets_value(v.tai);
    lemma_octets_value(v.eutran_cgi);
}

proof fn lemma_downlink_nas_transport(v: DownlinkNasTransportView)
    requires
        downlink_nas_transport_ok(v),
    ensures
        downlink_nas_transport_from(downlink_nas_transport_ies(v)) == Ok::<S1apMessageView, ProtoError>(
            S1apMessageView::DownlinkNasTransport(v),
        ),
{
    broadcast use lemma_last_ie_push;

    lemma_int_value(v.mme_ue_s1ap_id as int, ie::MME_UE_S1AP_ID_MAX);
    lemma_int_value(v.enb_ue_s1ap_id as int, ie::ENB_UE_S1AP_ID_MAX);
    lemma_octet_string_value(v.nas_pdu);
}

proof fn lemma_initial_context_setup_request(v: InitialContextSetupRequestView)
    requires
        initial_context_setup_request_ok(v),
    ensures
        initial_context_setup_request_from(initial_context_setup_request_ies(v)) == Ok::<S1apMessageView, ProtoError>(
            S1apMessageView::InitialContextSetupRequest(v),
        ),
{
    let all = initial_context_setup_request_ies(v);
    assert(int_in(all, ie::ID_MME_UE_S1AP_ID, ie::MME_UE_S1AP_ID_MAX) == Some(v.mme_ue_s1ap_id as int)) by {
        broadcast use lemma_last_ie_push;

        lemma_int_value(v.mme_ue_s1ap_id as int, ie::MME_UE_S1AP_ID_MAX);
    }
    assert(int_in(all, ie::ID_ENB_UE_S1AP_ID, ie::ENB_UE_S1AP_ID_MAX) == Some(v.enb_ue_s1ap_id as int)) by {
        broadcast use lemma_last_ie_push;

        lemma_int_value(v.enb_ue_s1ap_id as int, ie::ENB_UE_S1AP_ID_MAX);
    }
    assert(octet_string_in(all, ie::ID_NAS_PDU) == v.nas_pdu) by {
        broadcast use lemma_last_ie_push;

        if v.nas_pdu is Some {
            lemma_octet_string_value(v.nas_pdu->0);
        }
    }
    assert(octets_in(all, ie::ID_SECURITY_KEY, 32) == Some(v.security_key)) by {
        broadcast use lemma_last_ie_push;

        lemma_octets_value(v.security_key);
    }
    assert(last_parsed(all, ie::ID_UE_AGGREGATE_MAXIMUM_BITRATE, get_bit_rates()) == Some(v.ue_ambr)) by {
        broadcast use lemma_last_parsed_push;

        lemma_bit_rates(v.ue_ambr);
    }
    assert(items_in(all, ie::ID_E_RAB_TO_BE_SETUP_LIST_CTXT_SU_REQ, get_erabs_to_setup()) == v.e_rabs)
        by {
        broadcast use lemma_last_parsed_push;

        erabs_to_setup_round_trip(v.e_rabs);
        assert(v.e_rabs.len() == 0 ==> v.e_rabs =~= Seq::<ErabToSetupView>::empty());
    }
}

proof fn lemma_initial_context_setup_response(v: InitialContextSetupResponseView)
    requires
        initial_context_setup_response_ok(v),
    ensures
        initial_context_setup_response_from(initial_context_setup_response_ies(v)) == Ok::<
            S1apMessageView,
            ProtoError,
        >(S1apMessageView::InitialContextSetupResponse(v)),
{
    let all = initial_context_setup_response_ies(v);
    assert(int_in(all, ie::ID_MME_UE_S1AP_ID, ie::MME_UE_S1AP_ID_MAX) == Some(v.mme_ue_s1ap_id as int)) by {
        broadcast use lemma_last_ie_push;

        lemma_int_value(v.mme_ue_s1ap_id as int, ie::MME_UE_S1AP_ID_MAX);
    }
    assert(int_in(all, ie::ID_ENB_UE_S1AP_ID, ie::ENB_UE_S1AP_ID_MAX) == Some(v.enb_ue_s1ap_id as int)) by {
        broadcast use lemma_last_ie_push;

        lemma_int_value(v.enb_ue_s1ap_id as int, ie::ENB_UE_S1AP_ID_MAX);
    }
    assert(items_in(all, ie::ID_E_RAB_SETUP_LIST_CTXT_SU_RES, get_erabs_setup())
        == v.e_rabs_setup) by {
        broadcast use lemma_last_parsed_push;

        erabs_setup_round_trip(v.e_rabs_setup);
        assert(v.e_rabs_setup.len() == 0 ==> v.e_rabs_setup =~= Seq::<ErabSetupItemView>::empty());
    }
    assert(items_in(all, ie::ID_E_RAB_FAILED_TO_SETUP_LIST_CTXT_SU_RES, get_erab_ids())
        == v.e_rabs_failed) by {
        broadcast use lemma_last_parsed_push;

        erab_ids_round_trip(v.e_rabs_failed);
        assert(v.e_rabs_failed.len() == 0 ==> v.e_rabs_failed =~= Seq::<u8>::empty());
    }
}

proof fn lemma_message_from_ies(m: S1apMessageView)
    requires
        encodable(m),
    ensures
        message_from(choice(m), procedure_code(m), ies(m)) == Ok::<S1apMessageView, ProtoError>(m),
{
    match m {
        S1apMessageView::InitialUeMessage(v) => lemma_initial_ue_message(v),
        S1apMessageView::UplinkNasTransport(v) => lemma_uplink_nas_transport(v),
        S1apMessageView::DownlinkNasTransport(v) => lemma_downlink_nas_transport(v),
        S1apMessageView::InitialContextSetupRequest(v) => lemma_initial_context_setup_request(v),
        S1apMessageView::InitialContextSetupResponse(v) => lemma_initial_context_setup_response(v),
        _ => {},
    }
}

/// Decoding the encoding of a message gives the message back.
pub proof fn s1ap_round_trip(m: S1apMessageView)
    requires
        encodable(m),
    ensures
        message(octets(m)) == Ok::<S1apMessageView, ProtoError>(m),
{
    lemma_tagged(m);
    message_round_trip(choice(m), procedure_code(m), criticality(m), ies(m));
    lemma_message_from_ies(m);
}

/// Two messages with the same encoding are the same message.
pub proof fn s1ap_encoding_is_injective(a: S1apMessageView, b: S1apMessageView)
    requires
        encodable(a),
        encodable(b),
        octets(a) == octets(b),
    ensures
        a == b,
{
    s1ap_round_trip(a);
    s1ap_round_trip(b);
}

/// A NAS PDU of up to 16000 octets fits into each of the three messages that
/// carry one.
pub proof fn nas_transport_fits(m: S1apMessageView)
    requires
        match m {
            S1apMessageView::InitialUeMessage(v) => {
                &&& v.nas_pdu.len() <= 16_000
                &&& v.enb_ue_s1ap_id <= ie::ENB_UE_S1AP_ID_MAX
                &&& v.tai.len() == 5
                &&& v.eutran_cgi.len() == 7
                &&& v.rrc_cause <= ie::RRC_ESTABLISHMENT_CAUSE_MAX
            },
            S1apMessageView::UplinkNasTransport(v) => {
                &&& v.nas_pdu.len() <= 16_000
                &&& v.enb_ue_s1ap_id <= ie::ENB_UE_S1AP_ID_MAX
                &&& v.tai.len() == 5
                &&& v.eutran_cgi.len() == 7
            },
            S1apMessageView::DownlinkNasTransport(v) => {
                &&& v.nas_pdu.len() <= 16_000
                &&& v.enb_ue_s1ap_id <= ie::ENB_UE_S1AP_ID_MAX
            },
            _ => false,
        },
    ensures
        encodable(m),
{
    broadcast use lemma_ies_size_push;

    match m {
        S1apMessageView::InitialUeMessage(v) => {
            lemma_int_value_len(v.enb_ue_s1ap_id as int, ie::ENB_UE_S1AP_ID_MAX);
            lemma_int_value_len(v.rrc_cause as int, ie::RRC_ESTABLISHMENT_CAUSE_MAX);
            lemma_octet_string_value_len(v.nas_pdu);
            lemma_packed_len(put_octets(Seq::empty(), v.tai));
            lemma_packed_len(put_octets(Seq::empty(), v.eutran_cgi));
            small_message_fits(initial_ue_message_ies(v));
        },
        S1apMessageView::UplinkNasTransport(v) => {
            lemma_int_value_len(v.mme_ue_s1ap_id as int, ie::MME_UE_S1AP_ID_MAX);
            lemma_int_value_len(v.enb_ue_s1ap_id as int, ie::ENB_UE_S1AP_ID_MAX);
            lemma_octet_string_value_len(v.nas_pdu);
            lemma_packed_len(put_octets(Seq::empty(), v.tai));
            lemma_packed_len(put_octets(Seq::empty(), v.eutran_cgi));
            small_message_fits(uplink_nas_transport_ies(v));
        },
        S1apMessageView::DownlinkNasTransport(v) => {
            lemma_int_value_len(v.mme_ue_s1ap_id as int, ie::MME_UE_S1AP_ID_MAX);
            lemma_int_value_len(v.enb_ue_s1ap_id as int, ie::ENB_UE_S1AP_ID_MAX);
            lemma_octet_string_value_len(v.nas_pdu);
            small_message_fits(downlink_nas_transport_ies(v));
        },
        _ => {},
    }
}

proof fn lemma_bit_rates_len(ambr: (u64, u64))
    ensures
        bit_rates_value(ambr).len() <= 16,
{
    let first = put_int(Seq::empty(), ambr.0 as int, 0, ie::BIT_RATE_MAX as int);
    lemma_int_len(Seq::empty(), ambr.0 as int, ie::BIT_RATE_MAX);
    lemma_int_len(first, ambr.1 as int, ie::BIT_RATE_MAX);
    lemma_packed_len(put_int(first, ambr.1 as int, 0, ie::BIT_RATE_MAX as int));
}

proof fn lemma_erab_to_setup_len(s: Seq<ErabToSetupView>)
    requires
        s.len() == 1,
        erab_to_setup_ok(s[0]),
    ensures
        erabs_to_setup_value(s).len() <= 30,
{
    let start = put_length(Seq::empty(), 1);
    let first = put_int(start, s[0].erab_id as int, 0, ie::ERAB_ID_MAX as int);
    lemma_list_of_one(s, erab_to_setup_put());
    lemma_int_len(start, s[0].erab_id as int, ie::ERAB_ID_MAX);
    lemma_int_len(first, s[0].qci as int, ie::QCI_MAX);
    lemma_packed_len(put_list(Seq::empty(), s, erab_to_setup_put()));
}

proof fn lemma_erab_setup_len(s: Seq<ErabSetupItemView>)
    requires
        s.len() == 1,
        erab_setup_ok(s[0]),
    ensures
        erabs_setup_value(s).len() <= 30,
{
    let start = put_length(Seq::empty(), 1);
    lemma_list_of_one(s, erab_setup_put());
    lemma_int_len(start, s[0].e_rab_id as int, ie::ERAB_ID_MAX);
    lemma_packed_len(put_list(Seq::empty(), s, erab_setup_put()));
}

/// A context setup request for one E-RAB fits, with a NAS PDU of up to 15000
/// octets.
pub proof fn context_setup_request_fits(v: InitialContextSetupRequestView)
    requires
        initial_context_setup_request_in_range(v),
        v.e_rabs.len() == 1,
        v.nas_pdu is Some ==> v.nas_pdu->0.len() <= 15_000,
    ensures
        encodable(S1apMessageView::InitialContextSetupRequest(v)),
{
    broadcast use lemma_ies_size_push;

    lemma_int_value_len(v.mme_ue_s1ap_id as int, ie::MME_UE_S1AP_ID_MAX);
    lemma_int_value_len(v.enb_ue_s1ap_id as int, ie::ENB_UE_S1AP_ID_MAX);
    lemma_packed_len(put_octets(Seq::empty(), v.security_key));
    lemma_bit_rates_len(v.ue_ambr);
    lemma_erab_to_setup_len(v.e_rabs);
    if v.nas_pdu is Some {
        lemma_octet_string_value_len(v.nas_pdu->0);
    }
    small_message_fits(initial_context_setup_request_ies(v));
}

/// A context setup response for one E-RAB that was set up fits.
pub proof fn context_setup_response_fits(v: InitialContextSetupResponseView)
    requires
        initial_context_setup_response_in_range(v),
        v.e_rabs_setup.len() == 1,
        v.e_rabs_failed.len() == 0,
    ensures
        encodable(S1apMessageView::InitialContextSetupResponse(v)),
{
    broadcast use lemma_ies_size_push;

    lemma_int_value_len(v.mme_ue_s1ap_id as int, ie::MME_UE_S1AP_ID_MAX);
    lemma_int_value_len(v.enb_ue_s1ap_id as int, ie::ENB_UE_S1AP_ID_MAX);
    lemma_erab_setup_len(v.e_rabs_setup);
    small_message_fits(initial_context_setup_response_ies(v));
}

/// A request and the response that shares its procedure code differ in the
/// PDU choice.
pub proof fn outcomes_are_told_apart(a: S1apMessageView, b: S1apMessageView)
    requires
        supported(a),
        supported(b),
        procedure_code(a) == procedure_code(b),
        choice(a) == choice(b),
    ensures
        a is InitialUeMessage <==> b is InitialUeMessage,
        a is UplinkNasTransport <==> b is UplinkNasTransport,
        a is DownlinkNasTransport <==> b is DownlinkNasTransport,
        a is InitialContextSetupRequest <==> b is InitialContextSetupRequest,
        a is InitialContextSetupResponse <==> b is InitialContextSetupResponse,
{
}

/// The identifiers of the IEs that a decoder reads.
pub open spec fn known_ids(choice: u64, procedure_code: u32) -> Set<u32> {
    if procedure_code == ie::PROC_INITIAL_UE_MESSAGE {
        set![
            ie::ID_ENB_UE_S1AP_ID,
            ie::ID_NAS_PDU,
            ie::ID_TAI,
            ie::ID_EUTRAN_CGI,
            ie::ID_RRC_ESTABLISHMENT_CAUSE,
        ]
    } else if procedure_code == ie::PROC_UPLINK_NAS_TRANSPORT {
        set![ie::ID_MME_UE_S1AP_ID, ie::ID_ENB_UE_S1AP_ID, ie::ID_NAS_PDU, ie::ID_TAI, ie::ID_EUTRAN_CGI]
    } else if procedure_code == ie::PROC_DOWNLINK_NAS_TRANSPORT {
        set![ie::ID_MME_UE_S1AP_ID, ie::ID_ENB_UE_S1AP_ID, ie::ID_NAS_PDU]
    } else if procedure_code == ie::PROC_INITIAL_CONTEXT_SETUP && choice == PDU_CHOICE_INITIATING_MESSAGE {
        set![
            ie::ID_MME_UE_S1AP_ID,
            ie::ID_ENB_UE_S1AP_ID,
            ie::ID_UE_AGGREGATE_MAXIMUM_BITRATE,
            ie::ID_SECURITY_KEY,
            ie::ID_E_RAB_TO_BE_SETUP_LIST_CTXT_SU_REQ,
            ie::ID_NAS_PDU,
        ]
    } else if procedure_code == ie::PROC_INITIAL_CONTEXT_SETUP && choice == PDU_CHOICE_SUCCESSFUL_OUTCOME {
        set![
            ie::ID_MME_UE_S1AP_ID,
            ie::ID_ENB_UE_S1AP_ID,
            ie::ID_E_RAB_SETUP_LIST_CTXT_SU_RES,
            ie::ID_E_RAB_FAILED_TO_SETUP_LIST_CTXT_SU_RES,
        ]
    } else {
        Set::empty()
    }
}

/// The order of the IEs, their criticalities and IEs that the decoder does not
/// know do not change what a message decodes to, nor the error where it does
/// not decode, as long as no known IE occurs twice.
pub proof fn only_known_values_matter(choice: u64, procedure_code: u32, a: Seq<Ie>, b: Seq<Ie>)
    requires
        forall|id: u32| #[trigger] known_ids(choice, procedure_code).contains(id) ==> same_value(a, b, id),
    ensures
        message_from(choice, procedure_code, a) == message_from(choice, procedure_code, b),
{
    let known = known_ids(choice, procedure_code);
    if known.contains(ie::ID_MME_UE_S1AP_ID) {
        same_values_are_read_alike(a, b, ie::ID_MME_UE_S1AP_ID);
    }
    if known.contains(ie::ID_ENB_UE_S1AP_ID) {
        same_values_are_read_alike(a, b, ie::ID_ENB_UE_S1AP_ID);
    }
    if known.contains(ie::ID_NAS_PDU) {
        same_values_are_read_alike(a, b, ie::ID_NAS_PDU);
    }
    if known.contains(ie::ID_TAI) {
        same_values_are_read_alike(a, b, ie::ID_TAI);
    }
    if known.contains(ie::ID_EUTRAN_CGI) {
        same_values_are_read_alike(a, b, ie::ID_EUTRAN_CGI);
    }
    if known.contains(ie::ID_RRC_ESTABLISHMENT_CAUSE) {
        same_values_are_read_alike(a, b, ie::ID_RRC_ESTABLISHMENT_CAUSE);
    }
    if known.contains(ie::ID_SECURITY_KEY) {
        same_values_are_read_alike(a, b, ie::ID_SECURITY_KEY);
    }
    if known.contains(ie::ID_UE_AGGREGATE_MAXIMUM_BITRATE) {
        same_values_are_parsed_alike(a, b, ie::ID_UE_AGGREGATE_MAXIMUM_BITRATE, get_bit_rates());
    }
    if known.contains(ie::ID_E_RAB_TO_BE_SETUP_LIST_CTXT_SU_REQ) {
        same_values_are_parsed_alike(a, b, ie::ID_E_RAB_TO_BE_SETUP_LIST_CTXT_SU_REQ, get_erabs_to_setup());
    }
    if known.contains(ie::ID_E_RAB_SETUP_LIST_CTXT_SU_RES) {
        same_values_are_parsed_alike(a, b, ie::ID_E_RAB_SETUP_LIST_CTXT_SU_RES, get_erabs_setup());
    }
    if known.contains(ie::ID_E_RAB_FAILED_TO_SETUP_LIST_CTXT_SU_RES) {
        same_values_are_parsed_alike(a, b, ie::ID_E_RAB_FAILED_TO_SETUP_LIST_CTXT_SU_RES, get_erab_ids());
    }
}

/// Two encodings that differ in no more than the order of the IEs, the
/// criticalities and IEs that the decoder does not know decode alike.
pub proof fn equivalent_encodings_decode_alike(
    choice: u64,
    procedure_code: u32,
    criticality_a: u8,
    criticality_b: u8,
    a: Seq<Ie>,
    b: Seq<Ie>,
)
    requires
        choice <= PDU_CHOICE_MAX,
        procedure_code <= PROCEDURE_CODE_MAX,
        criticality_a <= CRITICALITY_MAX,
        criticality_b <= CRITICALITY_MAX,
        ies_tagged(a),
        ies_tagged(b),
        message_fits(a),
        message_fits(b),
        forall|id: u32| #[trigger] known_ids(choice, procedure_code).contains(id) ==> same_value(a, b, id),
    ensures
        message(message_octets(choice, procedure_code, criticality_a, a)) == message(
            message_octets(choice, procedure_code, criticality_b, b),
        ),
{
    message_round_trip(choice, procedure_code, criticality_a, a);
    message_round_trip(choice, procedure_code, criticality_b, b);
    only_known_values_matter(choice, procedure_code, a, b);
}

} // verus!
