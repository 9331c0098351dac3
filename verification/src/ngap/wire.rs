//! The NGAP wire format as mathematics: which IEs each message has, what a
//! decoder makes of a sequence of IEs, and the law that decoding undoes
//! encoding.

use vstd::prelude::*;

use crate::ap::{
    get_container, get_pdu, ies_tagged, int_in, int_value, last_ie, last_parsed, lemma_ies_size_push, lemma_int_value,
    lemma_int_value_len, lemma_last_ie_push, lemma_last_parsed_push, lemma_octet_string_value,
    lemma_octet_string_value_len, message_fits, message_octets, message_round_trip, octet_string_in,
    octet_string_value, same_value, same_values_are_parsed_alike, same_values_are_read_alike, small_message_fits, Ie,
    CRITICALITY_MAX, PDU_CHOICE_INITIATING_MESSAGE, PDU_CHOICE_MAX, PDU_CHOICE_SUCCESSFUL_OUTCOME, PROCEDURE_CODE_MAX,
};
use crate::error::ProtoError;
use crate::ngap::ie_ids as ie;
use crate::ngap::messages::{
    DownlinkNasTransportView, InitialContextSetupRequestView, InitialContextSetupResponseView, InitialUeMessageView,
    NgapCause, NgapMessageView, PduSessionSetupItemView, PduSessionToSetupView, UeContextReleaseCompleteView,
    UplinkNasTransportView,
};
use crate::per::{
    bits_to_octets, carries, get_int, get_list, get_octets, int_round_trip, lemma_carries_less, lemma_int_len,
    lemma_list_of_one, lemma_pack, lemma_packed_len, list_round_trip, octets_round_trip, pad, put_int, put_length,
    put_list, put_octets, value_of, MAX_LENGTH,
};

verus! {

pub const REASON_UNSUPPORTED_MESSAGE: &'static str =
    "PER encoding not yet implemented for this NGAP message — only InitialUEMessage/Uplink/DownlinkNASTransport/ InitialContextSetupRequest/Response/UeContextReleaseCommand/Complete";

pub const REASON_NOT_ENCODABLE: &'static str =
    "a field is outside its PER range, or a length above what a length determinant carries";

pub const REASON_UNSUPPORTED_PROCEDURE: &'static str =
    "unsupported procedure code (or PDU choice) — only InitialUEMessage/Uplink/ DownlinkNASTransport/InitialContextSetupRequest/Response/ UeContextReleaseCommand/Complete";

pub open spec fn malformed<T>(reason: &'static str) -> Result<T, ProtoError> {
    Err(ProtoError::MalformedNgap { reason })
}

// ── Fields ────────────────────────────────────────────────────────────────────

pub open spec fn cause_number(c: NgapCause) -> int {
    match c {
        NgapCause::RadioNetworkUnspecified => 0,
        NgapCause::TransportUnspecified => 1,
        NgapCause::NasNormalRelease => 2,
        NgapCause::NasDeregister => 3,
        NgapCause::NasAuthFailure => 4,
        NgapCause::ProtocolUnspecified => 5,
        NgapCause::MiscUnspecified => 6,
    }
}

pub open spec fn cause_of(v: int) -> Option<NgapCause> {
    if v == 0 {
        Some(NgapCause::RadioNetworkUnspecified)
    } else if v == 1 {
        Some(NgapCause::TransportUnspecified)
    } else if v == 2 {
        Some(NgapCause::NasNormalRelease)
    } else if v == 3 {
        Some(NgapCause::NasDeregister)
    } else if v == 4 {
        Some(NgapCause::NasAuthFailure)
    } else if v == 5 {
        Some(NgapCause::ProtocolUnspecified)
    } else if v == 6 {
        Some(NgapCause::MiscUnspecified)
    } else {
        None
    }
}

/// NR-CGI and TAI, one after the other.
pub open spec fn location_value(nr_cgi: Seq<u8>, tai: Seq<u8>) -> Seq<u8> {
    bits_to_octets(put_octets(put_octets(Seq::empty(), nr_cgi), tai))
}

pub open spec fn get_location(d: Seq<u8>, pos: nat) -> Option<((Seq<u8>, Seq<u8>), nat)> {
    match get_octets(d, pos, 9) {
        None => None,
        Some((nr_cgi, p1)) => match get_octets(d, p1, 6) {
            None => None,
            Some((tai, p2)) => Some(((nr_cgi, tai), p2)),
        },
    }
}

pub open spec fn location_in(ies: Seq<Ie>) -> Option<(Seq<u8>, Seq<u8>)> {
    match last_ie(ies, ie::ID_USER_LOCATION_INFO) {
        None => None,
        Some(v) => value_of(get_location(v, 0)),
    }
}

/// Both bit rates, one after the other.
pub open spec fn bit_rates_value(ambr: (u64, u64)) -> Seq<u8> {
    bits_to_octets(
        put_int(
            put_int(Seq::empty(), ambr.0 as int, 0, ie::BIT_RATE_MAX as int),
            ambr.1 as int,
            0,
            ie::BIT_RATE_MAX as int,
        ),
    )
}

pub open spec fn get_bit_rates() -> spec_fn(Seq<u8>) -> Option<(u64, u64)> {
    |d: Seq<u8>|
        match get_int(d, 0, 0, ie::BIT_RATE_MAX as int) {
            None => None,
            Some((dl, p)) => match get_int(d, p, 0, ie::BIT_RATE_MAX as int) {
                None => None,
                Some((ul, _)) => Some((dl as u64, ul as u64)),
            },
        }
}

pub open spec fn key_value(key: Seq<u8>) -> Seq<u8> {
    bits_to_octets(put_octets(Seq::empty(), key))
}

pub open spec fn get_key() -> spec_fn(Seq<u8>) -> Option<Seq<u8>> {
    |d: Seq<u8>| value_of(get_octets(d, 0, 32))
}

// ── PDU session lists ─────────────────────────────────────────────────────────

pub open spec fn session_to_setup_put() -> spec_fn(Seq<bool>, PduSessionToSetupView) -> Seq<bool> {
    |w: Seq<bool>, s: PduSessionToSetupView|
        put_octets(
            put_octets(
                pad(
                    put_int(
                        put_int(w, s.pdu_session_id as int, 0, ie::PDU_SESSION_ID_MAX as int),
                        s.qfi as int,
                        0,
                        ie::QFI_MAX as int,
                    ),
                ),
                s.gtp_teid,
            ),
            s.transport_layer_addr,
        )
}

pub open spec fn session_to_setup_get() -> spec_fn(Seq<u8>, nat) -> Option<(PduSessionToSetupView, nat)> {
    |d: Seq<u8>, pos: nat|
        match get_int(d, pos, 0, ie::PDU_SESSION_ID_MAX as int) {
            None => None,
            Some((id, p1)) => match get_int(d, p1, 0, ie::QFI_MAX as int) {
                None => None,
                Some((qfi, p2)) => match get_octets(d, p2, 4) {
                    None => None,
                    Some((gtp_teid, p3)) => match get_octets(d, p3, 4) {
                        None => None,
                        Some((transport_layer_addr, p4)) => Some(
                            (
                                PduSessionToSetupView {
                                    pdu_session_id: id as u8,
                                    qfi: qfi as u8,
                                    gtp_teid,
                                    transport_layer_addr,
                                },
                                p4,
                            ),
                        ),
                    },
                },
            },
        }
}

pub open spec fn session_to_setup_ok(s: PduSessionToSetupView) -> bool {
    s.qfi <= ie::QFI_MAX && s.gtp_teid.len() == 4 && s.transport_layer_addr.len() == 4
}

pub open spec fn sessions_to_setup_value(s: Seq<PduSessionToSetupView>) -> Seq<u8> {
    bits_to_octets(put_list(Seq::empty(), s, session_to_setup_put()))
}

pub open spec fn get_sessions_to_setup() -> spec_fn(Seq<u8>) -> Option<Seq<PduSessionToSetupView>> {
    |d: Seq<u8>| value_of(get_list(d, 0, session_to_setup_get()))
}

pub open spec fn session_setup_put() -> spec_fn(Seq<bool>, PduSessionSetupItemView) -> Seq<bool> {
    |w: Seq<bool>, s: PduSessionSetupItemView|
        put_octets(
            put_octets(
                pad(put_int(w, s.pdu_session_id as int, 0, ie::PDU_SESSION_ID_MAX as int)),
                s.transport_layer_addr,
            ),
            s.gtp_teid,
        )
}

pub open spec fn session_setup_get() -> spec_fn(Seq<u8>, nat) -> Option<(PduSessionSetupItemView, nat)> {
    |d: Seq<u8>, pos: nat|
        match get_int(d, pos, 0, ie::PDU_SESSION_ID_MAX as int) {
            None => None,
            Some((id, p1)) => match get_octets(d, p1, 4) {
                None => None,
                Some((transport_layer_addr, p2)) => match get_octets(d, p2, 4) {
                    None => None,
                    Some((gtp_teid, p3)) => Some(
                        (PduSessionSetupItemView { pdu_session_id: id as u8, transport_layer_addr, gtp_teid }, p3),
                    ),
                },
            },
        }
}

pub open spec fn session_setup_ok(s: PduSessionSetupItemView) -> bool {
    s.gtp_teid.len() == 4 && s.transport_layer_addr.len() == 4
}

pub open spec fn sessions_setup_value(s: Seq<PduSessionSetupItemView>) -> Seq<u8> {
    bits_to_octets(put_list(Seq::empty(), s, session_setup_put()))
}

pub open spec fn get_sessions_setup() -> spec_fn(Seq<u8>) -> Option<Seq<PduSessionSetupItemView>> {
    |d: Seq<u8>| value_of(get_list(d, 0, session_setup_get()))
}

pub open spec fn session_id_put() -> spec_fn(Seq<bool>, u8) -> Seq<bool> {
    |w: Seq<bool>, id: u8| put_int(w, id as int, 0, ie::PDU_SESSION_ID_MAX as int)
}

pub open spec fn session_id_get() -> spec_fn(Seq<u8>, nat) -> Option<(u8, nat)> {
    |d: Seq<u8>, pos: nat|
        match get_int(d, pos, 0, ie::PDU_SESSION_ID_MAX as int) {
            None => None,
            Some((id, p)) => Some((id as u8, p)),
        }
}

pub open spec fn session_ids_value(ids: Seq<u8>) -> Seq<u8> {
    bits_to_octets(put_list(Seq::empty(), ids, session_id_put()))
}

pub open spec fn get_session_ids() -> spec_fn(Seq<u8>) -> Option<Seq<u8>> {
    |d: Seq<u8>| value_of(get_list(d, 0, session_id_get()))
}

/// The items of a list IE; none when no IE holds a readable list.
pub open spec fn items_in<T>(ies: Seq<Ie>, id: u32, parse: spec_fn(Seq<u8>) -> Option<Seq<T>>) -> Seq<T> {
    match last_parsed(ies, id, parse) {
        None => Seq::empty(),
        Some(items) => items,
    }
}

// ── Messages to IEs ───────────────────────────────────────────────────────────

pub open spec fn amf_ue_id_ie(id: u32, criticality: u8) -> Ie {
    Ie { id: ie::ID_AMF_UE_NGAP_ID, criticality, value: int_value(id as int, ie::AMF_UE_NGAP_ID_MAX) }
}

pub open spec fn ran_ue_id_ie(id: u32, criticality: u8) -> Ie {
    Ie { id: ie::ID_RAN_UE_NGAP_ID, criticality, value: int_value(id as int, ie::RAN_UE_NGAP_ID_MAX) }
}

pub open spec fn nas_pdu_ie(nas_pdu: Seq<u8>) -> Ie {
    Ie { id: ie::ID_NAS_PDU, criticality: ie::CRITICALITY_REJECT, value: octet_string_value(nas_pdu) }
}

pub open spec fn location_ie(nr_cgi: Seq<u8>, tai: Seq<u8>) -> Ie {
    Ie {
        id: ie::ID_USER_LOCATION_INFO,
        criticality: ie::CRITICALITY_IGNORE,
        value: location_value(nr_cgi, tai),
    }
}

pub open spec fn initial_ue_message_ies(m: InitialUeMessageView) -> Seq<Ie> {
    Seq::empty().push(ran_ue_id_ie(m.ran_ue_ngap_id, ie::CRITICALITY_REJECT)).push(nas_pdu_ie(m.nas_pdu)).push(
        location_ie(m.nr_cgi, m.tai),
    ).push(
        Ie {
            id: ie::ID_RRC_ESTABLISHMENT_CAUSE,
            criticality: ie::CRITICALITY_IGNORE,
            value: int_value(m.rrc_establishment_cause as int, ie::RRC_ESTABLISHMENT_CAUSE_MAX),
        },
    )
}

pub open spec fn initial_ue_message_ok(m: InitialUeMessageView) -> bool {
    &&& m.nas_pdu.len() <= MAX_LENGTH
    &&& m.tai.len() == 6
    &&& m.nr_cgi.len() == 9
    &&& m.rrc_establishment_cause <= ie::RRC_ESTABLISHMENT_CAUSE_MAX
    &&& message_fits(initial_ue_message_ies(m))
}

pub open spec fn uplink_nas_transport_ies(m: UplinkNasTransportView) -> Seq<Ie> {
    Seq::empty().push(amf_ue_id_ie(m.amf_ue_ngap_id, ie::CRITICALITY_REJECT)).push(
        ran_ue_id_ie(m.ran_ue_ngap_id, ie::CRITICALITY_REJECT),
    ).push(nas_pdu_ie(m.nas_pdu)).push(location_ie(m.nr_cgi, m.tai))
}

pub open spec fn uplink_nas_transport_ok(m: UplinkNasTransportView) -> bool {
    &&& m.nas_pdu.len() <= MAX_LENGTH
    &&& m.tai.len() == 6
    &&& m.nr_cgi.len() == 9
    &&& message_fits(uplink_nas_transport_ies(m))
}

pub open spec fn downlink_nas_transport_ies(m: DownlinkNasTransportView) -> Seq<Ie> {
    Seq::empty().push(amf_ue_id_ie(m.amf_ue_ngap_id, ie::CRITICALITY_REJECT)).push(
        ran_ue_id_ie(m.ran_ue_ngap_id, ie::CRITICALITY_REJECT),
    ).push(nas_pdu_ie(m.nas_pdu))
}

pub open spec fn downlink_nas_transport_ok(m: DownlinkNasTransportView) -> bool {
    &&& m.nas_pdu.len() <= MAX_LENGTH
    &&& message_fits(downlink_nas_transport_ies(m))
}

pub open spec fn initial_context_setup_request_ies(m: InitialContextSetupRequestView) -> Seq<Ie> {
    let fixed = Seq::empty().push(amf_ue_id_ie(m.amf_ue_ngap_id, ie::CRITICALITY_REJECT)).push(
        ran_ue_id_ie(m.ran_ue_ngap_id, ie::CRITICALITY_REJECT),
    ).push(
        Ie { id: ie::ID_SECURITY_KEY, criticality: ie::CRITICALITY_REJECT, value: key_value(m.security_key) },
    ).push(
        Ie {
            id: ie::ID_UE_AGGREGATE_MAX_BIT_RATE,
            criticality: ie::CRITICALITY_IGNORE,
            value: bit_rates_value(m.ue_ambr),
        },
    );
    let with_sessions = if m.pdu_sessions.len() == 0 {
        fixed
    } else {
        fixed.push(
            Ie {
                id: ie::ID_PDU_SESSION_RESOURCE_SETUP_LIST_CTXT_REQ,
                criticality: ie::CRITICALITY_REJECT,
                value: sessions_to_setup_value(m.pdu_sessions),
            },
        )
    };
    match m.nas_pdu {
        None => with_sessions,
        Some(nas_pdu) => with_sessions.push(nas_pdu_ie(nas_pdu)),
    }
}

/// What an octet string or a list in the message can hold.
pub open spec fn initial_context_setup_request_in_range(m: InitialContextSetupRequestView) -> bool {
    &&& m.ue_ambr.0 <= ie::BIT_RATE_MAX
    &&& m.ue_ambr.1 <= ie::BIT_RATE_MAX
    &&& m.security_key.len() == 32
    &&& m.pdu_sessions.len() <= MAX_LENGTH
    &&& forall|i: int| 0 <= i < m.pdu_sessions.len() ==> session_to_setup_ok(#[trigger] m.pdu_sessions[i])
    &&& m.nas_pdu is Some ==> m.nas_pdu->0.len() <= MAX_LENGTH
}

pub open spec fn initial_context_setup_request_ok(m: InitialContextSetupRequestView) -> bool {
    &&& initial_context_setup_request_in_range(m)
    &&& message_fits(initial_context_setup_request_ies(m))
}

pub open spec fn initial_context_setup_response_ies(m: InitialContextSetupResponseView) -> Seq<Ie> {
    let fixed = Seq::empty().push(amf_ue_id_ie(m.amf_ue_ngap_id, ie::CRITICALITY_REJECT)).push(
        ran_ue_id_ie(m.ran_ue_ngap_id, ie::CRITICALITY_REJECT),
    );
    let with_setup = if m.pdu_sessions_setup.len() == 0 {
        fixed
    } else {
        fixed.push(
            Ie {
                id: ie::ID_PDU_SESSION_RESOURCE_SETUP_LIST_CTXT_RES,
                criticality: ie::CRITICALITY_IGNORE,
                value: sessions_setup_value(m.pdu_sessions_setup),
            },
        )
    };
    if m.pdu_sessions_failed.len() == 0 {
        with_setup
    } else {
        with_setup.push(
            Ie {
                id: ie::ID_PDU_SESSION_RESOURCE_FAILED_TO_SETUP_LIST_CTXT_RES,
                criticality: ie::CRITICALITY_IGNORE,
                value: session_ids_value(m.pdu_sessions_failed),
            },
        )
    }
}

pub open spec fn initial_context_setup_response_in_range(m: InitialContextSetupResponseView) -> bool {
    &&& m.pdu_sessions_setup.len() <= MAX_LENGTH
    &&& forall|i: int| 0 <= i < m.pdu_sessions_setup.len() ==> session_setup_ok(#[trigger] m.pdu_sessions_setup[i])
    &&& m.pdu_sessions_failed.len() <= MAX_LENGTH
}

pub open spec fn initial_context_setup_response_ok(m: InitialContextSetupResponseView) -> bool {
    &&& initial_context_setup_response_in_range(m)
    &&& message_fits(initial_context_setup_response_ies(m))
}

pub open spec fn ue_context_release_command_ies(amf_ue_ngap_id: u32, ran_ue_ngap_id: u32, cause: NgapCause) -> Seq<Ie> {
    Seq::empty().push(amf_ue_id_ie(amf_ue_ngap_id, ie::CRITICALITY_REJECT)).push(
        ran_ue_id_ie(ran_ue_ngap_id, ie::CRITICALITY_REJECT),
    ).push(
        Ie {
            id: ie::ID_CAUSE,
            criticality: ie::CRITICALITY_IGNORE,
            value: int_value(cause_number(cause), ie::CAUSE_MAX),
        },
    )
}

pub open spec fn ue_context_release_complete_ies(m: UeContextReleaseCompleteView) -> Seq<Ie> {
    Seq::empty().push(amf_ue_id_ie(m.amf_ue_ngap_id, ie::CRITICALITY_IGNORE)).push(
        ran_ue_id_ie(m.ran_ue_ngap_id, ie::CRITICALITY_IGNORE),
    )
}

/// The messages that have a wire encoding here.
pub open spec fn supported(m: NgapMessageView) -> bool {
    ||| m is InitialUeMessage
    ||| m is UplinkNasTransport
    ||| m is DownlinkNasTransport
    ||| m is InitialContextSetupRequest
    ||| m is InitialContextSetupResponse
    ||| m is UeContextReleaseCommand
    ||| m is UeContextReleaseComplete
}

/// The message has a wire encoding, and its fields and lengths fit it.
pub open spec fn encodable(m: NgapMessageView) -> bool {
    match m {
        NgapMessageView::InitialUeMessage(m) => initial_ue_message_ok(m),
        NgapMessageView::UplinkNasTransport(m) => uplink_nas_transport_ok(m),
        NgapMessageView::DownlinkNasTransport(m) => downlink_nas_transport_ok(m),
        NgapMessageView::InitialContextSetupRequest(m) => initial_context_setup_request_ok(m),
        NgapMessageView::InitialContextSetupResponse(m) => initial_context_setup_response_ok(m),
        NgapMessageView::UeContextReleaseCommand { amf_ue_ngap_id, ran_ue_ngap_id, cause } => message_fits(
            ue_context_release_command_ies(amf_ue_ngap_id, ran_ue_ngap_id, cause),
        ),
        NgapMessageView::UeContextReleaseComplete(m) => message_fits(ue_context_release_complete_ies(m)),
        _ => false,
    }
}

/// The IEs of a supported message.
pub open spec fn ies(m: NgapMessageView) -> Seq<Ie> {
    match m {
        NgapMessageView::InitialUeMessage(m) => initial_ue_message_ies(m),
        NgapMessageView::UplinkNasTransport(m) => uplink_nas_transport_ies(m),
        NgapMessageView::DownlinkNasTransport(m) => downlink_nas_transport_ies(m),
        NgapMessageView::InitialContextSetupRequest(m) => initial_context_setup_request_ies(m),
        NgapMessageView::InitialContextSetupResponse(m) => initial_context_setup_response_ies(m),
        NgapMessageView::UeContextReleaseCommand { amf_ue_ngap_id, ran_ue_ngap_id, cause } =>
            ue_context_release_command_ies(amf_ue_ngap_id, ran_ue_ngap_id, cause),
        NgapMessageView::UeContextReleaseComplete(m) => ue_context_release_complete_ies(m),
        _ => Seq::empty(),
    }
}

pub open spec fn choice(m: NgapMessageView) -> u64 {
    if m is InitialContextSetupResponse || m is UeContextReleaseComplete {
        PDU_CHOICE_SUCCESSFUL_OUTCOME
    } else {
        PDU_CHOICE_INITIATING_MESSAGE
    }
}

pub open spec fn procedure_code(m: NgapMessageView) -> u32 {
    match m {
        NgapMessageView::InitialUeMessage(_) => ie::PROC_INITIAL_UE_MESSAGE,
        NgapMessageView::UplinkNasTransport(_) => ie::PROC_UPLINK_NAS_TRANSPORT,
        NgapMessageView::DownlinkNasTransport(_) => ie::PROC_DOWNLINK_NAS_TRANSPORT,
        NgapMessageView::InitialContextSetupRequest(_) => ie::PROC_INITIAL_CONTEXT_SETUP,
        NgapMessageView::InitialContextSetupResponse(_) => ie::PROC_INITIAL_CONTEXT_SETUP,
        _ => ie::PROC_UE_CONTEXT_RELEASE,
    }
}

pub open spec fn criticality(m: NgapMessageView) -> u8 {
    if m is InitialContextSetupRequest || m is InitialContextSetupResponse {
        ie::CRITICALITY_REJECT
    } else {
        ie::CRITICALITY_IGNORE
    }
}

/// The wire encoding of a supported message.
pub open spec fn octets(m: NgapMessageView) -> Seq<u8> {
    message_octets(choice(m), procedure_code(m), criticality(m), ies(m))
}

// ── IEs to messages ───────────────────────────────────────────────────────────

pub open spec fn amf_ue_id_in(ies: Seq<Ie>) -> Option<int> {
    int_in(ies, ie::ID_AMF_UE_NGAP_ID, ie::AMF_UE_NGAP_ID_MAX)
}

pub open spec fn ran_ue_id_in(ies: Seq<Ie>) -> Option<int> {
    int_in(ies, ie::ID_RAN_UE_NGAP_ID, ie::RAN_UE_NGAP_ID_MAX)
}

pub open spec fn initial_ue_message_from(ies: Seq<Ie>) -> Result<NgapMessageView, ProtoError> {
    let rrc_cause = int_in(ies, ie::ID_RRC_ESTABLISHMENT_CAUSE, ie::RRC_ESTABLISHMENT_CAUSE_MAX);
    if location_in(ies) is None {
        malformed("missing UserLocationInformation")
    } else if ran_ue_id_in(ies) is None {
        malformed("missing RAN-UE-NGAP-ID")
    } else if octet_string_in(ies, ie::ID_NAS_PDU) is None {
        malformed("missing NAS-PDU")
    } else if rrc_cause is None {
        malformed("missing RRCEstablishmentCause")
    } else {
        Ok(
            NgapMessageView::InitialUeMessage(
                InitialUeMessageView {
                    ran_ue_ngap_id: ran_ue_id_in(ies)->0 as u32,
                    nas_pdu: octet_string_in(ies, ie::ID_NAS_PDU)->0,
                    tai: (location_in(ies)->0).1,
                    nr_cgi: (location_in(ies)->0).0,
                    rrc_establishment_cause: rrc_cause->0 as u8,
                },
            ),
        )
    }
}

pub open spec fn uplink_nas_transport_from(ies: Seq<Ie>) -> Result<NgapMessageView, ProtoError> {
    if location_in(ies) is None {
        malformed("missing UserLocationInformation")
    } else if amf_ue_id_in(ies) is None {
        malformed("missing AMF-UE-NGAP-ID")
    } else if ran_ue_id_in(ies) is None {
        malformed("missing RAN-UE-NGAP-ID")
    } else if octet_string_in(ies, ie::ID_NAS_PDU) is None {
        malformed("missing NAS-PDU")
    } else {
        Ok(
            NgapMessageView::UplinkNasTransport(
                UplinkNasTransportView {
                    amf_ue_ngap_id: amf_ue_id_in(ies)->0 as u32,
                    ran_ue_ngap_id: ran_ue_id_in(ies)->0 as u32,
                    nas_pdu: octet_string_in(ies, ie::ID_NAS_PDU)->0,
                    tai: (location_in(ies)->0).1,
                    nr_cgi: (location_in(ies)->0).0,
                },
            ),
        )
    }
}

pub open spec fn downlink_nas_transport_from(ies: Seq<Ie>) -> Result<NgapMessageView, ProtoError> {
    if amf_ue_id_in(ies) is None {
        malformed("missing AMF-UE-NGAP-ID")
    } else if ran_ue_id_in(ies) is None {
        malformed("missing RAN-UE-NGAP-ID")
    } else if octet_string_in(ies, ie::ID_NAS_PDU) is None {
        malformed("missing NAS-PDU")
    } else {
        Ok(
            NgapMessageView::DownlinkNasTransport(
                DownlinkNasTransportView {
                    amf_ue_ngap_id: amf_ue_id_in(ies)->0 as u32,
                    ran_ue_ngap_id: ran_ue_id_in(ies)->0 as u32,
                    nas_pdu: octet_string_in(ies, ie::ID_NAS_PDU)->0,
                },
            ),
        )
    }
}

pub open spec fn initial_context_setup_request_from(ies: Seq<Ie>) -> Result<NgapMessageView, ProtoError> {
    let ambr = last_parsed(ies, ie::ID_UE_AGGREGATE_MAX_BIT_RATE, get_bit_rates());
    let key = last_parsed(ies, ie::ID_SECURITY_KEY, get_key());
    if amf_ue_id_in(ies) is None {
        malformed("missing AMF-UE-NGAP-ID")
    } else if ran_ue_id_in(ies) is None {
        malformed("missing RAN-UE-NGAP-ID")
    } else if ambr is None {
        malformed("missing UEAggregateMaximumBitRate")
    } else if key is None {
        malformed("missing SecurityKey")
    } else {
        Ok(
            NgapMessageView::InitialContextSetupRequest(
                InitialContextSetupRequestView {
                    amf_ue_ngap_id: amf_ue_id_in(ies)->0 as u32,
                    ran_ue_ngap_id: ran_ue_id_in(ies)->0 as u32,
                    pdu_sessions: items_in(
                        ies,
                        ie::ID_PDU_SESSION_RESOURCE_SETUP_LIST_CTXT_REQ,
                        get_sessions_to_setup(),
                    ),
                    nas_pdu: octet_string_in(ies, ie::ID_NAS_PDU),
                    ue_ambr: ambr->0,
                    security_key: key->0,
                },
            ),
        )
    }
}

pub open spec fn initial_context_setup_response_from(ies: Seq<Ie>) -> Result<NgapMessageView, ProtoError> {
    if amf_ue_id_in(ies) is None {
        malformed("missing AMF-UE-NGAP-ID")
    } else if ran_ue_id_in(ies) is None {
        malformed("missing RAN-UE-NGAP-ID")
    } else {
        Ok(
            NgapMessageView::InitialContextSetupResponse(
                InitialContextSetupResponseView {
                    amf_ue_ngap_id: amf_ue_id_in(ies)->0 as u32,
                    ran_ue_ngap_id: ran_ue_id_in(ies)->0 as u32,
                    pdu_sessions_setup: items_in(
                        ies,
                        ie::ID_PDU_SESSION_RESOURCE_SETUP_LIST_CTXT_RES,
                        get_sessions_setup(),
                    ),
                    pdu_sessions_failed: items_in(
                        ies,
                        ie::ID_PDU_SESSION_RESOURCE_FAILED_TO_SETUP_LIST_CTXT_RES,
                        get_session_ids(),
                    ),
                },
            ),
        )
    }
}

pub open spec fn cause_in(ies: Seq<Ie>) -> Option<NgapCause> {
    match int_in(ies, ie::ID_CAUSE, ie::CAUSE_MAX) {
        None => None,
        Some(v) => cause_of(v),
    }
}

pub open spec fn ue_context_release_command_from(ies: Seq<Ie>) -> Result<NgapMessageView, ProtoError> {
    if amf_ue_id_in(ies) is None {
        malformed("missing AMF-UE-NGAP-ID")
    } else if ran_ue_id_in(ies) is None {
        malformed("missing RAN-UE-NGAP-ID")
    } else if cause_in(ies) is None {
        malformed("missing or invalid Cause")
    } else {
        Ok(
            NgapMessageView::UeContextReleaseCommand {
                amf_ue_ngap_id: amf_ue_id_in(ies)->0 as u32,
                ran_ue_ngap_id: ran_ue_id_in(ies)->0 as u32,
                cause: cause_in(ies)->0,
            },
        )
    }
}

pub open spec fn ue_context_release_complete_from(ies: Seq<Ie>) -> Result<NgapMessageView, ProtoError> {
    if amf_ue_id_in(ies) is None {
        malformed("missing AMF-UE-NGAP-ID")
    } else if ran_ue_id_in(ies) is None {
        malformed("missing RAN-UE-NGAP-ID")
    } else {
        Ok(
            NgapMessageView::UeContextReleaseComplete(
                UeContextReleaseCompleteView {
                    amf_ue_ngap_id: amf_ue_id_in(ies)->0 as u32,
                    ran_ue_ngap_id: ran_ue_id_in(ies)->0 as u32,
                },
            ),
        )
    }
}

/// The message that procedure code, choice and IEs denote.
pub open spec fn message_from(choice: u64, procedure_code: u32, ies: Seq<Ie>) -> Result<NgapMessageView, ProtoError> {
    if procedure_code == ie::PROC_INITIAL_UE_MESSAGE {
        initial_ue_message_from(ies)
    } else if procedure_code == ie::PROC_UPLINK_NAS_TRANSPORT {
        uplink_nas_transport_from(ies)
    } else if procedure_code == ie::PROC_DOWNLINK_NAS_TRANSPORT {
        downlink_nas_transport_from(ies)
    } else if procedure_code == ie::PROC_INITIAL_CONTEXT_SETUP && choice == PDU_CHOICE_INITIATING_MESSAGE {
        initial_context_setup_request_from(ies)
    } else if procedure_code == ie::PROC_INITIAL_CONTEXT_SETUP && choice == PDU_CHOICE_SUCCESSFUL_OUTCOME {
        initial_context_setup_response_from(ies)
    } else if procedure_code == ie::PROC_UE_CONTEXT_RELEASE && choice == PDU_CHOICE_INITIATING_MESSAGE {
        ue_context_release_command_from(ies)
    } else if procedure_code == ie::PROC_UE_CONTEXT_RELEASE && choice == PDU_CHOICE_SUCCESSFUL_OUTCOME {
        ue_context_release_complete_from(ies)
    } else {
        malformed(REASON_UNSUPPORTED_PROCEDURE)
    }
}

/// The message that octets denote.
pub open spec fn message(d: Seq<u8>) -> Result<NgapMessageView, ProtoError> {
    match get_pdu(d) {
        None => malformed("failed to decode PDU wrapper"),
        Some(pdu) => match value_of(get_container(pdu.value, 0)) {
            None => malformed("failed to decode IE container"),
            Some(ies) => message_from(pdu.choice, pdu.procedure_code, ies),
        },
    }
}

// ── Laws ──────────────────────────────────────────────────────────────────────

/// A cause and its number determine each other.
pub proof fn cause_round_trip(c: NgapCause, v: int)
    ensures
        cause_of(cause_number(c)) == Some(c),
        0 <= cause_number(c) <= ie::CAUSE_MAX,
        cause_of(v) is Some ==> cause_number(cause_of(v)->0) == v,
        cause_of(v) is Some <==> 0 <= v <= ie::CAUSE_MAX,
{
}

proof fn lemma_location(nr_cgi: Seq<u8>, tai: Seq<u8>)
    requires
        nr_cgi.len() == 9,
        tai.len() == 6,
    ensures
        value_of(get_location(location_value(nr_cgi, tai), 0)) == Some((nr_cgi, tai)),
{
    let w0 = Seq::<bool>::empty();
    let w1 = put_octets(w0, nr_cgi);
    let d = location_value(nr_cgi, tai);
    lemma_pack(put_octets(w1, tai));
    octets_round_trip(d, w1, tai);
    octets_round_trip(d, w0, nr_cgi);
}

proof fn lemma_bit_rates(ambr: (u64, u64))
    requires
        ambr.0 <= ie::BIT_RATE_MAX,
        ambr.1 <= ie::BIT_RATE_MAX,
    ensures
        get_bit_rates()(bit_rates_value(ambr)) == Some(ambr),
{
    let w0 = Seq::<bool>::empty();
    let w1 = put_int(w0, ambr.0 as int, 0, ie::BIT_RATE_MAX as int);
    let d = bit_rates_value(ambr);
    lemma_pack(put_int(w1, ambr.1 as int, 0, ie::BIT_RATE_MAX as int));
    int_round_trip(d, w1, ambr.1 as int, 0, ie::BIT_RATE_MAX as int);
    int_round_trip(d, w0, ambr.0 as int, 0, ie::BIT_RATE_MAX as int);
}

proof fn lemma_key(key: Seq<u8>)
    requires
        key.len() == 32,
    ensures
        get_key()(key_value(key)) == Some(key),
{
    let w0 = Seq::<bool>::empty();
    lemma_pack(put_octets(w0, key));
    octets_round_trip(key_value(key), w0, key);
}

/// What is carried after filling up is read from the next octet boundary.
proof fn lemma_octets_after_pad(d: Seq<u8>, w: Seq<bool>, s: Seq<u8>)
    requires
        carries(d, put_octets(pad(w), s)),
    ensures
        get_octets(d, w.len(), s.len()) == Some((s, put_octets(pad(w), s).len())),
        put_octets(pad(w), s).len() % 8 == 0,
        carries(d, w),
{
    octets_round_trip(d, pad(w), s);
    lemma_carries_less(d, w, Seq::new(((8 - w.len() % 8) % 8) as nat, |k: int| false));
}

/// Reading a list of PDU sessions to set up gives back the sessions that were
/// written, in order and with all their fields.
pub proof fn sessions_to_setup_round_trip(s: Seq<PduSessionToSetupView>)
    requires
        s.len() <= MAX_LENGTH,
        forall|i: int| 0 <= i < s.len() ==> session_to_setup_ok(#[trigger] s[i]),
    ensures
        get_sessions_to_setup()(sessions_to_setup_value(s)) == Some(s),
{
    let put = session_to_setup_put();
    let get = session_to_setup_get();
    let ok = |t: PduSessionToSetupView| session_to_setup_ok(t);
    assert forall|d: Seq<u8>, w: Seq<bool>, t: PduSessionToSetupView| #[trigger]
        carries(d, put(w, t)) && ok(t) implies carries(d, w) && get(d, w.len()) == Some((t, put(w, t).len())) by {
        let w1 = put_int(w, t.pdu_session_id as int, 0, ie::PDU_SESSION_ID_MAX as int);
        let w2 = put_int(w1, t.qfi as int, 0, ie::QFI_MAX as int);
        let w3 = put_octets(pad(w2), t.gtp_teid);
        octets_round_trip(d, w3, t.transport_layer_addr);
        lemma_octets_after_pad(d, w2, t.gtp_teid);
        int_round_trip(d, w1, t.qfi as int, 0, ie::QFI_MAX as int);
        int_round_trip(d, w, t.pdu_session_id as int, 0, ie::PDU_SESSION_ID_MAX as int);
    }
    let w0 = Seq::<bool>::empty();
    lemma_pack(put_list(w0, s, put));
    assert forall|i: int| 0 <= i < s.len() implies ok(#[trigger] s[i]) by {
        assert(session_to_setup_ok(s[i]));
    }
    list_round_trip(sessions_to_setup_value(s), w0, s, put, get, ok);
}

/// Reading a list of PDU sessions that were set up gives back the sessions that
/// were written, in order and with all their fields.
pub proof fn sessions_setup_round_trip(s: Seq<PduSessionSetupItemView>)
    requires
        s.len() <= MAX_LENGTH,
        forall|i: int| 0 <= i < s.len() ==> session_setup_ok(#[trigger] s[i]),
    ensures
        get_sessions_setup()(sessions_setup_value(s)) == Some(s),
{
    let put = session_setup_put();
    let get = session_setup_get();
    let ok = |t: PduSessionSetupItemView| session_setup_ok(t);
    assert forall|d: Seq<u8>, w: Seq<bool>, t: PduSessionSetupItemView| #[trigger]
        carries(d, put(w, t)) && ok(t) implies carries(d, w) && get(d, w.len()) == Some((t, put(w, t).len())) by {
        let w1 = put_int(w, t.pdu_session_id as int, 0, ie::PDU_SESSION_ID_MAX as int);
        let w2 = put_octets(pad(w1), t.transport_layer_addr);
        octets_round_trip(d, w2, t.gtp_teid);
        lemma_octets_after_pad(d, w1, t.transport_layer_addr);
        int_round_trip(d, w, t.pdu_session_id as int, 0, ie::PDU_SESSION_ID_MAX as int);
    }
    let w0 = Seq::<bool>::empty();
    lemma_pack(put_list(w0, s, put));
    assert forall|i: int| 0 <= i < s.len() implies ok(#[trigger] s[i]) by {
        assert(session_setup_ok(s[i]));
    }
    list_round_trip(sessions_setup_value(s), w0, s, put, get, ok);
}

/// Reading a list of PDU session identifiers gives back those that were
/// written, in order.
pub proof fn session_ids_round_trip(s: Seq<u8>)
    requires
        s.len() <= MAX_LENGTH,
    ensures
        get_session_ids()(session_ids_value(s)) == Some(s),
{
    let put = session_id_put();
    let get = session_id_get();
    let ok = |t: u8| true;
    assert forall|d: Seq<u8>, w: Seq<bool>, t: u8| #[trigger] carries(d, put(w, t)) && ok(t) implies carries(d, w)
        && get(d, w.len()) == Some((t, put(w, t).len())) by {
        int_round_trip(d, w, t as int, 0, ie::PDU_SESSION_ID_MAX as int);
    }
    let w0 = Seq::<bool>::empty();
    lemma_pack(put_list(w0, s, put));
    list_round_trip(session_ids_value(s), w0, s, put, get, ok);
}

/// The identifiers and criticalities that NGAP uses are within their ranges.
pub proof fn lemma_tagged(m: NgapMessageView)
    ensures
        ies_tagged(ies(m)),
{
}

proof fn lemma_initial_ue_message(v: InitialUeMessageView)
    requires
        initial_ue_message_ok(v),
    ensures
        initial_ue_message_from(initial_ue_message_ies(v)) == Ok::<NgapMessageView, ProtoError>(
            NgapMessageView::InitialUeMessage(v),
        ),
{
    broadcast use lemma_last_ie_push;

    lemma_int_value(v.ran_ue_ngap_id as int, ie::RAN_UE_NGAP_ID_MAX);
    lemma_octet_string_value(v.nas_pdu);
    lemma_location(v.nr_cgi, v.tai);
    lemma_int_value(v.rrc_establishment_cause as int, ie::RRC_ESTABLISHMENT_CAUSE_MAX);
}

proof fn lemma_uplink_nas_transport(v: UplinkNasTransportView)
    requires
        uplink_nas_transport_ok(v),
    ensures
        uplink_nas_transport_from(uplink_nas_transport_ies(v)) == Ok::<NgapMessageView, ProtoError>(
            NgapMessageView::UplinkNasTransport(v),
        ),
{
    broadcast use lemma_last_ie_push;

    lemma_int_value(v.amf_ue_ngap_id as int, ie::AMF_UE_NGAP_ID_MAX);
    lemma_int_value(v.ran_ue_ngap_id as int, ie::RAN_UE_NGAP_ID_MAX);
    lemma_octet_string_value(v.nas_pdu);
    lemma_location(v.nr_cgi, v.tai);
}

proof fn lemma_downlink_nas_transport(v: DownlinkNasTransportView)
    requires
        downlink_nas_transport_ok(v),
    ensures
        downlink_nas_transport_from(downlink_nas_transport_ies(v)) == Ok::<NgapMessageView, ProtoError>(
            NgapMessageView::DownlinkNasTransport(v),
        ),
{
    broadcast use lemma_last_ie_push;

    lemma_int_value(v.amf_ue_ngap_id as int, ie::AMF_UE_NGAP_ID_MAX);
    lemma_int_value(v.ran_ue_ngap_id as int, ie::RAN_UE_NGAP_ID_MAX);
    lemma_octet_string_value(v.nas_pdu);
}

proof fn lemma_initial_context_setup_request(v: InitialContextSetupRequestView)
    requires
        initial_context_setup_request_ok(v),
    ensures
        initial_context_setup_request_from(initial_context_setup_request_ies(v)) == Ok::<NgapMessageView, ProtoError>(
            NgapMessageView::InitialContextSetupRequest(v),
        ),
{
    let all = initial_context_setup_request_ies(v);
    assert(int_in(all, ie::ID_AMF_UE_NGAP_ID, ie::AMF_UE_NGAP_ID_MAX) == Some(v.amf_ue_ngap_id as int)) by {
        broadcast use lemma_last_ie_push;

        lemma_int_value(v.amf_ue_ngap_id as int, ie::AMF_UE_NGAP_ID_MAX);
    }
    assert(int_in(all, ie::ID_RAN_UE_NGAP_ID, ie::RAN_UE_NGAP_ID_MAX) == Some(v.ran_ue_ngap_id as int)) by {
        broadcast use lemma_last_ie_push;

        lemma_int_value(v.ran_ue_ngap_id as int, ie::RAN_UE_NGAP_ID_MAX);
    }
    assert(octet_string_in(all, ie::ID_NAS_PDU) == v.nas_pdu) by {
        broadcast use lemma_last_ie_push;

        if v.nas_pdu is Some {
            lemma_octet_string_value(v.nas_pdu->0);
        }
    }
    assert(last_parsed(all, ie::ID_SECURITY_KEY, get_key()) == Some(v.security_key)) by {
        broadcast use lemma_last_parsed_push;

        lemma_key(v.security_key);
    }
    assert(last_parsed(all, ie::ID_UE_AGGREGATE_MAX_BIT_RATE, get_bit_rates()) == Some(v.ue_ambr)) by {
        broadcast use lemma_last_parsed_push;

        lemma_bit_rates(v.ue_ambr);
    }
    assert(items_in(all, ie::ID_PDU_SESSION_RESOURCE_SETUP_LIST_CTXT_REQ, get_sessions_to_setup()) == v.pdu_sessions)
        by {
        broadcast use lemma_last_parsed_push;

        sessions_to_setup_round_trip(v.pdu_sessions);
        assert(v.pdu_sessions.len() == 0 ==> v.pdu_sessions =~= Seq::<PduSessionToSetupView>::empty());
    }
}

proof fn lemma_initial_context_setup_response(v: InitialContextSetupResponseView)
    requires
        initial_context_setup_response_ok(v),
    ensures
        initial_context_setup_response_from(initial_context_setup_response_ies(v)) == Ok::<
            NgapMessageView,
            ProtoError,
        >(NgapMessageView::InitialContextSetupResponse(v)),
{
    let all = initial_context_setup_response_ies(v);
    assert(int_in(all, ie::ID_AMF_UE_NGAP_ID, ie::AMF_UE_NGAP_ID_MAX) == Some(v.amf_ue_ngap_id as int)) by {
        broadcast use lemma_last_ie_push;

        lemma_int_value(v.amf_ue_ngap_id as int, ie::AMF_UE_NGAP_ID_MAX);
    }
    assert(int_in(all, ie::ID_RAN_UE_NGAP_ID, ie::RAN_UE_NGAP_ID_MAX) == Some(v.ran_ue_ngap_id as int)) by {
        broadcast use lemma_last_ie_push;

        lemma_int_value(v.ran_ue_ngap_id as int, ie::RAN_UE_NGAP_ID_MAX);
    }
    assert(items_in(all, ie::ID_PDU_SESSION_RESOURCE_SETUP_LIST_CTXT_RES, get_sessions_setup())
        == v.pdu_sessions_setup) by {
        broadcast use lemma_last_parsed_push;

        sessions_setup_round_trip(v.pdu_sessions_setup);
        assert(v.pdu_sessions_setup.len() == 0 ==> v.pdu_sessions_setup =~= Seq::<PduSessionSetupItemView>::empty());
    }
    assert(items_in(all, ie::ID_PDU_SESSION_RESOURCE_FAILED_TO_SETUP_LIST_CTXT_RES, get_session_ids())
        == v.pdu_sessions_failed) by {
        broadcast use lemma_last_parsed_push;

        session_ids_round_trip(v.pdu_sessions_failed);
        assert(v.pdu_sessions_failed.len() == 0 ==> v.pdu_sessions_failed =~= Seq::<u8>::empty());
    }
}

proof fn lemma_ue_context_release_command(amf_ue_ngap_id: u32, ran_ue_ngap_id: u32, cause: NgapCause)
    ensures
        ue_context_release_command_from(ue_context_release_command_ies(amf_ue_ngap_id, ran_ue_ngap_id, cause)) == Ok::<
            NgapMessageView,
            ProtoError,
        >(NgapMessageView::UeContextReleaseCommand { amf_ue_ngap_id, ran_ue_ngap_id, cause }),
{
    broadcast use lemma_last_ie_push;

    lemma_int_value(amf_ue_ngap_id as int, ie::AMF_UE_NGAP_ID_MAX);
    lemma_int_value(ran_ue_ngap_id as int, ie::RAN_UE_NGAP_ID_MAX);
    lemma_int_value(cause_number(cause), ie::CAUSE_MAX);
}

proof fn lemma_ue_context_release_complete(v: UeContextReleaseCompleteView)
    ensures
        ue_context_release_complete_from(ue_context_release_complete_ies(v)) == Ok::<NgapMessageView, ProtoError>(
            NgapMessageView::UeContextReleaseComplete(v),
        ),
{
    broadcast use lemma_last_ie_push;

    lemma_int_value(v.amf_ue_ngap_id as int, ie::AMF_UE_NGAP_ID_MAX);
    lemma_int_value(v.ran_ue_ngap_id as int, ie::RAN_UE_NGAP_ID_MAX);
}

proof fn lemma_message_from_ies(m: NgapMessageView)
    requires
        encodable(m),
    ensures
        message_from(choice(m), procedure_code(m), ies(m)) == Ok::<NgapMessageView, ProtoError>(m),
{
    match m {
        NgapMessageView::InitialUeMessage(v) => lemma_initial_ue_message(v),
        NgapMessageView::UplinkNasTransport(v) => lemma_uplink_nas_transport(v),
        NgapMessageView::DownlinkNasTransport(v) => lemma_downlink_nas_transport(v),
        NgapMessageView::InitialContextSetupRequest(v) => lemma_initial_context_setup_request(v),
        NgapMessageView::InitialContextSetupResponse(v) => lemma_initial_context_setup_response(v),
        NgapMessageView::UeContextReleaseCommand { amf_ue_ngap_id, ran_ue_ngap_id, cause } =>
            lemma_ue_context_release_command(amf_ue_ngap_id, ran_ue_ngap_id, cause),
        NgapMessageView::UeContextReleaseComplete(v) => lemma_ue_context_release_complete(v),
        _ => {},
    }
}

/// Decoding the encoding of a message gives the message back.
pub proof fn ngap_round_trip(m: NgapMessageView)
    requires
        encodable(m),
    ensures
        message(octets(m)) == Ok::<NgapMessageView, ProtoError>(m),
{
    lemma_tagged(m);
    message_round_trip(choice(m), procedure_code(m), criticality(m), ies(m));
    lemma_message_from_ies(m);
}

/// Two messages with the same encoding are the same message.
pub proof fn ngap_encoding_is_injective(a: NgapMessageView, b: NgapMessageView)
    requires
        encodable(a),
        encodable(b),
        octets(a) == octets(b),
    ensures
        a == b,
{
    ngap_round_trip(a);
    ngap_round_trip(b);
}

/// A release command always fits.
pub proof fn lemma_release_command_fits(amf_ue_ngap_id: u32, ran_ue_ngap_id: u32, cause: NgapCause)
    ensures
        encodable(NgapMessageView::UeContextReleaseCommand { amf_ue_ngap_id, ran_ue_ngap_id, cause }),
{
    broadcast use lemma_ies_size_push;

    lemma_int_value_len(amf_ue_ngap_id as int, ie::AMF_UE_NGAP_ID_MAX);
    lemma_int_value_len(ran_ue_ngap_id as int, ie::RAN_UE_NGAP_ID_MAX);
    lemma_int_value_len(cause_number(cause), ie::CAUSE_MAX);
    small_message_fits(ue_context_release_command_ies(amf_ue_ngap_id, ran_ue_ngap_id, cause));
}

/// A release completion always fits.
pub proof fn lemma_release_complete_fits(v: UeContextReleaseCompleteView)
    ensures
        encodable(NgapMessageView::UeContextReleaseComplete(v)),
{
    broadcast use lemma_ies_size_push;

    lemma_int_value_len(v.amf_ue_ngap_id as int, ie::AMF_UE_NGAP_ID_MAX);
    lemma_int_value_len(v.ran_ue_ngap_id as int, ie::RAN_UE_NGAP_ID_MAX);
    small_message_fits(ue_context_release_complete_ies(v));
}

/// A NAS PDU of up to 16000 octets fits into each of the three messages that
/// carry one.
pub proof fn nas_transport_fits(m: NgapMessageView)
    requires
        match m {
            NgapMessageView::InitialUeMessage(v) => {
                &&& v.nas_pdu.len() <= 16_000
                &&& v.tai.len() == 6
                &&& v.nr_cgi.len() == 9
                &&& v.rrc_establishment_cause <= ie::RRC_ESTABLISHMENT_CAUSE_MAX
            },
            NgapMessageView::UplinkNasTransport(v) => {
                &&& v.nas_pdu.len() <= 16_000
                &&& v.tai.len() == 6
                &&& v.nr_cgi.len() == 9
            },
            NgapMessageView::DownlinkNasTransport(v) => v.nas_pdu.len() <= 16_000,
            _ => false,
        },
    ensures
        encodable(m),
{
    broadcast use lemma_ies_size_push;

    match m {
        NgapMessageView::InitialUeMessage(v) => {
            lemma_int_value_len(v.ran_ue_ngap_id as int, ie::RAN_UE_NGAP_ID_MAX);
            lemma_int_value_len(v.rrc_establishment_cause as int, ie::RRC_ESTABLISHMENT_CAUSE_MAX);
            lemma_octet_string_value_len(v.nas_pdu);
            lemma_packed_len(put_octets(put_octets(Seq::empty(), v.nr_cgi), v.tai));
            small_message_fits(initial_ue_message_ies(v));
        },
        NgapMessageView::UplinkNasTransport(v) => {
            lemma_int_value_len(v.amf_ue_ngap_id as int, ie::AMF_UE_NGAP_ID_MAX);
            lemma_int_value_len(v.ran_ue_ngap_id as int, ie::RAN_UE_NGAP_ID_MAX);
            lemma_octet_string_value_len(v.nas_pdu);
            lemma_packed_len(put_octets(put_octets(Seq::empty(), v.nr_cgi), v.tai));
            small_message_fits(uplink_nas_transport_ies(v));
        },
        NgapMessageView::DownlinkNasTransport(v) => {
            lemma_int_value_len(v.amf_ue_ngap_id as int, ie::AMF_UE_NGAP_ID_MAX);
            lemma_int_value_len(v.ran_ue_ngap_id as int, ie::RAN_UE_NGAP_ID_MAX);
            lemma_octet_string_value_len(v.nas_pdu);
            small_message_fits(downlink_nas_transport_ies(v));
        },
        _ => {},
    }
}

proof fn lemma_bit_rates_len(ambr: (u64, u64))
    ensures
        bit_rates_value(ambr).len() <= 16,
{
    let first = put_int(Seq::empty(), ambr.0 as int, 0, ie::BIT_RATE_MAX as int);
    lemma_int_len(Seq::empty(), ambr.0 as int, ie::BIT_RATE_MAX);
    lemma_int_len(first, ambr.1 as int, ie::BIT_RATE_MAX);
    lemma_packed_len(put_int(first, ambr.1 as int, 0, ie::BIT_RATE_MAX as int));
}

proof fn lemma_session_to_setup_len(s: Seq<PduSessionToSetupView>)
    requires
        s.len() == 1,
        session_to_setup_ok(s[0]),
    ensures
        sessions_to_setup_value(s).len() <= 30,
{
    let start = put_length(Seq::empty(), 1);
    let first = put_int(start, s[0].pdu_session_id as int, 0, ie::PDU_SESSION_ID_MAX as int);
    lemma_list_of_one(s, session_to_setup_put());
    lemma_int_len(start, s[0].pdu_session_id as int, ie::PDU_SESSION_ID_MAX);
    lemma_int_len(first, s[0].qfi as int, ie::QFI_MAX);
    lemma_packed_len(put_list(Seq::empty(), s, session_to_setup_put()));
}

proof fn lemma_session_setup_len(s: Seq<PduSessionSetupItemView>)
    requires
        s.len() == 1,
        session_setup_ok(s[0]),
    ensures
        sessions_setup_value(s).len() <= 30,
{
    let start = put_length(Seq::empty(), 1);
    lemma_list_of_one(s, session_setup_put());
    lemma_int_len(start, s[0].pdu_session_id as int, ie::PDU_SESSION_ID_MAX);
    lemma_packed_len(put_list(Seq::empty(), s, session_setup_put()));
}

/// A context setup request for one session fits, with a NAS PDU of up to 15000
/// octets.
pub proof fn context_setup_request_fits(v: InitialContextSetupRequestView)
    requires
        initial_context_setup_request_in_range(v),
        v.pdu_sessions.len() == 1,
        v.nas_pdu is Some ==> v.nas_pdu->0.len() <= 15_000,
    ensures
        encodable(NgapMessageView::InitialContextSetupRequest(v)),
{
    broadcast use lemma_ies_size_push;

    lemma_int_value_len(v.amf_ue_ngap_id as int, ie::AMF_UE_NGAP_ID_MAX);
    lemma_int_value_len(v.ran_ue_ngap_id as int, ie::RAN_UE_NGAP_ID_MAX);
    lemma_packed_len(put_octets(Seq::empty(), v.security_key));
    lemma_bit_rates_len(v.ue_ambr);
    lemma_session_to_setup_len(v.pdu_sessions);
    if v.nas_pdu is Some {
        lemma_octet_string_value_len(v.nas_pdu->0);
    }
    small_message_fits(initial_context_setup_request_ies(v));
}

/// A context setup response for one session that was set up fits.
pub proof fn context_setup_response_fits(v: InitialContextSetupResponseView)
    requires
        initial_context_setup_response_in_range(v),
        v.pdu_sessions_setup.len() == 1,
        v.pdu_sessions_failed.len() == 0,
    ensures
        encodable(NgapMessageView::InitialContextSetupResponse(v)),
{
    broadcast use lemma_ies_size_push;

    lemma_int_value_len(v.amf_ue_ngap_id as int, ie::AMF_UE_NGAP_ID_MAX);
    lemma_int_value_len(v.ran_ue_ngap_id as int, ie::RAN_UE_NGAP_ID_MAX);
    lemma_session_setup_len(v.pdu_sessions_setup);
    small_message_fits(initial_context_setup_response_ies(v));
}

/// A request and the response that shares its procedure code differ in the
/// PDU choice.
pub proof fn outcomes_are_told_apart(a: NgapMessageView, b: NgapMessageView)
    requires
        supported(a),
        supported(b),
        procedure_code(a) == procedure_code(b),
        choice(a) == choice(b),
    ensures
        a is InitialUeMessage <==> b is InitialUeMessage,
        a is UplinkNasTransport <==> b is UplinkNasTransport,
        a is DownlinkNasTransport <==> b is DownlinkNasTransport,
        a is InitialContextSetupRequest <==> b is InitialContextSetupRequest,
        a is InitialContextSetupResponse <==> b is InitialContextSetupResponse,
        a is UeContextReleaseCommand <==> b is UeContextReleaseCommand,
        a is UeContextReleaseComplete <==> b is UeContextReleaseComplete,
{
}

/// The identifiers of the IEs that a decoder reads.
pub open spec fn known_ids(choice: u64, procedure_code: u32) -> Set<u32> {
    if procedure_code == ie::PROC_INITIAL_UE_MESSAGE {
        set![ie::ID_RAN_UE_NGAP_ID, ie::ID_NAS_PDU, ie::ID_USER_LOCATION_INFO, ie::ID_RRC_ESTABLISHMENT_CAUSE]
    } else if procedure_code == ie::PROC_UPLINK_NAS_TRANSPORT {
        set![ie::ID_AMF_UE_NGAP_ID, ie::ID_RAN_UE_NGAP_ID, ie::ID_NAS_PDU, ie::ID_USER_LOCATION_INFO]
    } else if procedure_code == ie::PROC_DOWNLINK_NAS_TRANSPORT {
        set![ie::ID_AMF_UE_NGAP_ID, ie::ID_RAN_UE_NGAP_ID, ie::ID_NAS_PDU]
    } else if procedure_code == ie::PROC_INITIAL_CONTEXT_SETUP && choice == PDU_CHOICE_INITIATING_MESSAGE {
        set![
            ie::ID_AMF_UE_NGAP_ID,
            ie::ID_RAN_UE_NGAP_ID,
            ie::ID_SECURITY_KEY,
            ie::ID_UE_AGGREGATE_MAX_BIT_RATE,
            ie::ID_PDU_SESSION_RESOURCE_SETUP_LIST_CTXT_REQ,
            ie::ID_NAS_PDU,
        ]
    } else if procedure_code == ie::PROC_INITIAL_CONTEXT_SETUP && choice == PDU_CHOICE_SUCCESSFUL_OUTCOME {
        set![
            ie::ID_AMF_UE_NGAP_ID,
            ie::ID_RAN_UE_NGAP_ID,
            ie::ID_PDU_SESSION_RESOURCE_SETUP_LIST_CTXT_RES,
            ie::ID_PDU_SESSION_RESOURCE_FAILED_TO_SETUP_LIST_CTXT_RES,
        ]
    } else if procedure_code == ie::PROC_UE_CONTEXT_RELEASE && choice == PDU_CHOICE_INITIATING_MESSAGE {
        set![ie::ID_AMF_UE_NGAP_ID, ie::ID_RAN_UE_NGAP_ID, ie::ID_CAUSE]
    } else if procedure_code == ie::PROC_UE_CONTEXT_RELEASE && choice == PDU_CHOICE_SUCCESSFUL_OUTCOME {
        set![ie::ID_AMF_UE_NGAP_ID, ie::ID_RAN_UE_NGAP_ID]
    } else {
        Set::empty()
    }
}

/// The order of the IEs, their criticalities and IEs that the decoder does not
/// know do not change what a message decodes to, nor the error where it does
/// not decode, as long as no known IE occurs twice.
pub proof fn only_known_values_matter(choice: u64, procedure_code: u32, a: Seq<Ie>, b: Seq<Ie>)
    requires
        forall|id: u32| #[trigger] known_ids(choice, procedure_code).contains(id) ==> same_value(a, b, id),
    ensures
        message_from(choice, procedure_code, a) == message_from(choice, procedure_code, b),
{
    let known = known_ids(choice, procedure_code);
    if known.contains(ie::ID_AMF_UE_NGAP_ID) {
        same_values_are_read_alike(a, b, ie::ID_AMF_UE_NGAP_ID);
    }
    if known.contains(ie::ID_RAN_UE_NGAP_ID) {
        same_values_are_read_alike(a, b, ie::ID_RAN_UE_NGAP_ID);
    }
    if known.contains(ie::ID_NAS_PDU) {
        same_values_are_read_alike(a, b, ie::ID_NAS_PDU);
    }
    if known.contains(ie::ID_USER_LOCATION_INFO) {
        same_values_are_read_alike(a, b, ie::ID_USER_LOCATION_INFO);
    }
    if known.contains(ie::ID_RRC_ESTABLISHMENT_CAUSE) {
        same_values_are_read_alike(a, b, ie::ID_RRC_ESTABLISHMENT_CAUSE);
    }
    if known.contains(ie::ID_CAUSE) {
        same_values_are_read_alike(a, b, ie::ID_CAUSE);
    }
    if known.contains(ie::ID_SECURITY_KEY) {
        same_values_are_parsed_alike(a, b, ie::ID_SECURITY_KEY, get_key());
    }
    if known.contains(ie::ID_UE_AGGREGATE_MAX_BIT_RATE) {
        same_values_are_parsed_alike(a, b, ie::ID_UE_AGGREGATE_MAX_BIT_RATE, get_bit_rates());
    }
    if known.contains(ie::ID_PDU_SESSION_RESOURCE_SETUP_LIST_CTXT_REQ) {
        same_values_are_parsed_alike(a, b, ie::ID_PDU_SESSION_RESOURCE_SETUP_LIST_CTXT_REQ, get_sessions_to_setup());
    }
    if known.contains(ie::ID_PDU_SESSION_RESOURCE_SETUP_LIST_CTXT_RES) {
        same_values_are_parsed_alike(a, b, ie::ID_PDU_SESSION_RESOURCE_SETUP_LIST_CTXT_RES, get_sessions_setup());
    }
    if known.contains(ie::ID_PDU_SESSION_RESOURCE_FAILED_TO_SETUP_LIST_CTXT_RES) {
        same_values_are_parsed_alike(a, b, ie::ID_PDU_SESSION_RESOURCE_FAILED_TO_SETUP_LIST_CTXT_RES, get_session_ids());
    }
}

/// Two encodings that differ in no more than the order of the IEs, the
/// criticalities and IEs that the decoder does not know decode alike.
pub proof fn equivalent_encodings_decode_alike(
    choice: u64,
    procedure_code: u32,
    criticality_a: u8,
    criticality_b: u8,
    a: Seq<Ie>,
    b: Seq<Ie>,
)
    requires
        choice <= PDU_CHOICE_MAX,
        procedure_code <= PROCEDURE_CODE_MAX,
        criticality_a <= CRITICALITY_MAX,
        criticality_b <= CRITICALITY_MAX,
        ies_tagged(a),
        ies_tagged(b),
        message_fits(a),
        message_fits(b),
        forall|id: u32| #[trigger] known_ids(choice, procedure_code).contains(id) ==> same_value(a, b, id),
    ensures
        message(message_octets(choice, procedure_code, criticality_a, a)) == message(
            message_octets(choice, procedure_code, criticality_b, b),
        ),
{
    message_round_trip(choice, procedure_code, criticality_a, a);
    message_round_trip(choice, procedure_code, criticality_b, b);
    only_known_values_matter(choice, procedure_code, a, b);
}

} // verus!
