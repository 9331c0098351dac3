//! NGAP PDU encoder and decoder in ALIGNED PER, on top of `crate::per` and
//! the framing of `crate::ap`.
//!
//! Covers `InitialUeMessage`, `UplinkNasTransport`, `DownlinkNasTransport`
//! (class 2, request only), and the class 1 pairs
//! `InitialContextSetupRequest`/`Response` and
//! `UeContextReleaseCommand`/`Complete`, which share a procedure code and
//! are told apart by the PDU choice. For the other messages
//! `encode_ngap_pdu` returns `MalformedNgap`.
//!
//! A PDU session list item is written flat, in a fixed field order, and not
//! as the nested transfer structure of TS 38.413. `UeContextReleaseCommand`
//! names the UE by its two identifiers, each an IE of its own, and not by the
//! choice `UE-NGAP-IDs`.
//!
//! A decoder ignores IEs that it does not know. When an IE occurs more than
//! once, the last one counts; for the security key, the bit rates and the
//! lists it is the last one that can be read.

use bytes::Bytes;
use vstd::prelude::*;

use crate::ap::{
    decode_pdu_wrapper, encode_message, ies_of, int_field, last_ie_value, last_parsed, octet_string_field, push_int,
    push_octet_string, read_ie_container, Ie, IeEntry, PDU_CHOICE_INITIATING_MESSAGE, PDU_CHOICE_SUCCESSFUL_OUTCOME,
};
use crate::error::ProtoError;
use crate::ngap::ie_ids as ie;
use crate::ngap::messages::{
    sessions_setup_view, sessions_to_setup_view, NgapCause, NgapDownlinkNasTransport, NgapInitialContextSetupRequest,
    NgapInitialContextSetupResponse, NgapInitialUeMessage, NgapMessage, NgapMessageView,
    NgapUeContextReleaseComplete, NgapUplinkNasTransport, PduSessionSetupItem, PduSessionSetupItemView,
    PduSessionToSetup, PduSessionToSetupView,
};
use crate::ngap::wire;
use crate::octets::{bytes_as_slice, bytes_from_vec, octets_of, to_array};
use crate::per::{
    get_items, get_length, get_list, lemma_items_none, put_items, put_list, put_octets, PerReader, PerWriter,
    MAX_LENGTH,
};

verus! {

/// A decoding result over views.
pub open spec fn decoded(r: Result<NgapMessage, ProtoError>) -> Result<NgapMessageView, ProtoError> {
    match r {
        Ok(m) => Ok(m@),
        Err(e) => Err(e),
    }
}

fn malformed<T>(reason: &'static str) -> (r: Result<T, ProtoError>)
    ensures
        r == wire::malformed::<T>(reason),
{
    Err(ProtoError::MalformedNgap { reason })
}

// ── Cause ─────────────────────────────────────────────────────────────────────

pub fn ngap_cause_to_u64(c: NgapCause) -> (v: u64)
    ensures
        v == wire::cause_number(c),
        v <= ie::CAUSE_MAX,
{
    match c {
        NgapCause::RadioNetworkUnspecified => 0,
        NgapCause::TransportUnspecified => 1,
        NgapCause::NasNormalRelease => 2,
        NgapCause::NasDeregister => 3,
        NgapCause::NasAuthFailure => 4,
        NgapCause::ProtocolUnspecified => 5,
        NgapCause::MiscUnspecified => 6,
    }
}

pub fn ngap_cause_from_u64(v: u64) -> (c: Option<NgapCause>)
    ensures
        c == wire::cause_of(v as int),
{
    match v {
        0 => Some(NgapCause::RadioNetworkUnspecified),
        1 => Some(NgapCause::TransportUnspecified),
        2 => Some(NgapCause::NasNormalRelease),
        3 => Some(NgapCause::NasDeregister),
        4 => Some(NgapCause::NasAuthFailure),
        5 => Some(NgapCause::ProtocolUnspecified),
        6 => Some(NgapCause::MiscUnspecified),
        _ => None,
    }
}

// ── User location ─────────────────────────────────────────────────────────────

pub fn write_user_location_info(w: &mut PerWriter, nr_cgi: &[u8; 9], tai: &[u8; 6])
    requires
        old(w).wf(),
    ensures
        final(w).wf(),
        final(w)@ == put_octets(put_octets(old(w)@, nr_cgi@), tai@),
{
    w.write_octets(nr_cgi.as_slice());
    w.write_octets(tai.as_slice());
}

pub fn read_user_location_info(r: &mut PerReader) -> (v: Option<([u8; 9], [u8; 6])>)
    requires
        old(r).wf(),
    ensures
        final(r).wf(),
        final(r).data() == old(r).data(),
        match wire::get_location(old(r).data(), old(r).pos()) {
            Some(((nr_cgi, tai), p)) => {
                &&& v is Some
                &&& (v->0).0@ == nr_cgi
                &&& (v->0).1@ == tai
                &&& final(r).pos() == p
            },
            None => v is None,
        },
{
    let nr_cgi = match r.read_octets(9) {
        Some(v) => v,
        None => return None,
    };
    match r.read_octets(6) {
        Some(tai) => Some((to_array::<9>(nr_cgi.as_slice()), to_array::<6>(tai.as_slice()))),
        None => None,
    }
}

fn location_field(entries: &[IeEntry]) -> (v: Option<([u8; 9], [u8; 6])>)
    ensures
        match wire::location_in(ies_of(entries@)) {
            Some((nr_cgi, tai)) => v is Some && (v->0).0@ == nr_cgi && (v->0).1@ == tai,
            None => v is None,
        },
{
    match last_ie_value(entries, ie::ID_USER_LOCATION_INFO) {
        Some(value) => {
            let mut r = PerReader::new(value.as_slice());
            read_user_location_info(&mut r)
        },
        None => None,
    }
}

fn push_location(entries: &mut Vec<IeEntry>, nr_cgi: &[u8; 9], tai: &[u8; 6])
    ensures
        ies_of(final(entries)@) == ies_of(old(entries)@).push(wire::location_ie(nr_cgi@, tai@)),
{
    let mut w = PerWriter::new();
    write_user_location_info(&mut w, nr_cgi, tai);
    entries.push((ie::ID_USER_LOCATION_INFO, ie::CRITICALITY_IGNORE, w.into_bytes()));
    assert(ies_of(entries@) =~= ies_of(old(entries)@).push(wire::location_ie(nr_cgi@, tai@)));
}

// ── PDU session lists ─────────────────────────────────────────────────────────

fn write_pdu_sessions_to_setup(w: &mut PerWriter, sessions: &[PduSessionToSetup])
    requires
        old(w).wf(),
        sessions@.len() <= MAX_LENGTH,
        forall|i: int| 0 <= i < sessions@.len() ==> (#[trigger] sessions@[i]).qfi <= ie::QFI_MAX,
    ensures
        final(w).wf(),
        final(w)@ == put_list(old(w)@, sessions_to_setup_view(sessions@), wire::session_to_setup_put()),
{
    let ghost items = sessions_to_setup_view(sessions@);
    w.write_length_determinant(sessions.len());
    let ghost start = w@;
    let mut i: usize = 0;
    while i < sessions.len()
        invariant
            w.wf(),
            i <= sessions@.len(),
            items == sessions_to_setup_view(sessions@),
            forall|i: int| 0 <= i < sessions@.len() ==> (#[trigger] sessions@[i]).qfi <= ie::QFI_MAX,
            w@ == put_items(start, items.take(i as int), wire::session_to_setup_put()),
        decreases sessions@.len() - i,
    {
        assert(items.take(i + 1).drop_last() =~= items.take(i as int));
        let s = &sessions[i];
        w.write_constrained_int(s.pdu_session_id as u64, 0, ie::PDU_SESSION_ID_MAX);
        w.write_constrained_int(s.qfi as u64, 0, ie::QFI_MAX);
        // 8 + 6 bits: the TEID that follows is read from an octet boundary.
        w.align();
        w.write_octets(s.gtp_teid.as_slice());
        w.write_octets(s.transport_layer_addr.as_slice());
        i += 1;
    }
    assert(items.take(i as int) =~= items);
}

fn read_pdu_session_to_setup(r: &mut PerReader) -> (v: Option<PduSessionToSetup>)
    requires
        old(r).wf(),
    ensures
        final(r).wf(),
        final(r).data() == old(r).data(),
        match wire::session_to_setup_get()(old(r).data(), old(r).pos()) {
            Some((x, p)) => v is Some && (v->0)@ == x && final(r).pos() == p,
            None => v is None,
        },
{
    let pdu_session_id: u64 = match r.read_constrained_int(0, ie::PDU_SESSION_ID_MAX) {
        Some(v) => v,
        None => return None,
    };
    let qfi: u64 = match r.read_constrained_int(0, ie::QFI_MAX) {
        Some(v) => v,
        None => return None,
    };
    let gtp_teid = match r.read_octets(4) {
        Some(v) => v,
        None => return None,
    };
    match r.read_octets(4) {
        Some(addr) => Some(
            PduSessionToSetup {
                pdu_session_id: pdu_session_id as u8,
                qfi: qfi as u8,
                gtp_teid: to_array::<4>(gtp_teid.as_slice()),
                transport_layer_addr: to_array::<4>(addr.as_slice()),
            },
        ),
        None => None,
    }
}

fn read_pdu_sessions_to_setup(r: &mut PerReader) -> (v: Option<Vec<PduSessionToSetup>>)
    requires
        old(r).wf(),
    ensures
        match get_list(old(r).data(), old(r).pos(), wire::session_to_setup_get()) {
            Some((x, p)) => v is Some && sessions_to_setup_view(v->0@) == x && final(r).pos() == p,
            None => v is None,
        },
{
    let count: usize = match r.read_length_determinant() {
        Some(n) => n,
        None => return None,
    };
    let ghost start = r.pos();
    let ghost d = r.data();
    let mut out: Vec<PduSessionToSetup> = Vec::new();
    let mut i: usize = 0;
    assert(sessions_to_setup_view(out@) =~= Seq::<PduSessionToSetupView>::empty());
    while i < count
        invariant
            r.wf(),
            r.data() == d,
            d == old(r).data(),
            i <= count,
            get_length(d, old(r).pos()) == Some((count as nat, start)),
            get_items(d, start, i as nat, wire::session_to_setup_get()) == Some(
                (sessions_to_setup_view(out@), r.pos()),
            ),
        decreases count - i,
    {
        match read_pdu_session_to_setup(r) {
            None => {
                proof {
                    lemma_items_none(d, start, (i + 1) as nat, count as nat, wire::session_to_setup_get());
                }
                return None;
            },
            Some(s) => {
                let ghost before = out@;
                out.push(s);
                assert(sessions_to_setup_view(out@) =~= sessions_to_setup_view(before).push(s@));
            },
        }
        i += 1;
    }
    Some(out)
}

fn write_pdu_sessions_setup(w: &mut PerWriter, items: &[PduSessionSetupItem])
    requires
        old(w).wf(),
        items@.len() <= MAX_LENGTH,
    ensures
        final(w).wf(),
        final(w)@ == put_list(old(w)@, sessions_setup_view(items@), wire::session_setup_put()),
{
    let ghost views = sessions_setup_view(items@);
    w.write_length_determinant(items.len());
    let ghost start = w@;
    let mut i: usize = 0;
    while i < items.len()
        invariant
            w.wf(),
            i <= items@.len(),
            views == sessions_setup_view(items@),
            w@ == put_items(start, views.take(i as int), wire::session_setup_put()),
        decreases items@.len() - i,
    {
        assert(views.take(i + 1).drop_last() =~= views.take(i as int));
        let s = &items[i];
        w.write_constrained_int(s.pdu_session_id as u64, 0, ie::PDU_SESSION_ID_MAX);
        w.align();
        w.write_octets(s.transport_layer_addr.as_slice());
        w.write_octets(s.gtp_teid.as_slice());
        i += 1;
    }
    assert(views.take(i as int) =~= views);
}

fn read_pdu_session_setup(r: &mut PerReader) -> (v: Option<PduSessionSetupItem>)
    requires
        old(r).wf(),
    ensures
        final(r).wf(),
        final(r).data() == old(r).data(),
        match wire::session_setup_get()(old(r).data(), old(r).pos()) {
            Some((x, p)) => v is Some && (v->0)@ == x && final(r).pos() == p,
            None => v is None,
        },
{
    let pdu_session_id: u64 = match r.read_constrained_int(0, ie::PDU_SESSION_ID_MAX) {
        Some(v) => v,
        None => return None,
    };
    let addr = match r.read_octets(4) {
        Some(v) => v,
        None => return None,
    };
    match r.read_octets(4) {
        Some(gtp_teid) => Some(
            PduSessionSetupItem {
                pdu_session_id: pdu_session_id as u8,
                transport_layer_addr: to_array::<4>(addr.as_slice()),
                gtp_teid: to_array::<4>(gtp_teid.as_slice()),
            },
        ),
        None => None,
    }
}

fn read_pdu_sessions_setup(r: &mut PerReader) -> (v: Option<Vec<PduSessionSetupItem>>)
    requires
        old(r).wf(),
    ensures
        match get_list(old(r).data(), old(r).pos(), wire::session_setup_get()) {
            Some((x, p)) => v is Some && sessions_setup_view(v->0@) == x && final(r).pos() == p,
            None => v is None,
        },
{
    let count: usize = match r.read_length_determinant() {
        Some(n) => n,
        None => return None,
    };
    let ghost start = r.pos();
    let ghost d = r.data();
    let mut out: Vec<PduSessionSetupItem> = Vec::new();
    let mut i: usize = 0;
    assert(sessions_setup_view(out@) =~= Seq::<PduSessionSetupItemView>::empty());
    while i < count
        invariant
            r.wf(),
            r.data() == d,
            d == old(r).data(),
            i <= count,
            get_length(d, old(r).pos()) == Some((count as nat, start)),
            get_items(d, start, i as nat, wire::session_setup_get()) == Some((sessions_setup_view(out@), r.pos())),
        decreases count - i,
    {
        match read_pdu_session_setup(r) {
            None => {
                proof {
                    lemma_items_none(d, start, (i + 1) as nat, count as nat, wire::session_setup_get());
                }
                return None;
            },
            Some(s) => {
                let ghost before = out@;
                out.push(s);
                assert(sessions_setup_view(out@) =~= sessions_setup_view(before).push(s@));
            },
        }
        i += 1;
    }
    Some(out)
}

fn write_pdu_session_ids(w: &mut PerWriter, ids: &[u8])
    requires
        old(w).wf(),
        ids@.len() <= MAX_LENGTH,
    ensures
        final(w).wf(),
        final(w)@ == put_list(old(w)@, ids@, wire::session_id_put()),
{
    w.write_length_determinant(ids.len());
    let ghost start = w@;
    let mut i: usize = 0;
    while i < ids.len()
        invariant
            w.wf(),
            i <= ids@.len(),
            w@ == put_items(start, ids@.take(i as int), wire::session_id_put()),
        decreases ids@.len() - i,
    {
        assert(ids@.take(i + 1).drop_last() =~= ids@.take(i as int));
        w.write_constrained_int(ids[i] as u64, 0, ie::PDU_SESSION_ID_MAX);
        i += 1;
    }
    assert(ids@.take(i as int) =~= ids@);
}

fn read_pdu_session_ids(r: &mut PerReader) -> (v: Option<Vec<u8>>)
    requires
        old(r).wf(),
    ensures
        match get_list(old(r).data(), old(r).pos(), wire::session_id_get()) {
            Some((x, p)) => v is Some && v->0@ == x && final(r).pos() == p,
            None => v is None,
        },
{
    let count: usize = match r.read_length_determinant() {
        Some(n) => n,
        None => return None,
    };
    let ghost start = r.pos();
    let ghost d = r.data();
    let mut out: Vec<u8> = Vec::new();
    let mut i: usize = 0;
    assert(out@ =~= Seq::<u8>::empty());
    while i < count
        invariant
            r.wf(),
            r.data() == d,
            d == old(r).data(),
            i <= count,
            get_length(d, old(r).pos()) == Some((count as nat, start)),
            get_items(d, start, i as nat, wire::session_id_get()) == Some((out@, r.pos())),
        decreases count - i,
    {
        match r.read_constrained_int(0, ie::PDU_SESSION_ID_MAX) {
            None => {
                proof {
                    lemma_items_none(d, start, (i + 1) as nat, count as nat, wire::session_id_get());
                }
                return None;
            },
            Some(id) => {
                out.push(id as u8);
            },
        }
        i += 1;
    }
    Some(out)
}

// ── Fields of which the last readable IE counts ───────────────────────────────

fn sessions_to_setup_field(entries: &[IeEntry]) -> (v: Vec<PduSessionToSetup>)
    ensures
        sessions_to_setup_view(v@) == wire::items_in(
            ies_of(entries@),
            ie::ID_PDU_SESSION_RESOURCE_SETUP_LIST_CTXT_REQ,
            wire::get_sessions_to_setup(),
        ),
{
    let ghost ies = ies_of(entries@);
    let ghost id = ie::ID_PDU_SESSION_RESOURCE_SETUP_LIST_CTXT_REQ;
    let mut i: usize = entries.len();
    assert(ies.take(i as int) =~= ies);
    while i > 0
        invariant
            i <= entries@.len(),
            ies == ies_of(entries@),
            id == ie::ID_PDU_SESSION_RESOURCE_SETUP_LIST_CTXT_REQ,
            last_parsed(ies, id, wire::get_sessions_to_setup()) == last_parsed(
                ies.take(i as int),
                id,
                wire::get_sessions_to_setup(),
            ),
        decreases i,
    {
        i -= 1;
        assert(ies.take(i + 1).drop_last() =~= ies.take(i as int));
        if entries[i].0 == ie::ID_PDU_SESSION_RESOURCE_SETUP_LIST_CTXT_REQ {
            let mut r = PerReader::new(entries[i].2.as_slice());
            match read_pdu_sessions_to_setup(&mut r) {
                Some(v) => {
                    return v;
                },
                None => {},
            }
        }
    }
    let v: Vec<PduSessionToSetup> = Vec::new();
    assert(sessions_to_setup_view(v@) =~= Seq::<PduSessionToSetupView>::empty());
    v
}

fn sessions_setup_field(entries: &[IeEntry]) -> (v: Vec<PduSessionSetupItem>)
    ensures
        sessions_setup_view(v@) == wire::items_in(
            ies_of(entries@),
            ie::ID_PDU_SESSION_RESOURCE_SETUP_LIST_CTXT_RES,
            wire::get_sessions_setup(),
        ),
{
    let ghost ies = ies_of(entries@);
    let ghost id = ie::ID_PDU_SESSION_RESOURCE_SETUP_LIST_CTXT_RES;
    let mut i: usize = entries.len();
    assert(ies.take(i as int) =~= ies);
    while i > 0
        invariant
            i <= entries@.len(),
            ies == ies_of(entries@),
            id == ie::ID_PDU_SESSION_RESOURCE_SETUP_LIST_CTXT_RES,
            last_parsed(ies, id, wire::get_sessions_setup()) == last_parsed(
                ies.take(i as int),
                id,
                wire::get_sessions_setup(),
            ),
        decreases i,
    {
        i -= 1;
        assert(ies.take(i + 1).drop_last() =~= ies.take(i as int));
        if entries[i].0 == ie::ID_PDU_SESSION_RESOURCE_SETUP_LIST_CTXT_RES {
            let mut r = PerReader::new(entries[i].2.as_slice());
            match read_pdu_sessions_setup(&mut r) {
                Some(v) => {
                    return v;
                },
                None => {},
            }
        }
    }
    let v: Vec<PduSessionSetupItem> = Vec::new();
    assert(sessions_setup_view(v@) =~= Seq::<PduSessionSetupItemView>::empty());
    v
}

fn session_ids_field(entries: &[IeEntry]) -> (v: Vec<u8>)
    ensures
        v@ == wire::items_in(
            ies_of(entries@),
            ie::ID_PDU_SESSION_RESOURCE_FAILED_TO_SETUP_LIST_CTXT_RES,
            wire::get_session_ids(),
        ),
{
    let ghost ies = ies_of(entries@);
    let ghost id = ie::ID_PDU_SESSION_RESOURCE_FAILED_TO_SETUP_LIST_CTXT_RES;
    let mut i: usize = entries.len();
    assert(ies.take(i as int) =~= ies);
    while i > 0
        invariant
            i <= entries@.len(),
            ies == ies_of(entries@),
            id == ie::ID_PDU_SESSION_RESOURCE_FAILED_TO_SETUP_LIST_CTXT_RES,
            last_parsed(ies, id, wire::get_session_ids()) == last_parsed(
                ies.take(i as int),
                id,
                wire::get_session_ids(),
            ),
        decreases i,
    {
        i -= 1;
        assert(ies.take(i + 1).drop_last() =~= ies.take(i as int));
        if entries[i].0 == ie::ID_PDU_SESSION_RESOURCE_FAILED_TO_SETUP_LIST_CTXT_RES {
            let mut r = PerReader::new(entries[i].2.as_slice());
            match read_pdu_session_ids(&mut r) {
                Some(v) => {
                    return v;
                },
                None => {},
            }
        }
    }
    Vec::new()
}

fn security_key_field(entries: &[IeEntry]) -> (v: Option<[u8; 32]>)
    ensures
        match last_parsed(ies_of(entries@), ie::ID_SECURITY_KEY, wire::get_key()) {
            Some(key) => v is Some && v->0@ == key,
            None => v is None,
        },
{
    let ghost ies = ies_of(entries@);
    let mut i: usize = entries.len();
    assert(ies.take(i as int) =~= ies);
    while i > 0
        invariant
            i <= entries@.len(),
            ies == ies_of(entries@),
            last_parsed(ies, ie::ID_SECURITY_KEY, wire::get_key()) == last_parsed(
                ies.take(i as int),
                ie::ID_SECURITY_KEY,
                wire::get_key(),
            ),
        decreases i,
    {
        i -= 1;
        assert(ies.take(i + 1).drop_last() =~= ies.take(i as int));
        if entries[i].0 == ie::ID_SECURITY_KEY {
            let mut r = PerReader::new(entries[i].2.as_slice());
            match r.read_octets(32) {
                Some(v) => {
                    return Some(to_array::<32>(v.as_slice()));
                },
                None => {},
            }
        }
    }
    None
}

fn read_bit_rates(buf: &[u8]) -> (v: Option<(u64, u64)>)
    ensures
        v == wire::get_bit_rates()(buf@),
{
    let mut r = PerReader::new(buf);
    let dl: u64 = match r.read_constrained_int(0, ie::BIT_RATE_MAX) {
        Some(v) => v,
        None => return None,
    };
    match r.read_constrained_int(0, ie::BIT_RATE_MAX) {
        Some(ul) => Some((dl, ul)),
        None => None,
    }
}

fn bit_rates_field(entries: &[IeEntry]) -> (v: Option<(u64, u64)>)
    ensures
        v == last_parsed(ies_of(entries@), ie::ID_UE_AGGREGATE_MAX_BIT_RATE, wire::get_bit_rates()),
{
    let ghost ies = ies_of(entries@);
    let mut i: usize = entries.len();
    assert(ies.take(i as int) =~= ies);
    while i > 0
        invariant
            i <= entries@.len(),
            ies == ies_of(entries@),
            last_parsed(ies, ie::ID_UE_AGGREGATE_MAX_BIT_RATE, wire::get_bit_rates()) == last_parsed(
                ies.take(i as int),
                ie::ID_UE_AGGREGATE_MAX_BIT_RATE,
                wire::get_bit_rates(),
            ),
        decreases i,
    {
        i -= 1;
        assert(ies.take(i + 1).drop_last() =~= ies.take(i as int));
        if entries[i].0 == ie::ID_UE_AGGREGATE_MAX_BIT_RATE {
            let rates = read_bit_rates(entries[i].2.as_slice());
            if rates.is_some() {
                return rates;
            }
        }
    }
    None
}

// ── InitialUeMessage ──────────────────────────────────────────────────────────

fn try_encode_initial_ue_message(msg: &NgapInitialUeMessage) -> (b: Option<Bytes>)
    ensures
        b is Some <==> wire::initial_ue_message_ok(msg@),
        b is Some ==> octets_of(b->0) == wire::octets(NgapMessageView::InitialUeMessage(msg@)),
{
    let nas_pdu = bytes_as_slice(&msg.nas_pdu);
    if nas_pdu.len() > MAX_LENGTH || msg.rrc_establishment_cause as u64 > ie::RRC_ESTABLISHMENT_CAUSE_MAX {
        return None;
    }
    let mut entries: Vec<IeEntry> = Vec::new();
    assert(ies_of(entries@) =~= Seq::<Ie>::empty());
    push_int(
        &mut entries,
        ie::ID_RAN_UE_NGAP_ID,
        ie::CRITICALITY_REJECT,
        msg.ran_ue_ngap_id as u64,
        ie::RAN_UE_NGAP_ID_MAX,
    );
    push_octet_string(&mut entries, ie::ID_NAS_PDU, ie::CRITICALITY_REJECT, nas_pdu);
    push_location(&mut entries, &msg.nr_cgi, &msg.tai);
    push_int(
        &mut entries,
        ie::ID_RRC_ESTABLISHMENT_CAUSE,
        ie::CRITICALITY_IGNORE,
        msg.rrc_establishment_cause as u64,
        ie::RRC_ESTABLISHMENT_CAUSE_MAX,
    );
    proof {
        wire::lemma_tagged(NgapMessageView::InitialUeMessage(msg@));
    }
    encode_message(
        PDU_CHOICE_INITIATING_MESSAGE,
        ie::PROC_INITIAL_UE_MESSAGE,
        ie::CRITICALITY_IGNORE,
        entries.as_slice(),
    )
}

pub fn encode_initial_ue_message(msg: &NgapInitialUeMessage) -> (b: Bytes)
    requires
        wire::initial_ue_message_ok(msg@),
    ensures
        octets_of(b) == wire::octets(NgapMessageView::InitialUeMessage(msg@)),
{
    try_encode_initial_ue_message(msg).unwrap()
}

fn decode_initial_ue_message(entries: &[IeEntry]) -> (r: Result<NgapMessage, ProtoError>)
    ensures
        decoded(r) == wire::initial_ue_message_from(ies_of(entries@)),
{
    let location = match location_field(entries) {
        Some(v) => v,
        None => return malformed("missing UserLocationInformation"),
    };
    let ran_ue_ngap_id: u64 = match int_field(entries, ie::ID_RAN_UE_NGAP_ID, ie::RAN_UE_NGAP_ID_MAX) {
        Some(v) => v,
        None => return malformed("missing RAN-UE-NGAP-ID"),
    };
    let nas_pdu = match octet_string_field(entries, ie::ID_NAS_PDU) {
        Some(v) => v,
        None => return malformed("missing NAS-PDU"),
    };
    let rrc_cause: u64 = match int_field(
        entries,
        ie::ID_RRC_ESTABLISHMENT_CAUSE,
        ie::RRC_ESTABLISHMENT_CAUSE_MAX,
    ) {
        Some(v) => v,
        None => return malformed("missing RRCEstablishmentCause"),
    };
    Ok(
        NgapMessage::InitialUeMessage(
            NgapInitialUeMessage {
                ran_ue_ngap_id: ran_ue_ngap_id as u32,
                nas_pdu: bytes_from_vec(nas_pdu),
                tai: location.1,
                nr_cgi: location.0,
                rrc_establishment_cause: rrc_cause as u8,
            },
        ),
    )
}

// ── UplinkNasTransport ────────────────────────────────────────────────────────

fn push_ue_ids(entries: &mut Vec<IeEntry>, amf_ue_ngap_id: u32, ran_ue_ngap_id: u32, criticality: u8)
    ensures
        ies_of(final(entries)@) == ies_of(old(entries)@).push(wire::amf_ue_id_ie(amf_ue_ngap_id, criticality)).push(
            wire::ran_ue_id_ie(ran_ue_ngap_id, criticality),
        ),
{
    push_int(entries, ie::ID_AMF_UE_NGAP_ID, criticality, amf_ue_ngap_id as u64, ie::AMF_UE_NGAP_ID_MAX);
    push_int(entries, ie::ID_RAN_UE_NGAP_ID, criticality, ran_ue_ngap_id as u64, ie::RAN_UE_NGAP_ID_MAX);
}

fn try_encode_uplink_nas_transport(msg: &NgapUplinkNasTransport) -> (b: Option<Bytes>)
    ensures
        b is Some <==> wire::uplink_nas_transport_ok(msg@),
        b is Some ==> octets_of(b->0) == wire::octets(NgapMessageView::UplinkNasTransport(msg@)),
{
    let nas_pdu = bytes_as_slice(&msg.nas_pdu);
    if nas_pdu.len() > MAX_LENGTH {
        return None;
    }
    let mut entries: Vec<IeEntry> = Vec::new();
    assert(ies_of(entries@) =~= Seq::<Ie>::empty());
    push_ue_ids(&mut entries, msg.amf_ue_ngap_id, msg.ran_ue_ngap_id, ie::CRITICALITY_REJECT);
    push_octet_string(&mut entries, ie::ID_NAS_PDU, ie::CRITICALITY_REJECT, nas_pdu);
    push_location(&mut entries, &msg.nr_cgi, &msg.tai);
    proof {
        wire::lemma_tagged(NgapMessageView::UplinkNasTransport(msg@));
    }
    encode_message(
        PDU_CHOICE_INITIATING_MESSAGE,
        ie::PROC_UPLINK_NAS_TRANSPORT,
        ie::CRITICALITY_IGNORE,
        entries.as_slice(),
    )
}

pub fn encode_uplink_nas_transport(msg: &NgapUplinkNasTransport) -> (b: Bytes)
    requires
        wire::uplink_nas_transport_ok(msg@),
    ensures
        octets_of(b) == wire::octets(NgapMessageView::UplinkNasTransport(msg@)),
{
    try_encode_uplink_nas_transport(msg).unwrap()
}

fn decode_uplink_nas_transport(entries: &[IeEntry]) -> (r: Result<NgapMessage, ProtoError>)
    ensures
        decoded(r) == wire::uplink_nas_transport_from(ies_of(entries@)),
{
    let location = match location_field(entries) {
        Some(v) => v,
        None => return malformed("missing UserLocationInformation"),
    };
    let amf_ue_ngap_id: u64 = match int_field(entries, ie::ID_AMF_UE_NGAP_ID, ie::AMF_UE_NGAP_ID_MAX) {
        Some(v) => v,
        None => return malformed("missing AMF-UE-NGAP-ID"),
    };
    let ran_ue_ngap_id: u64 = match int_field(entries, ie::ID_RAN_UE_NGAP_ID, ie::RAN_UE_NGAP_ID_MAX) {
        Some(v) => v,
        None => return malformed("missing RAN-UE-NGAP-ID"),
    };
    let nas_pdu = match octet_string_field(entries, ie::ID_NAS_PDU) {
        Some(v) => v,
        None => return malformed("missing NAS-PDU"),
    };
    Ok(
        NgapMessage::UplinkNasTransport(
            NgapUplinkNasTransport {
                amf_ue_ngap_id: amf_ue_ngap_id as u32,
                ran_ue_ngap_id: ran_ue_ngap_id as u32,
                nas_pdu: bytes_from_vec(nas_pdu),
                tai: location.1,
                nr_cgi: location.0,
            },
        ),
    )
}

// ── DownlinkNasTransport ──────────────────────────────────────────────────────

fn try_encode_downlink_nas_transport(msg: &NgapDownlinkNasTransport) -> (b: Option<Bytes>)
    ensures
        b is Some <==> wire::downlink_nas_transport_ok(msg@),
        b is Some ==> octets_of(b->0) == wire::octets(NgapMessageView::DownlinkNasTransport(msg@)),
{
    let nas_pdu = bytes_as_slice(&msg.nas_pdu);
    if nas_pdu.len() > MAX_LENGTH {
        return None;
    }
    let mut entries: Vec<IeEntry> = Vec::new();
    assert(ies_of(entries@) =~= Seq::<Ie>::empty());
    push_ue_ids(&mut entries, msg.amf_ue_ngap_id, msg.ran_ue_ngap_id, ie::CRITICALITY_REJECT);
    push_octet_string(&mut entries, ie::ID_NAS_PDU, ie::CRITICALITY_REJECT, nas_pdu);
    proof {
        wire::lemma_tagged(NgapMessageView::DownlinkNasTransport(msg@));
    }
    encode_message(
        PDU_CHOICE_INITIATING_MESSAGE,
        ie::PROC_DOWNLINK_NAS_TRANSPORT,
        ie::CRITICALITY_IGNORE,
        entries.as_slice(),
    )
}

pub fn encode_downlink_nas_transport(msg: &NgapDownlinkNasTransport) -> (b: Bytes)
    requires
        wire::downlink_nas_transport_ok(msg@),
    ensures
        octets_of(b) == wire::octets(NgapMessageView::DownlinkNasTransport(msg@)),
{
    try_encode_downlink_nas_transport(msg).unwrap()
}

fn decode_downlink_nas_transport(entries: &[IeEntry]) -> (r: Result<NgapMessage, ProtoError>)
    ensures
        decoded(r) == wire::downlink_nas_transport_from(ies_of(entries@)),
{
    let amf_ue_ngap_id: u64 = match int_field(entries, ie::ID_AMF_UE_NGAP_ID, ie::AMF_UE_NGAP_ID_MAX) {
        Some(v) => v,
        None => return malformed("missing AMF-UE-NGAP-ID"),
    };
    let ran_ue_ngap_id: u64 = match int_field(entries, ie::ID_RAN_UE_NGAP_ID, ie::RAN_UE_NGAP_ID_MAX) {
        Some(v) => v,
        None => return malformed("missing RAN-UE-NGAP-ID"),
    };
    let nas_pdu = match octet_string_field(entries, ie::ID_NAS_PDU) {
        Some(v) => v,
        None => return malformed("missing NAS-PDU"),
    };
    Ok(
        NgapMessage::DownlinkNasTransport(
            NgapDownlinkNasTransport {
                amf_ue_ngap_id: amf_ue_ngap_id as u32,
                ran_ue_ngap_id: ran_ue_ngap_id as u32,
                nas_pdu: bytes_from_vec(nas_pdu),
            },
        ),
    )
}

// ── InitialContextSetupRequest ────────────────────────────────────────────────

/// Bit rates, session list and NAS PDU are such that they can be written.
fn initial_context_setup_request_in_range(msg: &NgapInitialContextSetupRequest) -> (ok: bool)
    ensures
        ok == wire::initial_context_setup_request_in_range(msg@),
{
    if msg.ue_ambr.0 > ie::BIT_RATE_MAX || msg.ue_ambr.1 > ie::BIT_RATE_MAX || msg.pdu_sessions.len() > MAX_LENGTH {
        return false;
    }
    if let Some(nas_pdu) = &msg.nas_pdu {
        if bytes_as_slice(nas_pdu).len() > MAX_LENGTH {
            return false;
        }
    }
    let ghost views = (msg@).pdu_sessions;
    let mut i: usize = 0;
    while i < msg.pdu_sessions.len()
        invariant
            i <= msg.pdu_sessions@.len(),
            views == (msg@).pdu_sessions,
            forall|k: int| 0 <= k < i ==> wire::session_to_setup_ok(#[trigger] views[k]),
        decreases msg.pdu_sessions@.len() - i,
    {
        assert(views[i as int] == msg.pdu_sessions@[i as int]@);
        if msg.pdu_sessions[i].qfi as u64 > ie::QFI_MAX {
            assert(!wire::session_to_setup_ok(views[i as int]));
            return false;
        }
        i += 1;
    }
    true
}

fn try_encode_initial_context_setup_request(msg: &NgapInitialContextSetupRequest) -> (b: Option<Bytes>)
    ensures
        b is Some <==> wire::initial_context_setup_request_ok(msg@),
        b is Some ==> octets_of(b->0) == wire::octets(NgapMessageView::InitialContextSetupRequest(msg@)),
{
    if !initial_context_setup_request_in_range(msg) {
        return None;
    }
    let mut entries: Vec<IeEntry> = Vec::new();
    assert(ies_of(entries@) =~= Seq::<Ie>::empty());
    push_ue_ids(&mut entries, msg.amf_ue_ngap_id, msg.ran_ue_ngap_id, ie::CRITICALITY_REJECT);
    push_security_key(&mut entries, &msg.security_key);
    push_bit_rates(&mut entries, msg.ue_ambr.0, msg.ue_ambr.1);
    if msg.pdu_sessions.len() > 0 {
        proof {
            let views = (msg@).pdu_sessions;
            assert forall|i: int| 0 <= i < msg.pdu_sessions@.len() implies (#[trigger] msg.pdu_sessions@[i]).qfi
                <= ie::QFI_MAX by {
                assert(wire::session_to_setup_ok(views[i]));
            }
        }
        push_sessions_to_setup(&mut entries, msg.pdu_sessions.as_slice());
    }
    if let Some(nas_pdu) = &msg.nas_pdu {
        push_octet_string(&mut entries, ie::ID_NAS_PDU, ie::CRITICALITY_REJECT, bytes_as_slice(nas_pdu));
    }
    proof {
        wire::lemma_tagged(NgapMessageView::InitialContextSetupRequest(msg@));
    }
    assert(ies_of(entries@) == wire::initial_context_setup_request_ies(msg@));
    encode_message(
        PDU_CHOICE_INITIATING_MESSAGE,
        ie::PROC_INITIAL_CONTEXT_SETUP,
        ie::CRITICALITY_REJECT,
        entries.as_slice(),
    )
}

fn push_security_key(entries: &mut Vec<IeEntry>, key: &[u8; 32])
    ensures
        ies_of(final(entries)@) == ies_of(old(entries)@).push(
            Ie { id: ie::ID_SECURITY_KEY, criticality: ie::CRITICALITY_REJECT, value: wire::key_value(key@) },
        ),
{
    let mut w = PerWriter::new();
    w.write_octets(key.as_slice());
    entries.push((ie::ID_SECURITY_KEY, ie::CRITICALITY_REJECT, w.into_bytes()));
    assert(ies_of(entries@) =~= ies_of(old(entries)@).push(
        Ie { id: ie::ID_SECURITY_KEY, criticality: ie::CRITICALITY_REJECT, value: wire::key_value(key@) },
    ));
}

fn push_bit_rates(entries: &mut Vec<IeEntry>, dl: u64, ul: u64)
    requires
        dl <= ie::BIT_RATE_MAX,
        ul <= ie::BIT_RATE_MAX,
    ensures
        ies_of(final(entries)@) == ies_of(old(entries)@).push(
            Ie {
                id: ie::ID_UE_AGGREGATE_MAX_BIT_RATE,
                criticality: ie::CRITICALITY_IGNORE,
                value: wire::bit_rates_value((dl, ul)),
            },
        ),
{
    let mut w = PerWriter::new();
    w.write_constrained_int(dl, 0, ie::BIT_RATE_MAX);
    w.write_constrained_int(ul, 0, ie::BIT_RATE_MAX);
    entries.push((ie::ID_UE_AGGREGATE_MAX_BIT_RATE, ie::CRITICALITY_IGNORE, w.into_bytes()));
    assert(ies_of(entries@) =~= ies_of(old(entries)@).push(
        Ie {
            id: ie::ID_UE_AGGREGATE_MAX_BIT_RATE,
            criticality: ie::CRITICALITY_IGNORE,
            value: wire::bit_rates_value((dl, ul)),
        },
    ));
}

fn push_sessions_to_setup(entries: &mut Vec<IeEntry>, sessions: &[PduSessionToSetup])
    requires
        sessions@.len() <= MAX_LENGTH,
        forall|i: int| 0 <= i < sessions@.len() ==> (#[trigger] sessions@[i]).qfi <= ie::QFI_MAX,
    ensures
        ies_of(final(entries)@) == ies_of(old(entries)@).push(
            Ie {
                id: ie::ID_PDU_SESSION_RESOURCE_SETUP_LIST_CTXT_REQ,
                criticality: ie::CRITICALITY_REJECT,
                value: wire::sessions_to_setup_value(sessions_to_setup_view(sessions@)),
            },
        ),
{
    let mut w = PerWriter::new();
    write_pdu_sessions_to_setup(&mut w, sessions);
    entries.push((ie::ID_PDU_SESSION_RESOURCE_SETUP_LIST_CTXT_REQ, ie::CRITICALITY_REJECT, w.into_bytes()));
    assert(ies_of(entries@) =~= ies_of(old(entries)@).push(
        Ie {
            id: ie::ID_PDU_SESSION_RESOURCE_SETUP_LIST_CTXT_REQ,
            criticality: ie::CRITICALITY_REJECT,
            value: wire::sessions_to_setup_value(sessions_to_setup_view(sessions@)),
        },
    ));
}

pub fn encode_initial_context_setup_request(msg: &NgapInitialContextSetupRequest) -> (b: Bytes)
    requires
        wire::initial_context_setup_request_ok(msg@),
    ensures
        octets_of(b) == wire::octets(NgapMessageView::InitialContextSetupRequest(msg@)),
{
    try_encode_initial_context_setup_request(msg).unwrap()
}

fn decode_initial_context_setup_request(entries: &[IeEntry]) -> (r: Result<NgapMessage, ProtoError>)
    ensures
        decoded(r) == wire::initial_context_setup_request_from(ies_of(entries@)),
{
    let amf_ue_ngap_id: u64 = match int_field(entries, ie::ID_AMF_UE_NGAP_ID, ie::AMF_UE_NGAP_ID_MAX) {
        Some(v) => v,
        None => return malformed("missing AMF-UE-NGAP-ID"),
    };
    let ran_ue_ngap_id: u64 = match int_field(entries, ie::ID_RAN_UE_NGAP_ID, ie::RAN_UE_NGAP_ID_MAX) {
        Some(v) => v,
        None => return malformed("missing RAN-UE-NGAP-ID"),
    };
    let ue_ambr = match bit_rates_field(entries) {
        Some(v) => v,
        None => return malformed("missing UEAggregateMaximumBitRate"),
    };
    let security_key = match security_key_field(entries) {
        Some(v) => v,
        None => return malformed("missing SecurityKey"),
    };
    let pdu_sessions = sessions_to_setup_field(entries);
    let nas_pdu = match octet_string_field(entries, ie::ID_NAS_PDU) {
        Some(v) => Some(bytes_from_vec(v)),
        None => None,
    };
    Ok(
        NgapMessage::InitialContextSetupRequest(
            NgapInitialContextSetupRequest {
                amf_ue_ngap_id: amf_ue_ngap_id as u32,
                ran_ue_ngap_id: ran_ue_ngap_id as u32,
                pdu_sessions,
                nas_pdu,
                ue_ambr,
                security_key,
            },
        ),
    )
}

// ── InitialContextSetupResponse ───────────────────────────────────────────────

fn push_sessions_setup(entries: &mut Vec<IeEntry>, items: &[PduSessionSetupItem])
    requires
        items@.len() <= MAX_LENGTH,
    ensures
        ies_of(final(entries)@) == ies_of(old(entries)@).push(
            Ie {
                id: ie::ID_PDU_SESSION_RESOURCE_SETUP_LIST_CTXT_RES,
                criticality: ie::CRITICALITY_IGNORE,
                value: wire::sessions_setup_value(sessions_setup_view(items@)),
            },
        ),
{
    let mut w = PerWriter::new();
    write_pdu_sessions_setup(&mut w, items);
    entries.push((ie::ID_PDU_SESSION_RESOURCE_SETUP_LIST_CTXT_RES, ie::CRITICALITY_IGNORE, w.into_bytes()));
    assert(ies_of(entries@) =~= ies_of(old(entries)@).push(
        Ie {
            id: ie::ID_PDU_SESSION_RESOURCE_SETUP_LIST_CTXT_RES,
            criticality: ie::CRITICALITY_IGNORE,
            value: wire::sessions_setup_value(sessions_setup_view(items@)),
        },
    ));
}

fn push_session_ids(entries: &mut Vec<IeEntry>, ids: &[u8])
    requires
        ids@.len() <= MAX_LENGTH,
    ensures
        ies_of(final(entries)@) == ies_of(old(entries)@).push(
            Ie {
                id: ie::ID_PDU_SESSION_RESOURCE_FAILED_TO_SETUP_LIST_CTXT_RES,
                criticality: ie::CRITICALITY_IGNORE,
                value: wire::session_ids_value(ids@),
            },
        ),
{
    let mut w = PerWriter::new();
    write_pdu_session_ids(&mut w, ids);
    entries.push(
        (ie::ID_PDU_SESSION_RESOURCE_FAILED_TO_SETUP_LIST_CTXT_RES, ie::CRITICALITY_IGNORE, w.into_bytes()),
    );
    assert(ies_of(entries@) =~= ies_of(old(entries)@).push(
        Ie {
            id: ie::ID_PDU_SESSION_RESOURCE_FAILED_TO_SETUP_LIST_CTXT_RES,
            criticality: ie::CRITICALITY_IGNORE,
            value: wire::session_ids_value(ids@),
        },
    ));
}

fn try_encode_initial_context_setup_response(msg: &NgapInitialContextSetupResponse) -> (b: Option<Bytes>)
    ensures
        b is Some <==> wire::initial_context_setup_response_ok(msg@),
        b is Some ==> octets_of(b->0) == wire::octets(NgapMessageView::InitialContextSetupResponse(msg@)),
{
    if msg.pdu_sessions_setup.len() > MAX_LENGTH || msg.pdu_sessions_failed.len() > MAX_LENGTH {
        return None;
    }
    let mut entries: Vec<IeEntry> = Vec::new();
    assert(ies_of(entries@) =~= Seq::<Ie>::empty());
    push_ue_ids(&mut entries, msg.amf_ue_ngap_id, msg.ran_ue_ngap_id, ie::CRITICALITY_REJECT);
    if msg.pdu_sessions_setup.len() > 0 {
        push_sessions_setup(&mut entries, msg.pdu_sessions_setup.as_slice());
    }
    if msg.pdu_sessions_failed.len() > 0 {
        push_session_ids(&mut entries, msg.pdu_sessions_failed.as_slice());
    }
    proof {
        wire::lemma_tagged(NgapMessageView::InitialContextSetupResponse(msg@));
        let views = (msg@).pdu_sessions_setup;
        assert forall|i: int| 0 <= i < views.len() implies wire::session_setup_ok(#[trigger] views[i]) by {
            assert(views[i] == msg.pdu_sessions_setup@[i]@);
        }
    }
    assert(ies_of(entries@) == wire::initial_context_setup_response_ies(msg@));
    encode_message(
        PDU_CHOICE_SUCCESSFUL_OUTCOME,
        ie::PROC_INITIAL_CONTEXT_SETUP,
        ie::CRITICALITY_REJECT,
        entries.as_slice(),
    )
}

pub fn encode_initial_context_setup_response(msg: &NgapInitialContextSetupResponse) -> (b: Bytes)
    requires
        wire::initial_context_setup_response_ok(msg@),
    ensures
        octets_of(b) == wire::octets(NgapMessageView::InitialContextSetupResponse(msg@)),
{
    try_encode_initial_context_setup_response(msg).unwrap()
}

fn decode_initial_context_setup_response(entries: &[IeEntry]) -> (r: Result<NgapMessage, ProtoError>)
    ensures
        decoded(r) == wire::initial_context_setup_response_from(ies_of(entries@)),
{
    let amf_ue_ngap_id: u64 = match int_field(entries, ie::ID_AMF_UE_NGAP_ID, ie::AMF_UE_NGAP_ID_MAX) {
        Some(v) => v,
        None => return malformed("missing AMF-UE-NGAP-ID"),
    };
    let ran_ue_ngap_id: u64 = match int_field(entries, ie::ID_RAN_UE_NGAP_ID, ie::RAN_UE_NGAP_ID_MAX) {
        Some(v) => v,
        None => return malformed("missing RAN-UE-NGAP-ID"),
    };
    let pdu_sessions_setup = sessions_setup_field(entries);
    let pdu_sessions_failed = session_ids_field(entries);
    Ok(
        NgapMessage::InitialContextSetupResponse(
            NgapInitialContextSetupResponse {
                amf_ue_ngap_id: amf_ue_ngap_id as u32,
                ran_ue_ngap_id: ran_ue_ngap_id as u32,
                pdu_sessions_setup,
                pdu_sessions_failed,
            },
        ),
    )
}

// ── UeContextReleaseCommand / Complete ────────────────────────────────────────

fn try_encode_ue_context_release_command(amf_ue_ngap_id: u32, ran_ue_ngap_id: u32, cause: NgapCause) -> (b: Option<
    Bytes,
>)
    ensures
        b is Some <==> wire::encodable(
            NgapMessageView::UeContextReleaseCommand { amf_ue_ngap_id, ran_ue_ngap_id, cause },
        ),
        b is Some ==> octets_of(b->0) == wire::octets(
            NgapMessageView::UeContextReleaseCommand { amf_ue_ngap_id, ran_ue_ngap_id, cause },
        ),
{
    let mut entries: Vec<IeEntry> = Vec::new();
    assert(ies_of(entries@) =~= Seq::<Ie>::empty());
    push_ue_ids(&mut entries, amf_ue_ngap_id, ran_ue_ngap_id, ie::CRITICALITY_REJECT);
    push_int(&mut entries, ie::ID_CAUSE, ie::CRITICALITY_IGNORE, ngap_cause_to_u64(cause), ie::CAUSE_MAX);
    proof {
        wire::lemma_tagged(NgapMessageView::UeContextReleaseCommand { amf_ue_ngap_id, ran_ue_ngap_id, cause });
    }
    encode_message(
        PDU_CHOICE_INITIATING_MESSAGE,
        ie::PROC_UE_CONTEXT_RELEASE,
        ie::CRITICALITY_IGNORE,
        entries.as_slice(),
    )
}

pub fn encode_ue_context_release_command(amf_ue_ngap_id: u32, ran_ue_ngap_id: u32, cause: NgapCause) -> (b: Bytes)
    ensures
        octets_of(b) == wire::octets(
            NgapMessageView::UeContextReleaseCommand { amf_ue_ngap_id, ran_ue_ngap_id, cause },
        ),
{
    proof {
        wire::lemma_release_command_fits(amf_ue_ngap_id, ran_ue_ngap_id, cause);
    }
    try_encode_ue_context_release_command(amf_ue_ngap_id, ran_ue_ngap_id, cause).unwrap()
}

fn decode_ue_context_release_command(entries: &[IeEntry]) -> (r: Result<NgapMessage, ProtoError>)
    ensures
        decoded(r) == wire::ue_context_release_command_from(ies_of(entries@)),
{
    let amf_ue_ngap_id: u64 = match int_field(entries, ie::ID_AMF_UE_NGAP_ID, ie::AMF_UE_NGAP_ID_MAX) {
        Some(v) => v,
        None => return malformed("missing AMF-UE-NGAP-ID"),
    };
    let ran_ue_ngap_id: u64 = match int_field(entries, ie::ID_RAN_UE_NGAP_ID, ie::RAN_UE_NGAP_ID_MAX) {
        Some(v) => v,
        None => return malformed("missing RAN-UE-NGAP-ID"),
    };
    let v: u64 = match int_field(entries, ie::ID_CAUSE, ie::CAUSE_MAX) {
        Some(v) => v,
        None => return malformed("missing or invalid Cause"),
    };
    match ngap_cause_from_u64(v) {
        Some(cause) => Ok(
            NgapMessage::UeContextReleaseCommand {
                amf_ue_ngap_id: amf_ue_ngap_id as u32,
                ran_ue_ngap_id: ran_ue_ngap_id as u32,
                cause,
            },
        ),
        None => malformed("missing or invalid Cause"),
    }
}

fn try_encode_ue_context_release_complete(msg: &NgapUeContextReleaseComplete) -> (b: Option<Bytes>)
    ensures
        b is Some <==> wire::encodable(NgapMessageView::UeContextReleaseComplete(msg@)),
        b is Some ==> octets_of(b->0) == wire::octets(NgapMessageView::UeContextReleaseComplete(msg@)),
{
    let mut entries: Vec<IeEntry> = Vec::new();
    assert(ies_of(entries@) =~= Seq::<Ie>::empty());
    push_ue_ids(&mut entries, msg.amf_ue_ngap_id, msg.ran_ue_ngap_id, ie::CRITICALITY_IGNORE);
    proof {
        wire::lemma_tagged(NgapMessageView::UeContextReleaseComplete(msg@));
    }
    encode_message(
        PDU_CHOICE_SUCCESSFUL_OUTCOME,
        ie::PROC_UE_CONTEXT_RELEASE,
        ie::CRITICALITY_IGNORE,
        entries.as_slice(),
    )
}

pub fn encode_ue_context_release_complete(msg: &NgapUeContextReleaseComplete) -> (b: Bytes)
    ensures
        octets_of(b) == wire::octets(NgapMessageView::UeContextReleaseComplete(msg@)),
{
    proof {
        wire::lemma_release_complete_fits(msg@);
    }
    try_encode_ue_context_release_complete(msg).unwrap()
}

fn decode_ue_context_release_complete(entries: &[IeEntry]) -> (r: Result<NgapMessage, ProtoError>)
    ensures
        decoded(r) == wire::ue_context_release_complete_from(ies_of(entries@)),
{
    let amf_ue_ngap_id: u64 = match int_field(entries, ie::ID_AMF_UE_NGAP_ID, ie::AMF_UE_NGAP_ID_MAX) {
        Some(v) => v,
        None => return malformed("missing AMF-UE-NGAP-ID"),
    };
    let ran_ue_ngap_id: u64 = match int_field(entries, ie::ID_RAN_UE_NGAP_ID, ie::RAN_UE_NGAP_ID_MAX) {
        Some(v) => v,
        None => return malformed("missing RAN-UE-NGAP-ID"),
    };
    Ok(
        NgapMessage::UeContextReleaseComplete(
            NgapUeContextReleaseComplete {
                amf_ue_ngap_id: amf_ue_ngap_id as u32,
                ran_ue_ngap_id: ran_ue_ngap_id as u32,
            },
        ),
    )
}

// ── Dispatch ──────────────────────────────────────────────────────────────────

/// Encodes a message. Messages without an encoding here, and those whose
/// fields or lengths do not fit theirs, are refused.
pub fn encode_ngap_pdu(msg: &NgapMessage) -> (r: Result<Bytes, ProtoError>)
    ensures
        wire::encodable(msg@) ==> r is Ok && octets_of(r->Ok_0) == wire::octets(msg@),
        !wire::supported(msg@) ==> r == wire::malformed::<Bytes>(wire::REASON_UNSUPPORTED_MESSAGE),
        wire::supported(msg@) && !wire::encodable(msg@) ==> r == wire::malformed::<Bytes>(wire::REASON_NOT_ENCODABLE),
{
    let encoded = match msg {
        NgapMessage::InitialUeMessage(m) => try_encode_initial_ue_message(m),
        NgapMessage::UplinkNasTransport(m) => try_encode_uplink_nas_transport(m),
        NgapMessage::DownlinkNasTransport(m) => try_encode_downlink_nas_transport(m),
        NgapMessage::InitialContextSetupRequest(m) => try_encode_initial_context_setup_request(m),
        NgapMessage::InitialContextSetupResponse(m) => try_encode_initial_context_setup_response(m),
        NgapMessage::UeContextReleaseCommand { amf_ue_ngap_id, ran_ue_ngap_id, cause } =>
            try_encode_ue_context_release_command(*amf_ue_ngap_id, *ran_ue_ngap_id, *cause),
        NgapMessage::UeContextReleaseComplete(m) => try_encode_ue_context_release_complete(m),
        _ => return malformed(wire::REASON_UNSUPPORTED_MESSAGE),
    };
    match encoded {
        Some(b) => Ok(b),
        None => malformed(wire::REASON_NOT_ENCODABLE),
    }
}

/// Decodes a message.
pub fn decode_ngap_pdu(buf: &[u8]) -> (r: Result<NgapMessage, ProtoError>)
    ensures
        decoded(r) == wire::message(buf@),
{
    let (choice, procedure_code, _criticality, value) = match decode_pdu_wrapper(buf) {
        Some(v) => v,
        None => return malformed("failed to decode PDU wrapper"),
    };
    let mut vr = PerReader::new(value.as_slice());
    let entries = match read_ie_container(&mut vr) {
        Some(v) => v,
        None => return malformed("failed to decode IE container"),
    };
    let entries = entries.as_slice();
    if procedure_code == ie::PROC_INITIAL_UE_MESSAGE {
        decode_initial_ue_message(entries)
    } else if procedure_code == ie::PROC_UPLINK_NAS_TRANSPORT {
        decode_uplink_nas_transport(entries)
    } else if procedure_code == ie::PROC_DOWNLINK_NAS_TRANSPORT {
        decode_downlink_nas_transport(entries)
    } else if procedure_code == ie::PROC_INITIAL_CONTEXT_SETUP && choice == PDU_CHOICE_INITIATING_MESSAGE {
        decode_initial_context_setup_request(entries)
    } else if procedure_code == ie::PROC_INITIAL_CONTEXT_SETUP && choice == PDU_CHOICE_SUCCESSFUL_OUTCOME {
        decode_initial_context_setup_response(entries)
    } else if procedure_code == ie::PROC_UE_CONTEXT_RELEASE && choice == PDU_CHOICE_INITIATING_MESSAGE {
        decode_ue_context_release_command(entries)
    } else if procedure_code == ie::PROC_UE_CONTEXT_RELEASE && choice == PDU_CHOICE_SUCCESSFUL_OUTCOME {
        decode_ue_context_release_complete(entries)
    } else {
        malformed(wire::REASON_UNSUPPORTED_PROCEDURE)
    }
}

} // verus!
