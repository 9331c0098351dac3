//! S1AP PDU encoder and decoder in ALIGNED PER, on top of `crate::per` and
//! the framing of `crate::ap`.
//!
//! Covers `InitialUeMessage`, `UplinkNasTransport`, `DownlinkNasTransport`
//! (class 2, request only), and `InitialContextSetupRequest`/`Response`
//! (class 1: one procedure code, told apart by the PDU choice). For the other
//! messages `encode_s1ap_pdu` returns `MalformedS1ap`.
//!
//! An E-RAB list item is written flat, in a fixed field order, and not as the
//! nested transfer structure of TS 36.413.
//!
//! A decoder ignores IEs that it does not know. When an IE occurs more than
//! once, the last one counts; for the bit rates and the lists it is the last
//! one that can be read.

use bytes::Bytes;
use vstd::prelude::*;

use crate::ap::{
    decode_pdu_wrapper, encode_message, ies_of, int_field, last_ie_value, last_parsed, octet_string_field, push_int,
    push_octet_string, read_ie_container, Ie, IeEntry, PDU_CHOICE_INITIATING_MESSAGE, PDU_CHOICE_SUCCESSFUL_OUTCOME,
};
use crate::error::ProtoError;
use crate::octets::{bytes_as_slice, bytes_from_vec, octets_of, to_array};
use crate::per::{
    get_items, get_length, get_list, lemma_items_none, put_items, put_list, PerReader, PerWriter, MAX_LENGTH,
};
use crate::s1ap::ie_ids as ie;
use crate::s1ap::messages::{
    erabs_setup_view, erabs_to_setup_view, DownlinkNasTransport, ErabSetupItem, ErabSetupItemView, ErabToSetup,
    ErabToSetupView, InitialContextSetupRequest, InitialContextSetupResponse, InitialUeMessage, S1apMessage,
    S1apMessageView, UplinkNasTransport,
};
use crate::s1ap::wire;

verus! {

/// A decoding result over views.
pub open spec fn decoded(r: Result<S1apMessage, ProtoError>) -> Result<S1apMessageView, ProtoError> {
    match r {
        Ok(m) => Ok(m@),
        Err(e) => Err(e),
    }
}

fn malformed<T>(reason: &'static str) -> (r: Result<T, ProtoError>)
    ensures
        r == wire::malformed::<T>(reason),
{
    Err(ProtoError::MalformedS1ap { reason })
}

// ── Octets of a fixed number ──────────────────────────────────────────────────

fn push_octets(entries: &mut Vec<IeEntry>, id: u32, criticality: u8, s: &[u8])
    ensures
        ies_of(final(entries)@) == ies_of(old(entries)@).push(Ie { id, criticality, value: wire::octets_value(s@) }),
{
    let mut w = PerWriter::new();
    w.write_octets(s);
    entries.push((id, criticality, w.into_bytes()));
    assert(ies_of(entries@) =~= ies_of(old(entries)@).push(
        Ie { id, criticality, value: wire::octets_value(s@) },
    ));
}

fn octets_field(entries: &[IeEntry], id: u32, n: usize) -> (v: Option<Vec<u8>>)
    ensures
        match wire::octets_in(ies_of(entries@), id, n as nat) {
            Some(x) => v is Some && v->0@ == x && x.len() == n,
            None => v is None,
        },
{
    match last_ie_value(entries, id) {
        Some(value) => {
            let mut r = PerReader::new(value.as_slice());
            r.read_octets(n)
        },
        None => None,
    }
}

// ── E-RAB lists ───────────────────────────────────────────────────────────────

fn write_erabs_to_setup(w: &mut PerWriter, erabs: &[ErabToSetup])
    requires
        old(w).wf(),
        erabs@.len() <= MAX_LENGTH,
        forall|i: int| 0 <= i < erabs@.len() ==> (#[trigger] erabs@[i]).erab_id <= ie::ERAB_ID_MAX,
    ensures
        final(w).wf(),
        final(w)@ == put_list(old(w)@, erabs_to_setup_view(erabs@), wire::erab_to_setup_put()),
{
    let ghost items = erabs_to_setup_view(erabs@);
    w.write_length_determinant(erabs.len());
    let ghost start = w@;
    let mut i: usize = 0;
    while i < erabs.len()
        invariant
            w.wf(),
            i <= erabs@.len(),
            items == erabs_to_setup_view(erabs@),
            forall|i: int| 0 <= i < erabs@.len() ==> (#[trigger] erabs@[i]).erab_id <= ie::ERAB_ID_MAX,
            w@ == put_items(start, items.take(i as int), wire::erab_to_setup_put()),
        decreases erabs@.len() - i,
    {
        assert(items.take(i + 1).drop_last() =~= items.take(i as int));
        let s = &erabs[i];
        w.write_constrained_int(s.erab_id as u64, 0, ie::ERAB_ID_MAX);
        w.write_constrained_int(s.qci as u64, 0, ie::QCI_MAX);
        // 4 + 8 bits: the TEID that follows is read from an octet boundary.
        w.align();
        w.write_octets(s.gtp_teid.as_slice());
        w.write_octets(s.transport_layer_addr.as_slice());
        i += 1;
    }
    assert(items.take(i as int) =~= items);
}

fn read_erab_to_setup(r: &mut PerReader) -> (v: Option<ErabToSetup>)
    requires
        old(r).wf(),
    ensures
        final(r).wf(),
        final(r).data() == old(r).data(),
        match wire::erab_to_setup_get()(old(r).data(), old(r).pos()) {
            Some((x, p)) => v is Some && (v->0)@ == x && final(r).pos() == p,
            None => v is None,
        },
{
    let erab_id: u64 = match r.read_constrained_int(0, ie::ERAB_ID_MAX) {
        Some(v) => v,
        None => return None,
    };
    let qci: u64 = match r.read_constrained_int(0, ie::QCI_MAX) {
        Some(v) => v,
        None => return None,
    };
    let gtp_teid = match r.read_octets(4) {
        Some(v) => v,
        None => return None,
    };
    match r.read_octets(4) {
        Some(addr) => Some(
            ErabToSetup {
                erab_id: erab_id as u8,
                qci: qci as u8,
                gtp_teid: to_array::<4>(gtp_teid.as_slice()),
                transport_layer_addr: to_array::<4>(addr.as_slice()),
            },
        ),
        None => None,
    }
}

fn read_erabs_to_setup(r: &mut PerReader) -> (v: Option<Vec<ErabToSetup>>)
    requires
        old(r).wf(),
    ensures
        match get_list(old(r).data(), old(r).pos(), wire::erab_to_setup_get()) {
            Some((x, p)) => v is Some && erabs_to_setup_view(v->0@) == x && final(r).pos() == p,
            None => v is None,
        },
{
    let count: usize = match r.read_length_determinant() {
        Some(n) => n,
        None => return None,
    };
    let ghost start = r.pos();
    let ghost d = r.data();
    let mut out: Vec<ErabToSetup> = Vec::new();
    let mut i: usize = 0;
    assert(erabs_to_setup_view(out@) =~= Seq::<ErabToSetupView>::empty());
    while i < count
        invariant
            r.wf(),
            r.data() == d,
            d == old(r).data(),
            i <= count,
            get_length(d, old(r).pos()) == Some((count as nat, start)),
            get_items(d, start, i as nat, wire::erab_to_setup_get()) == Some(
                (erabs_to_setup_view(out@), r.pos()),
            ),
        decreases count - i,
    {
        match read_erab_to_setup(r) {
            None => {
                proof {
                    lemma_items_none(d, start, (i + 1) as nat, count as nat, wire::erab_to_setup_get());
                }
                return None;
            },
            Some(s) => {
                let ghost before = out@;
                out.push(s);
                assert(erabs_to_setup_view(out@) =~= erabs_to_setup_view(before).push(s@));
            },
        }
        i += 1;
    }
    Some(out)
}

fn write_erabs_setup(w: &mut PerWriter, items: &[ErabSetupItem])
    requires
        old(w).wf(),
        items@.len() <= MAX_LENGTH,
        forall|i: int| 0 <= i < items@.len() ==> (#[trigger] items@[i]).e_rab_id <= ie::ERAB_ID_MAX,
    ensures
        final(w).wf(),
        final(w)@ == put_list(old(w)@, erabs_setup_view(items@), wire::erab_setup_put()),
{
    let ghost views = erabs_setup_view(items@);
    w.write_length_determinant(items.len());
    let ghost start = w@;
    let mut i: usize = 0;
    while i < items.len()
        invariant
            w.wf(),
            i <= items@.len(),
            views == erabs_setup_view(items@),
            forall|i: int| 0 <= i < items@.len() ==> (#[trigger] items@[i]).e_rab_id <= ie::ERAB_ID_MAX,
            w@ == put_items(start, views.take(i as int), wire::erab_setup_put()),
        decreases items@.len() - i,
    {
        assert(views.take(i + 1).drop_last() =~= views.take(i as int));
        let s = &items[i];
        w.write_constrained_int(s.e_rab_id as u64, 0, ie::ERAB_ID_MAX);
        w.align();
        w.write_octets(s.transport_layer_addr.as_slice());
        w.write_octets(s.gtp_teid.as_slice());
        i += 1;
    }
    assert(views.take(i as int) =~= views);
}

fn read_erab_setup(r: &mut PerReader) -> (v: Option<ErabSetupItem>)
    requires
        old(r).wf(),
    ensures
        final(r).wf(),
        final(r).data() == old(r).data(),
        match wire::erab_setup_get()(old(r).data(), old(r).pos()) {
            Some((x, p)) => v is Some && (v->0)@ == x && final(r).pos() == p,
            None => v is None,
        },
{
    let e_rab_id: u64 = match r.read_constrained_int(0, ie::ERAB_ID_MAX) {
        Some(v) => v,
        None => return None,
    };
    let addr = match r.read_octets(4) {
        Some(v) => v,
        None => return None,
    };
    match r.read_octets(4) {
        Some(gtp_teid) => Some(
            ErabSetupItem {
                e_rab_id: e_rab_id as u8,
                transport_layer_addr: to_array::<4>(addr.as_slice()),
                gtp_teid: to_array::<4>(gtp_teid.as_slice()),
            },
        ),
        None => None,
    }
}

fn read_erabs_setup(r: &mut PerReader) -> (v: Option<Vec<ErabSetupItem>>)
    requires
        old(r).wf(),
    ensures
        match get_list(old(r).data(), old(r).pos(), wire::erab_setup_get()) {
            Some((x, p)) => v is Some && erabs_setup_view(v->0@) == x && final(r).pos() == p,
            None => v is None,
        },
{
    let count: usize = match r.read_length_determinant() {
        Some(n) => n,
        None => return None,
    };
    let ghost start = r.pos();
    let ghost d = r.data();
    let mut out: Vec<ErabSetupItem> = Vec::new();
    let mut i: usize = 0;
    assert(erabs_setup_view(out@) =~= Seq::<ErabSetupItemView>::empty());
    while i < count
        invariant
            r.wf(),
            r.data() == d,
            d == old(r).data(),
            i <= count,
            get_length(d, old(r).pos()) == Some((count as nat, start)),
            get_items(d, start, i as nat, wire::erab_setup_get()) == Some((erabs_setup_view(out@), r.pos())),
        decreases count - i,
    {
        match read_erab_setup(r) {
            None => {
                proof {
                    lemma_items_none(d, start, (i + 1) as nat, count as nat, wire::erab_setup_get());
                }
                return None;
            },
            Some(s) => {
                let ghost before = out@;
                out.push(s);
                assert(erabs_setup_view(out@) =~= erabs_setup_view(before).push(s@));
            },
        }
        i += 1;
    }
    Some(out)
}

fn write_erab_ids(w: &mut PerWriter, ids: &[u8])
    requires
        old(w).wf(),
        ids@.len() <= MAX_LENGTH,
        forall|i: int| 0 <= i < ids@.len() ==> #[trigger] ids@[i] <= ie::ERAB_ID_MAX,
    ensures
        final(w).wf(),
        final(w)@ == put_list(old(w)@, ids@, wire::erab_id_put()),
{
    w.write_length_determinant(ids.len());
    let ghost start = w@;
    let mut i: usize = 0;
    while i < ids.len()
        invariant
            w.wf(),
            i <= ids@.len(),
            forall|i: int| 0 <= i < ids@.len() ==> #[trigger] ids@[i] <= ie::ERAB_ID_MAX,
            w@ == put_items(start, ids@.take(i as int), wire::erab_id_put()),
        decreases ids@.len() - i,
    {
        assert(ids@.take(i + 1).drop_last() =~= ids@.take(i as int));
        w.write_constrained_int(ids[i] as u64, 0, ie::ERAB_ID_MAX);
        i += 1;
    }
    assert(ids@.take(i as int) =~= ids@);
}

fn read_erab_ids(r: &mut PerReader) -> (v: Option<Vec<u8>>)
    requires
        old(r).wf(),
    ensures
        match get_list(old(r).data(), old(r).pos(), wire::erab_id_get()) {
            Some((x, p)) => v is Some && v->0@ == x && final(r).pos() == p,
            None => v is None,
        },
{
    let count: usize = match r.read_length_determinant() {
        Some(n) => n,
        None => return None,
    };
    let ghost start = r.pos();
    let ghost d = r.data();
    let mut out: Vec<u8> = Vec::new();
    let mut i: usize = 0;
    assert(out@ =~= Seq::<u8>::empty());
    while i < count
        invariant
            r.wf(),
            r.data() == d,
            d == old(r).data(),
            i <= count,
            get_length(d, old(r).pos()) == Some((count as nat, start)),
            get_items(d, start, i as nat, wire::erab_id_get()) == Some((out@, r.pos())),
        decreases count - i,
    {
        match r.read_constrained_int(0, ie::ERAB_ID_MAX) {
            None => {
                proof {
                    lemma_items_none(d, start, (i + 1) as nat, count as nat, wire::erab_id_get());
                }
                return None;
            },
            Some(id) => {
                out.push(id as u8);
            },
        }
        i += 1;
    }
    Some(out)
}

// ── Fields of which the last readable IE counts ───────────────────────────────

fn erabs_to_setup_field(entries: &[IeEntry]) -> (v: Vec<ErabToSetup>)
    ensures
        erabs_to_setup_view(v@) == wire::items_in(
            ies_of(entries@),
            ie::ID_E_RAB_TO_BE_SETUP_LIST_CTXT_SU_REQ,
            wire::get_erabs_to_setup(),
        ),
{
    let ghost ies = ies_of(entries@);
    let ghost id = ie::ID_E_RAB_TO_BE_SETUP_LIST_CTXT_SU_REQ;
    let mut i: usize = entries.len();
    assert(ies.take(i as int) =~= ies);
    while i > 0
        invariant
            i <= entries@.len(),
            ies == ies_of(entries@),
            id == ie::ID_E_RAB_TO_BE_SETUP_LIST_CTXT_SU_REQ,
            last_parsed(ies, id, wire::get_erabs_to_setup()) == last_parsed(
                ies.take(i as int),
                id,
                wire::get_erabs_to_setup(),
            ),
        decreases i,
    {
        i -= 1;
        assert(ies.take(i + 1).drop_last() =~= ies.take(i as int));
        if entries[i].0 == ie::ID_E_RAB_TO_BE_SETUP_LIST_CTXT_SU_REQ {
            let mut r = PerReader::new(entries[i].2.as_slice());
            match read_erabs_to_setup(&mut r) {
                Some(v) => {
                    return v;
                },
                None => {},
            }
        }
    }
    let v: Vec<ErabToSetup> = Vec::new();
    assert(erabs_to_setup_view(v@) =~= Seq::<ErabToSetupView>::empty());
    v
}

fn erabs_setup_field(entries: &[IeEntry]) -> (v: Vec<ErabSetupItem>)
    ensures
        erabs_setup_view(v@) == wire::items_in(
            ies_of(entries@),
            ie::ID_E_RAB_SETUP_LIST_CTXT_SU_RES,
            wire::get_erabs_setup(),
        ),
{
    let ghost ies = ies_of(entries@);
    let ghost id = ie::ID_E_RAB_SETUP_LIST_CTXT_SU_RES;
    let mut i: usize = entries.len();
    assert(ies.take(i as int) =~= ies);
    while i > 0
        invariant
            i <= entries@.len(),
            ies == ies_of(entries@),
            id == ie::ID_E_RAB_SETUP_LIST_CTXT_SU_RES,
            last_parsed(ies, id, wire::get_erabs_setup()) == last_parsed(
                ies.take(i as int),
                id,
                wire::get_erabs_setup(),
            ),
        decreases i,
    {
        i -= 1;
        assert(ies.take(i + 1).drop_last() =~= ies.take(i as int));
        if entries[i].0 == ie::ID_E_RAB_SETUP_LIST_CTXT_SU_RES {
            let mut r = PerReader::new(entries[i].2.as_slice());
            match read_erabs_setup(&mut r) {
                Some(v) => {
                    return v;
                },
                None => {},
            }
        }
    }
    let v: Vec<ErabSetupItem> = Vec::new();
    assert(erabs_setup_view(v@) =~= Seq::<ErabSetupItemView>::empty());
    v
}

fn erab_ids_field(entries: &[IeEntry]) -> (v: Vec<u8>)
    ensures
        v@ == wire::items_in(
            ies_of(entries@),
            ie::ID_E_RAB_FAILED_TO_SETUP_LIST_CTXT_SU_RES,
            wire::get_erab_ids(),
        ),
{
    let ghost ies = ies_of(entries@);
    let ghost id = ie::ID_E_RAB_FAILED_TO_SETUP_LIST_CTXT_SU_RES;
    let mut i: usize = entries.len();
    assert(ies.take(i as int) =~= ies);
    while i > 0
        invariant
            i <= entries@.len(),
            ies == ies_of(entries@),
            id == ie::ID_E_RAB_FAILED_TO_SETUP_LIST_CTXT_SU_RES,
            last_parsed(ies, id, wire::get_erab_ids()) == last_parsed(
                ies.take(i as int),
                id,
                wire::get_erab_ids(),
            ),
        decreases i,
    {
        i -= 1;
        assert(ies.take(i + 1).drop_last() =~= ies.take(i as int));
        if entries[i].0 == ie::ID_E_RAB_FAILED_TO_SETUP_LIST_CTXT_SU_RES {
            let mut r = PerReader::new(entries[i].2.as_slice());
            match read_erab_ids(&mut r) {
                Some(v) => {
                    return v;
                },
                None => {},
            }
        }
    }
    Vec::new()
}

fn read_bit_rates(buf: &[u8]) -> (v: Option<(u64, u64)>)
    ensures
        v == wire::get_bit_rates()(buf@),
{
    let mut r = PerReader::new(buf);
    let dl: u64 = match r.read_constrained_int(0, ie::BIT_RATE_MAX) {
        Some(v) => v,
        None => return None,
    };
    match r.read_constrained_int(0, ie::BIT_RATE_MAX) {
        Some(ul) => Some((dl, ul)),
        None => None,
    }
}

fn bit_rates_field(entries: &[IeEntry]) -> (v: Option<(u64, u64)>)
    ensures
        v == last_parsed(ies_of(entries@), ie::ID_UE_AGGREGATE_MAXIMUM_BITRATE, wire::get_bit_rates()),
{
    let ghost ies = ies_of(entries@);
    let mut i: usize = entries.len();
    assert(ies.take(i as int) =~= ies);
    while i > 0
        invariant
            i <= entries@.len(),
            ies == ies_of(entries@),
            last_parsed(ies, ie::ID_UE_AGGREGATE_MAXIMUM_BITRATE, wire::get_bit_rates()) == last_parsed(
                ies.take(i as int),
                ie::ID_UE_AGGREGATE_MAXIMUM_BITRATE,
                wire::get_bit_rates(),
            ),
        decreases i,
    {
        i -= 1;
        assert(ies.take(i + 1).drop_last() =~= ies.take(i as int));
        if entries[i].0 == ie::ID_UE_AGGREGATE_MAXIMUM_BITRATE {
            let rates = read_bit_rates(entries[i].2.as_slice());
            if rates.is_some() {
                return rates;
            }
        }
    }
    None
}

// ── InitialUeMessage ──────────────────────────────────────────────────────────

fn try_encode_initial_ue_message(msg: &InitialUeMessage) -> (b: Option<Bytes>)
    ensures
        b is Some <==> wire::initial_ue_message_ok(msg@),
        b is Some ==> octets_of(b->0) == wire::octets(S1apMessageView::InitialUeMessage(msg@)),
{
    let nas_pdu = bytes_as_slice(&msg.nas_pdu);
    if nas_pdu.len() > MAX_LENGTH || msg.rrc_cause as u64 > ie::RRC_ESTABLISHMENT_CAUSE_MAX
        || msg.enb_ue_s1ap_id as u64 > ie::ENB_UE_S1AP_ID_MAX {
        return None;
    }
    let mut entries: Vec<IeEntry> = Vec::new();
    assert(ies_of(entries@) =~= Seq::<Ie>::empty());
    push_int(
        &mut entries,
        ie::ID_ENB_UE_S1AP_ID,
        ie::CRITICALITY_REJECT,
        msg.enb_ue_s1ap_id as u64,
        ie::ENB_UE_S1AP_ID_MAX,
    );
    push_octet_string(&mut entries, ie::ID_NAS_PDU, ie::CRITICALITY_REJECT, nas_pdu);
    push_octets(&mut entries, ie::ID_TAI, ie::CRITICALITY_IGNORE, msg.tai.as_slice());
    push_octets(&mut entries, ie::ID_EUTRAN_CGI, ie::CRITICALITY_IGNORE, msg.eutran_cgi.as_slice());
    push_int(
        &mut entries,
        ie::ID_RRC_ESTABLISHMENT_CAUSE,
        ie::CRITICALITY_IGNORE,
        msg.rrc_cause as u64,
        ie::RRC_ESTABLISHMENT_CAUSE_MAX,
    );
    proof {
        wire::lemma_tagged(S1apMessageView::InitialUeMessage(msg@));
    }
    encode_message(
        PDU_CHOICE_INITIATING_MESSAGE,
        ie::PROC_INITIAL_UE_MESSAGE,
        ie::CRITICALITY_IGNORE,
        entries.as_slice(),
    )
}

pub fn encode_initial_ue_message(msg: &InitialUeMessage) -> (b: Bytes)
    requires
        wire::initial_ue_message_ok(msg@),
    ensures
        octets_of(b) == wire::octets(S1apMessageView::InitialUeMessage(msg@)),
{
    try_encode_initial_ue_message(msg).unwrap()
}

fn decode_initial_ue_message(entries: &[IeEntry]) -> (r: Result<S1apMessage, ProtoError>)
    ensures
        decoded(r) == wire::initial_ue_message_from(ies_of(entries@)),
{
    let enb_ue_s1ap_id: u64 = match int_field(entries, ie::ID_ENB_UE_S1AP_ID, ie::ENB_UE_S1AP_ID_MAX) {
        Some(v) => v,
        None => return malformed("missing eNB-UE-S1AP-ID"),
    };
    let nas_pdu = match octet_string_field(entries, ie::ID_NAS_PDU) {
        Some(v) => v,
        None => return malformed("missing NAS-PDU"),
    };
    let tai = match octets_field(entries, ie::ID_TAI, 5) {
        Some(v) => v,
        None => return malformed("missing TAI"),
    };
    let eutran_cgi = match octets_field(entries, ie::ID_EUTRAN_CGI, 7) {
        Some(v) => v,
        None => return malformed("missing E-UTRAN CGI"),
    };
    let rrc_cause: u64 = match int_field(
        entries,
        ie::ID_RRC_ESTABLISHMENT_CAUSE,
        ie::RRC_ESTABLISHMENT_CAUSE_MAX,
    ) {
        Some(v) => v,
        None => return malformed("missing RRC-Establishment-Cause"),
    };
    Ok(
        S1apMessage::InitialUeMessage(
            InitialUeMessage {
                enb_ue_s1ap_id: enb_ue_s1ap_id as u32,
                nas_pdu: bytes_from_vec(nas_pdu),
                tai: to_array::<5>(tai.as_slice()),
                eutran_cgi: to_array::<7>(eutran_cgi.as_slice()),
                rrc_cause: rrc_cause as u8,
            },
        ),
    )
}

// ── UplinkNasTransport ────────────────────────────────────────────────────────

fn push_ue_ids(entries: &mut Vec<IeEntry>, mme_ue_s1ap_id: u32, enb_ue_s1ap_id: u32, criticality: u8)
    requires
        enb_ue_s1ap_id <= ie::ENB_UE_S1AP_ID_MAX,
    ensures
        ies_of(final(entries)@) == ies_of(old(entries)@).push(wire::mme_ue_id_ie(mme_ue_s1ap_id, criticality)).push(
            wire::enb_ue_id_ie(enb_ue_s1ap_id, criticality),
        ),
{
    push_int(entries, ie::ID_MME_UE_S1AP_ID, criticality, mme_ue_s1ap_id as u64, ie::MME_UE_S1AP_ID_MAX);
    push_int(entries, ie::ID_ENB_UE_S1AP_ID, criticality, enb_ue_s1ap_id as u64, ie::ENB_UE_S1AP_ID_MAX);
}

fn try_encode_uplink_nas_transport(msg: &UplinkNasTransport) -> (b: Option<Bytes>)
    ensures
        b is Some <==> wire::uplink_nas_transport_ok(msg@),
        b is Some ==> octets_of(b->0) == wire::octets(S1apMessageView::UplinkNasTransport(msg@)),
{
    let nas_pdu = bytes_as_slice(&msg.nas_pdu);
    if nas_pdu.len() > MAX_LENGTH || msg.enb_ue_s1ap_id as u64 > ie::ENB_UE_S1AP_ID_MAX {
        return None;
    }
    let mut entries: Vec<IeEntry> = Vec::new();
    assert(ies_of(entries@) =~= Seq::<Ie>::empty());
    push_ue_ids(&mut entries, msg.mme_ue_s1ap_id, msg.enb_ue_s1ap_id, ie::CRITICALITY_REJECT);
    push_octet_string(&mut entries, ie::ID_NAS_PDU, ie::CRITICALITY_REJECT, nas_pdu);
    push_octets(&mut entries, ie::ID_TAI, ie::CRITICALITY_IGNORE, msg.tai.as_slice());
    push_octets(&mut entries, ie::ID_EUTRAN_CGI, ie::CRITICALITY_IGNORE, msg.eutran_cgi.as_slice());
    proof {
        wire::lemma_tagged(S1apMessageView::UplinkNasTransport(msg@));
    }
    encode_message(
        PDU_CHOICE_INITIATING_MESSAGE,
        ie::PROC_UPLINK_NAS_TRANSPORT,
        ie::CRITICALITY_IGNORE,
        entries.as_slice(),
    )
}

pub fn encode_uplink_nas_transport(msg: &UplinkNasTransport) -> (b: Bytes)
    requires
        wire::uplink_nas_transport_ok(msg@),
    ensures
        octets_of(b) == wire::octets(S1apMessageView::UplinkNasTransport(msg@)),
{
    try_encode_uplink_nas_transport(msg).unwrap()
}

fn decode_uplink_nas_transport(entries: &[IeEntry]) -> (r: Result<S1apMessage, ProtoError>)
    ensures
        decoded(r) == wire::uplink_nas_transport_from(ies_of(entries@)),
{
    let mme_ue_s1ap_id: u64 = match int_field(entries, ie::ID_MME_UE_S1AP_ID, ie::MME_UE_S1AP_ID_MAX) {
        Some(v) => v,
        None => return malformed("missing MME-UE-S1AP-ID"),
    };
    let enb_ue_s1ap_id: u64 = match int_field(entries, ie::ID_ENB_UE_S1AP_ID, ie::ENB_UE_S1AP_ID_MAX) {
        Some(v) => v,
        None => return malformed("missing eNB-UE-S1AP-ID"),
    };
    let nas_pdu = match octet_string_field(entries, ie::ID_NAS_PDU) {
        Some(v) => v,
        None => return malformed("missing NAS-PDU"),
    };
    let tai = match octets_field(entries, ie::ID_TAI, 5) {
        Some(v) => v,
        None => return malformed("missing TAI"),
    };
    let eutran_cgi = match octets_field(entries, ie::ID_EUTRAN_CGI, 7) {
        Some(v) => v,
        None => return malformed("missing E-UTRAN CGI"),
    };
    Ok(
        S1apMessage::UplinkNasTransport(
            UplinkNasTransport {
                mme_ue_s1ap_id: mme_ue_s1ap_id as u32,
                enb_ue_s1ap_id: enb_ue_s1ap_id as u32,
                nas_pdu: bytes_from_vec(nas_pdu),
                tai: to_array::<5>(tai.as_slice()),
                eutran_cgi: to_array::<7>(eutran_cgi.as_slice()),
            },
        ),
    )
}

// ── DownlinkNasTransport ──────────────────────────────────────────────────────

fn try_encode_downlink_nas_transport(msg: &DownlinkNasTransport) -> (b: Option<Bytes>)
    ensures
        b is Some <==> wire::downlink_nas_transport_ok(msg@),
        b is Some ==> octets_of(b->0) == wire::octets(S1apMessageView::DownlinkNasTransport(msg@)),
{
    let nas_pdu = bytes_as_slice(&msg.nas_pdu);
    if nas_pdu.len() > MAX_LENGTH || msg.enb_ue_s1ap_id as u64 > ie::ENB_UE_S1AP_ID_MAX {
        return None;
    }
    let mut entries: Vec<IeEntry> = Vec::new();
    assert(ies_of(entries@) =~= Seq::<Ie>::empty());
    push_ue_ids(&mut entries, msg.mme_ue_s1ap_id, msg.enb_ue_s1ap_id, ie::CRITICALITY_REJECT);
    push_octet_string(&mut entries, ie::ID_NAS_PDU, ie::CRITICALITY_REJECT, nas_pdu);
    proof {
        wire::lemma_tagged(S1apMessageView::DownlinkNasTransport(msg@));
    }
    encode_message(
        PDU_CHOICE_INITIATING_MESSAGE,
        ie::PROC_DOWNLINK_NAS_TRANSPORT,
        ie::CRITICALITY_IGNORE,
        entries.as_slice(),
    )
}

pub fn encode_downlink_nas_transport(msg: &DownlinkNasTransport) -> (b: Bytes)
    requires
        wire::downlink_nas_transport_ok(msg@),
    ensures
        octets_of(b) == wire::octets(S1apMessageView::DownlinkNasTransport(msg@)),
{
    try_encode_downlink_nas_transport(msg).unwrap()
}

fn decode_downlink_nas_transport(entries: &[IeEntry]) -> (r: Result<S1apMessage, ProtoError>)
    ensures
        decoded(r) == wire::downlink_nas_transport_from(ies_of(entries@)),
{
    let mme_ue_s1ap_id: u64 = match int_field(entries, ie::ID_MME_UE_S1AP_ID, ie::MME_UE_S1AP_ID_MAX) {
        Some(v) => v,
        None => return malformed("missing MME-UE-S1AP-ID"),
    };
    let enb_ue_s1ap_id: u64 = match int_field(entries, ie::ID_ENB_UE_S1AP_ID, ie::ENB_UE_S1AP_ID_MAX) {
        Some(v) => v,
        None => return malformed("missing eNB-UE-S1AP-ID"),
    };
    let nas_pdu = match octet_string_field(entries, ie::ID_NAS_PDU) {
        Some(v) => v,
        None => return malformed("missing NAS-PDU"),
    };
    Ok(
        S1apMessage::DownlinkNasTransport(
            DownlinkNasTransport {
                mme_ue_s1ap_id: mme_ue_s1ap_id as u32,
                enb_ue_s1ap_id: enb_ue_s1ap_id as u32,
                nas_pdu: bytes_from_vec(nas_pdu),
            },
        ),
    )
}

// ── InitialContextSetupRequest ────────────────────────────────────────────────

/// Bit rates, session list and NAS PDU are such that they can be written.
fn initial_context_setup_request_in_range(msg: &InitialContextSetupRequest) -> (ok: bool)
    ensures
        ok == wire::initial_context_setup_request_in_range(msg@),
{
    if msg.enb_ue_s1ap_id as u64 > ie::ENB_UE_S1AP_ID_MAX || msg.ue_ambr.0 > ie::BIT_RATE_MAX || msg.ue_ambr.1
        > ie::BIT_RATE_MAX || msg.e_rabs.len() > MAX_LENGTH {
        return false;
    }
    if let Some(nas_pdu) = &msg.nas_pdu {
        if bytes_as_slice(nas_pdu).len() > MAX_LENGTH {
            return false;
        }
    }
    let ghost views = (msg@).e_rabs;
    let mut i: usize = 0;
    while i < msg.e_rabs.len()
        invariant
            i <= msg.e_rabs@.len(),
            views == (msg@).e_rabs,
            forall|k: int| 0 <= k < i ==> wire::erab_to_setup_ok(#[trigger] views[k]),
        decreases msg.e_rabs@.len() - i,
    {
        assert(views[i as int] == msg.e_rabs@[i as int]@);
        if msg.e_rabs[i].erab_id as u64 > ie::ERAB_ID_MAX {
            assert(!wire::erab_to_setup_ok(views[i as int]));
            return false;
        }
        i += 1;
    }
    true
}

fn try_encode_initial_context_setup_request(msg: &InitialContextSetupRequest) -> (b: Option<Bytes>)
    ensures
        b is Some <==> wire::initial_context_setup_request_ok(msg@),
        b is Some ==> octets_of(b->0) == wire::octets(S1apMessageView::InitialContextSetupRequest(msg@)),
{
    if !initial_context_setup_request_in_range(msg) {
        return None;
    }
    let mut entries: Vec<IeEntry> = Vec::new();
    assert(ies_of(entries@) =~= Seq::<Ie>::empty());
    push_ue_ids(&mut entries, msg.mme_ue_s1ap_id, msg.enb_ue_s1ap_id, ie::CRITICALITY_REJECT);
    push_bit_rates(&mut entries, msg.ue_ambr.0, msg.ue_ambr.1);
    push_octets(&mut entries, ie::ID_SECURITY_KEY, ie::CRITICALITY_REJECT, msg.security_key.as_slice());
    if msg.e_rabs.len() > 0 {
        proof {
            let views = (msg@).e_rabs;
            assert forall|i: int| 0 <= i < msg.e_rabs@.len() implies (#[trigger] msg.e_rabs@[i]).erab_id
                <= ie::ERAB_ID_MAX by {
                assert(wire::erab_to_setup_ok(views[i]));
            }
        }
        push_erabs_to_setup(&mut entries, msg.e_rabs.as_slice());
    }
    if let Some(nas_pdu) = &msg.nas_pdu {
        push_octet_string(&mut entries, ie::ID_NAS_PDU, ie::CRITICALITY_REJECT, bytes_as_slice(nas_pdu));
    }
    proof {
        wire::lemma_tagged(S1apMessageView::InitialContextSetupRequest(msg@));
    }
    assert(ies_of(entries@) == wire::initial_context_setup_request_ies(msg@));
    encode_message(
        PDU_CHOICE_INITIATING_MESSAGE,
        ie::PROC_INITIAL_CONTEXT_SETUP,
        ie::CRITICALITY_REJECT,
        entries.as_slice(),
    )
}

fn push_bit_rates(entries: &mut Vec<IeEntry>, dl: u64, ul: u64)
    requires
        dl <= ie::BIT_RATE_MAX,
        ul <= ie::BIT_RATE_MAX,
    ensures
        ies_of(final(entries)@) == ies_of(old(entries)@).push(
            Ie {
                id: ie::ID_UE_AGGREGATE_MAXIMUM_BITRATE,
                criticality: ie::CRITICALITY_REJECT,
                value: wire::bit_rates_value((dl, ul)),
            },
        ),
{
    let mut w = PerWriter::new();
    w.write_constrained_int(dl, 0, ie::BIT_RATE_MAX);
    w.write_constrained_int(ul, 0, ie::BIT_RATE_MAX);
    entries.push((ie::ID_UE_AGGREGATE_MAXIMUM_BITRATE, ie::CRITICALITY_REJECT, w.into_bytes()));
    assert(ies_of(entries@) =~= ies_of(old(entries)@).push(
        Ie {
            id: ie::ID_UE_AGGREGATE_MAXIMUM_BITRATE,
            criticality: ie::CRITICALITY_REJECT,
            value: wire::bit_rates_value((dl, ul)),
        },
    ));
}

fn push_erabs_to_setup(entries: &mut Vec<IeEntry>, erabs: &[ErabToSetup])
    requires
        erabs@.len() <= MAX_LENGTH,
        forall|i: int| 0 <= i < erabs@.len() ==> (#[trigger] erabs@[i]).erab_id <= ie::ERAB_ID_MAX,
    ensures
        ies_of(final(entries)@) == ies_of(old(entries)@).push(
            Ie {
                id: ie::ID_E_RAB_TO_BE_SETUP_LIST_CTXT_SU_REQ,
                criticality: ie::CRITICALITY_REJECT,
                value: wire::erabs_to_setup_value(erabs_to_setup_view(erabs@)),
            },
        ),
{
    let mut w = PerWriter::new();
    write_erabs_to_setup(&mut w, erabs);
    entries.push((ie::ID_E_RAB_TO_BE_SETUP_LIST_CTXT_SU_REQ, ie::CRITICALITY_REJECT, w.into_bytes()));
    assert(ies_of(entries@) =~= ies_of(old(entries)@).push(
        Ie {
            id: ie::ID_E_RAB_TO_BE_SETUP_LIST_CTXT_SU_REQ,
            criticality: ie::CRITICALITY_REJECT,
            value: wire::erabs_to_setup_value(erabs_to_setup_view(erabs@)),
        },
    ));
}

pub fn encode_initial_context_setup_request(msg: &InitialContextSetupRequest) -> (b: Bytes)
    requires
        wire::initial_context_setup_request_ok(msg@),
    ensures
        octets_of(b) == wire::octets(S1apMessageView::InitialContextSetupRequest(msg@)),
{
    try_encode_initial_context_setup_request(msg).unwrap()
}

fn decode_initial_context_setup_request(entries: &[IeEntry]) -> (r: Result<S1apMessage, ProtoError>)
    ensures
        decoded(r) == wire::initial_context_setup_request_from(ies_of(entries@)),
{
    let mme_ue_s1ap_id: u64 = match int_field(entries, ie::ID_MME_UE_S1AP_ID, ie::MME_UE_S1AP_ID_MAX) {
        Some(v) => v,
        None => return malformed("missing MME-UE-S1AP-ID"),
    };
    let enb_ue_s1ap_id: u64 = match int_field(entries, ie::ID_ENB_UE_S1AP_ID, ie::ENB_UE_S1AP_ID_MAX) {
        Some(v) => v,
        None => return malformed("missing eNB-UE-S1AP-ID"),
    };
    let ue_ambr = match bit_rates_field(entries) {
        Some(v) => v,
        None => return malformed("missing UE-AggregateMaximumBitrate"),
    };
    let security_key = match octets_field(entries, ie::ID_SECURITY_KEY, 32) {
        Some(v) => v,
        None => return malformed("missing SecurityKey"),
    };
    let e_rabs = erabs_to_setup_field(entries);
    let nas_pdu = match octet_string_field(entries, ie::ID_NAS_PDU) {
        Some(v) => Some(bytes_from_vec(v)),
        None => None,
    };
    Ok(
        S1apMessage::InitialContextSetupRequest(
            InitialContextSetupRequest {
                mme_ue_s1ap_id: mme_ue_s1ap_id as u32,
                enb_ue_s1ap_id: enb_ue_s1ap_id as u32,
                e_rabs,
                nas_pdu,
                ue_ambr,
                security_key: to_array::<32>(security_key.as_slice()),
            },
        ),
    )
}

// ── InitialContextSetupResponse ───────────────────────────────────────────────

fn push_erabs_setup(entries: &mut Vec<IeEntry>, items: &[ErabSetupItem])
    requires
        items@.len() <= MAX_LENGTH,
        forall|i: int| 0 <= i < items@.len() ==> (#[trigger] items@[i]).e_rab_id <= ie::ERAB_ID_MAX,
    ensures
        ies_of(final(entries)@) == ies_of(old(entries)@).push(
            Ie {
                id: ie::ID_E_RAB_SETUP_LIST_CTXT_SU_RES,
                criticality: ie::CRITICALITY_REJECT,
                value: wire::erabs_setup_value(erabs_setup_view(items@)),
            },
        ),
{
    let mut w = PerWriter::new();
    write_erabs_setup(&mut w, items);
    entries.push((ie::ID_E_RAB_SETUP_LIST_CTXT_SU_RES, ie::CRITICALITY_REJECT, w.into_bytes()));
    assert(ies_of(entries@) =~= ies_of(old(entries)@).push(
        Ie {
            id: ie::ID_E_RAB_SETUP_LIST_CTXT_SU_RES,
            criticality: ie::CRITICALITY_REJECT,
            value: wire::erabs_setup_value(erabs_setup_view(items@)),
        },
    ));
}

fn push_erab_ids(entries: &mut Vec<IeEntry>, ids: &[u8])
    requires
        ids@.len() <= MAX_LENGTH,
        forall|i: int| 0 <= i < ids@.len() ==> #[trigger] ids@[i] <= ie::ERAB_ID_MAX,
    ensures
        ies_of(final(entries)@) == ies_of(old(entries)@).push(
            Ie {
                id: ie::ID_E_RAB_FAILED_TO_SETUP_LIST_CTXT_SU_RES,
                criticality: ie::CRITICALITY_IGNORE,
                value: wire::erab_ids_value(ids@),
            },
        ),
{
    let mut w = PerWriter::new();
    write_erab_ids(&mut w, ids);
    entries.push(
        (ie::ID_E_RAB_FAILED_TO_SETUP_LIST_CTXT_SU_RES, ie::CRITICALITY_IGNORE, w.into_bytes()),
    );
    assert(ies_of(entries@) =~= ies_of(old(entries)@).push(
        Ie {
            id: ie::ID_E_RAB_FAILED_TO_SETUP_LIST_CTXT_SU_RES,
            criticality: ie::CRITICALITY_IGNORE,
            value: wire::erab_ids_value(ids@),
        },
    ));
}

/// Every identifier in the response is within its range, and so are the
/// lengths of the lists.
fn initial_context_setup_response_in_range(msg: &InitialContextSetupResponse) -> (ok: bool)
    ensures
        ok == wire::initial_context_setup_response_in_range(msg@),
{
    if msg.enb_ue_s1ap_id as u64 > ie::ENB_UE_S1AP_ID_MAX || msg.e_rabs_setup.len() > MAX_LENGTH
        || msg.e_rabs_failed.len() > MAX_LENGTH {
        return false;
    }
    let ghost views = (msg@).e_rabs_setup;
    let mut i: usize = 0;
    while i < msg.e_rabs_setup.len()
        invariant
            i <= msg.e_rabs_setup@.len(),
            views == (msg@).e_rabs_setup,
            forall|k: int| 0 <= k < i ==> wire::erab_setup_ok(#[trigger] views[k]),
        decreases msg.e_rabs_setup@.len() - i,
    {
        assert(views[i as int] == msg.e_rabs_setup@[i as int]@);
        if msg.e_rabs_setup[i].e_rab_id as u64 > ie::ERAB_ID_MAX {
            assert(!wire::erab_setup_ok(views[i as int]));
            return false;
        }
        i += 1;
    }
    let mut j: usize = 0;
    while j < msg.e_rabs_failed.len()
        invariant
            j <= msg.e_rabs_failed@.len(),
            forall|k: int| 0 <= k < j ==> #[trigger] msg.e_rabs_failed@[k] <= ie::ERAB_ID_MAX,
        decreases msg.e_rabs_failed@.len() - j,
    {
        if msg.e_rabs_failed[j] as u64 > ie::ERAB_ID_MAX {
            assert((msg@).e_rabs_failed[j as int] > ie::ERAB_ID_MAX);
            return false;
        }
        j += 1;
    }
    true
}

fn try_encode_initial_context_setup_response(msg: &InitialContextSetupResponse) -> (b: Option<Bytes>)
    ensures
        b is Some <==> wire::initial_context_setup_response_ok(msg@),
        b is Some ==> octets_of(b->0) == wire::octets(S1apMessageView::InitialContextSetupResponse(msg@)),
{
    if !initial_context_setup_response_in_range(msg) {
        return None;
    }
    let mut entries: Vec<IeEntry> = Vec::new();
    assert(ies_of(entries@) =~= Seq::<Ie>::empty());
    push_ue_ids(&mut entries, msg.mme_ue_s1ap_id, msg.enb_ue_s1ap_id, ie::CRITICALITY_REJECT);
    if msg.e_rabs_setup.len() > 0 {
        proof {
            let views = (msg@).e_rabs_setup;
            assert forall|i: int| 0 <= i < msg.e_rabs_setup@.len() implies (#[trigger] msg.e_rabs_setup@[i]).e_rab_id
                <= ie::ERAB_ID_MAX by {
                assert(wire::erab_setup_ok(views[i]));
            }
        }
        push_erabs_setup(&mut entries, msg.e_rabs_setup.as_slice());
    }
    if msg.e_rabs_failed.len() > 0 {
        push_erab_ids(&mut entries, msg.e_rabs_failed.as_slice());
    }
    proof {
        wire::lemma_tagged(S1apMessageView::InitialContextSetupResponse(msg@));
    }
    assert(ies_of(entries@) == wire::initial_context_setup_response_ies(msg@));
    encode_message(
        PDU_CHOICE_SUCCESSFUL_OUTCOME,
        ie::PROC_INITIAL_CONTEXT_SETUP,
        ie::CRITICALITY_REJECT,
        entries.as_slice(),
    )
}

pub fn encode_initial_context_setup_response(msg: &InitialContextSetupResponse) -> (b: Bytes)
    requires
        wire::initial_context_setup_response_ok(msg@),
    ensures
        octets_of(b) == wire::octets(S1apMessageView::InitialContextSetupResponse(msg@)),
{
    try_encode_initial_context_setup_response(msg).unwrap()
}

fn decode_initial_context_setup_response(entries: &[IeEntry]) -> (r: Result<S1apMessage, ProtoError>)
    ensures
        decoded(r) == wire::initial_context_setup_response_from(ies_of(entries@)),
{
    let mme_ue_s1ap_id: u64 = match int_field(entries, ie::ID_MME_UE_S1AP_ID, ie::MME_UE_S1AP_ID_MAX) {
        Some(v) => v,
        None => return malformed("missing MME-UE-S1AP-ID"),
    };
    let enb_ue_s1ap_id: u64 = match int_field(entries, ie::ID_ENB_UE_S1AP_ID, ie::ENB_UE_S1AP_ID_MAX) {
        Some(v) => v,
        None => return malformed("missing eNB-UE-S1AP-ID"),
    };
    let e_rabs_setup = erabs_setup_field(entries);
    let e_rabs_failed = erab_ids_field(entries);
    Ok(
        S1apMessage::InitialContextSetupResponse(
            InitialContextSetupResponse {
                mme_ue_s1ap_id: mme_ue_s1ap_id as u32,
                enb_ue_s1ap_id: enb_ue_s1ap_id as u32,
                e_rabs_setup,
                e_rabs_failed,
            },
        ),
    )
}

// ── Dispatch ──────────────────────────────────────────────────────────────────

/// Encodes a message. Messages without an encoding here, and those whose
/// fields or lengths do not fit theirs, are refused.
pub fn encode_s1ap_pdu(msg: &S1apMessage) -> (r: Result<Bytes, ProtoError>)
    ensures
        wire::encodable(msg@) ==> r is Ok && octets_of(r->Ok_0) == wire::octets(msg@),
        !wire::supported(msg@) ==> r == wire::malformed::<Bytes>(wire::REASON_UNSUPPORTED_MESSAGE),
        wire::supported(msg@) && !wire::encodable(msg@) ==> r == wire::malformed::<Bytes>(wire::REASON_NOT_ENCODABLE),
{
    let encoded = match msg {
        S1apMessage::InitialUeMessage(m) => try_encode_initial_ue_message(m),
        S1apMessage::UplinkNasTransport(m) => try_encode_uplink_nas_transport(m),
        S1apMessage::DownlinkNasTransport(m) => try_encode_downlink_nas_transport(m),
        S1apMessage::InitialContextSetupRequest(m) => try_encode_initial_context_setup_request(m),
        S1apMessage::InitialContextSetupResponse(m) => try_encode_initial_context_setup_response(m),
        _ => return malformed(wire::REASON_UNSUPPORTED_MESSAGE),
    };
    match encoded {
        Some(b) => Ok(b),
        None => malformed(wire::REASON_NOT_ENCODABLE),
    }
}

/// Decodes a message.
pub fn decode_s1ap_pdu(buf: &[u8]) -> (r: Result<S1apMessage, ProtoError>)
    ensures
        decoded(r) == wire::message(buf@),
{
    let (choice, procedure_code, _criticality, value) = match decode_pdu_wrapper(buf) {
        Some(v) => v,
        None => return malformed("failed to decode PDU wrapper"),
    };
    let mut vr = PerReader::new(value.as_slice());
    let entries = match read_ie_container(&mut vr) {
        Some(v) => v,
        None => return malformed("failed to decode IE container"),
    };
    let entries = entries.as_slice();
    if procedure_code == ie::PROC_INITIAL_UE_MESSAGE {
        decode_initial_ue_message(entries)
    } else if procedure_code == ie::PROC_UPLINK_NAS_TRANSPORT {
        decode_uplink_nas_transport(entries)
    } else if procedure_code == ie::PROC_DOWNLINK_NAS_TRANSPORT {
        decode_downlink_nas_transport(entries)
    } else if procedure_code == ie::PROC_INITIAL_CONTEXT_SETUP && choice == PDU_CHOICE_INITIATING_MESSAGE {
        decode_initial_context_setup_request(entries)
    } else if procedure_code == ie::PROC_INITIAL_CONTEXT_SETUP && choice == PDU_CHOICE_SUCCESSFUL_OUTCOME {
        decode_initial_context_setup_response(entries)
    } else {
        malformed(wire::REASON_UNSUPPORTED_PROCEDURE)
    }
}

} // verus!
