//! Laws of the user plane and of what it is keyed by: GTP-U octets, sessions,
//! TEIDs, subscriber keys and sequence numbers.

use vstd::prelude::*;

use crate::amf::state_machine::N3EventView;
use crate::gtp::{datagram_parts, gpdu_octets, header_octets, GtpuHeader, GTP_PORT};
use crate::hss::{
    amf_field, auth_info, hex_key, hex_value, is_hex_key, next_sqn, provisioned, refused_key, sqn_octets, KeyFormatError,
    SubscriberView,
};
use crate::milenage;
use crate::mme::state_machine::UpfEventView;
use crate::octets::{octets_u32, u32_octets};
use crate::sessions::{downlink_packet, echoed, uplink_packet, SessionView, SessionsView};
use crate::teid::TeidView;

verus! {

// ── GTP-U ─────────────────────────────────────────────────────────────────────

/// A user packet travels behind eight octets: 30, FF, its length in two
/// octets, the TEID in four, both most significant first; over UDP port 2152.
pub proof fn gpdu_format(teid: u32, payload: Seq<u8>)
    requires
        payload.len() <= 0xFFFF,
    ensures
        GTP_PORT == 2152,
        gpdu_octets(teid, payload) == seq![
            0x30u8,
            0xFF,
            (payload.len() / 256) as u8,
            (payload.len() % 256) as u8,
            (teid / 0x100_0000) as u8,
            (teid / 0x1_0000 % 256) as u8,
            (teid / 0x100 % 256) as u8,
            (teid % 256) as u8,
        ] + payload,
{
    assert(gpdu_octets(teid, payload) =~= seq![
        0x30u8,
        0xFF,
        (payload.len() / 256) as u8,
        (payload.len() % 256) as u8,
        (teid / 0x100_0000) as u8,
        (teid / 0x1_0000 % 256) as u8,
        (teid / 0x100 % 256) as u8,
        (teid % 256) as u8,
    ] + payload);
}

/// A header of any type has the same form.
pub proof fn gtpu_header_format(h: GtpuHeader)
    ensures
        header_octets(h) == seq![
            0x30u8,
            h.message_type,
            (h.length / 256) as u8,
            (h.length % 256) as u8,
            (h.teid / 0x100_0000) as u8,
            (h.teid / 0x1_0000 % 256) as u8,
            (h.teid / 0x100 % 256) as u8,
            (h.teid % 256) as u8,
        ],
{
    assert(header_octets(h) =~= seq![
        0x30u8,
        h.message_type,
        (h.length / 256) as u8,
        (h.length % 256) as u8,
        (h.teid / 0x100_0000) as u8,
        (h.teid / 0x1_0000 % 256) as u8,
        (h.teid / 0x100 % 256) as u8,
        (h.teid % 256) as u8,
    ]);
}

/// A datagram is read if and only if it has eight octets, starts with 30, and
/// holds as many octets behind them as the third and fourth say. What follows
/// those is not part of the packet.
pub proof fn datagrams_are_read(d: Seq<u8>)
    ensures
        datagram_parts(d) is Some <==> d.len() >= 8 && d[0] == 0x30 && d.len() >= 8 + 256 * d[2] + d[3],
        datagram_parts(d) is Some ==> {
            let (h, payload) = datagram_parts(d)->0;
            &&& h.message_type == d[1]
            &&& h.length == 256 * d[2] + d[3]
            &&& h.teid == d[4] * 0x100_0000 + d[5] * 0x1_0000 + d[6] * 0x100 + d[7]
            &&& payload == d.subrange(8, 8 + 256 * d[2] + d[3])
        },
{
    if d.len() >= 8 {
        let t = d.subrange(4, 8);
        assert(t[0] == d[4] && t[1] == d[5] && t[2] == d[6] && t[3] == d[7]);
    }
}

/// A 32-bit number and its four octets, most significant first, stand for each
/// other.
pub proof fn numbers_are_big_endian(v: u32)
    ensures
        ({
            let s = u32_octets(v);
            &&& s.len() == 4
            &&& v == s[0] * 0x100_0000 + s[1] * 0x1_0000 + s[2] * 0x100 + s[3]
            &&& octets_u32(s) == v
        }),
{
}

// ── Sessions ──────────────────────────────────────────────────────────────────

/// A session that is created is found by its TEID and by its address, as it
/// was created; the others stay. One that is updated has the new TEID and the
/// new address of the radio side, and is otherwise as it was. One that is
/// removed is found no more.
pub proof fn sessions_are_found(
    t: SessionsView,
    ul_teid: u32,
    s: SessionView,
    dl_teid: u32,
    ran_addr: Seq<u8>,
    other: u32,
    other_ip: Seq<u8>,
)
    requires
        s.ue_ip.len() == 4,
        other_ip.len() == 4,
    ensures
        ({
            let n = t.create(ul_teid, s);
            &&& n.sessions.get(ul_teid) == Some(s)
            &&& n.by_address(s.ue_ip) == Some(s)
            &&& other != ul_teid ==> n.sessions.get(other) == t.sessions.get(other)
            &&& other_ip != s.ue_ip ==> n.addresses.get(octets_u32(other_ip)) == t.addresses.get(octets_u32(other_ip))
        }),
        ({
            let n = t.update(ul_teid, dl_teid, ran_addr);
            let was = t.sessions[ul_teid];
            &&& t.sessions.contains_key(ul_teid) ==> n.sessions.get(ul_teid) == Some(
                SessionView {
                    entity_id: was.entity_id,
                    imsi: was.imsi,
                    ue_ip: was.ue_ip,
                    ran_addr,
                    dl_teid,
                    qos: was.qos,
                },
            )
            &&& !t.sessions.contains_key(ul_teid) ==> n == t
            &&& other != ul_teid ==> n.sessions.get(other) == t.sessions.get(other)
            &&& n.addresses == t.addresses
        }),
        ({
            let n = t.remove(ul_teid);
            &&& n.sessions.get(ul_teid) is None
            &&& t.sessions.contains_key(ul_teid) ==> n.by_address(t.sessions[ul_teid].ue_ip) is None
            &&& !t.sessions.contains_key(ul_teid) ==> n == t
            &&& other != ul_teid ==> n.sessions.get(other) == t.sessions.get(other)
            &&& t.sessions.contains_key(ul_teid) && t.sessions[ul_teid].ue_ip.len() == 4 && other_ip
                != t.sessions[ul_teid].ue_ip ==> n.addresses.get(octets_u32(other_ip)) == t.addresses.get(
                octets_u32(other_ip),
            )
        }),
        SessionsView::empty().sessions.dom() == Set::<u32>::empty(),
        SessionsView::empty().addresses.dom() == Set::<u32>::empty(),
{
    lemma_addresses_differ(other_ip, s.ue_ip);
    if t.sessions.contains_key(ul_teid) && t.sessions[ul_teid].ue_ip.len() == 4 {
        lemma_addresses_differ(other_ip, t.sessions[ul_teid].ue_ip);
    }
}

proof fn lemma_addresses_differ(a: Seq<u8>, b: Seq<u8>)
    requires
        a.len() == 4,
        b.len() == 4,
    ensures
        a != b ==> octets_u32(a) != octets_u32(b),
{
    if octets_u32(a) == octets_u32(b) {
        crate::octets::octets_round_trip(a);
        crate::octets::octets_round_trip(b);
    }
}

/// The events of a control plane act on the sessions that they name: a session
/// starts without a TEID for the downlink.
pub proof fn events_act_on_sessions(
    t: SessionsView,
    ul_teid: u32,
    entity_id: u32,
    imsi: u64,
    pdu_session_id: u8,
    class: u8,
    ue_ip: Seq<u8>,
    addr: Seq<u8>,
    dl_teid: u32,
)
    ensures
        ({
            let s = SessionView { entity_id, imsi, ue_ip, ran_addr: addr, dl_teid: 0, qos: class };
            &&& t.apply_n3(
                N3EventView::CreateSession { ul_teid, entity_id, imsi, pdu_session_id, qfi: class, ue_ip, gnb_addr: addr },
            ) == t.create(ul_teid, s)
            &&& t.apply_upf(
                UpfEventView::CreateSession { ul_teid, entity_id, imsi, qci: class, ue_ip, enb_addr: addr },
            ) == t.create(ul_teid, s)
        }),
        t.apply_n3(N3EventView::UpdateBearer { ul_teid, dl_teid, gnb_addr: addr }) == t.update(ul_teid, dl_teid, addr),
        t.apply_upf(UpfEventView::UpdateBearer { ul_teid, dl_teid, enb_addr: addr }) == t.update(
            ul_teid,
            dl_teid,
            addr,
        ),
        t.apply_n3(N3EventView::RemoveSession { ul_teid }) == t.remove(ul_teid),
        t.apply_upf(UpfEventView::RemoveSession { ul_teid }) == t.remove(ul_teid),
{
}

/// Events take effect one after the other, in order, all of them.
pub proof fn events_take_effect_in_order(
    t: SessionsView,
    n3: Seq<N3EventView>,
    more_n3: Seq<N3EventView>,
    upf: Seq<UpfEventView>,
    more_upf: Seq<UpfEventView>,
)
    ensures
        t.apply_all_n3(n3 + more_n3) == t.apply_all_n3(n3).apply_all_n3(more_n3),
        t.apply_all_upf(upf + more_upf) == t.apply_all_upf(upf).apply_all_upf(more_upf),
        n3.len() == 1 ==> t.apply_all_n3(n3) == t.apply_n3(n3[0]),
        upf.len() == 1 ==> t.apply_all_upf(upf) == t.apply_upf(upf[0]),
        n3.len() == 0 ==> t.apply_all_n3(n3) == t,
        upf.len() == 0 ==> t.apply_all_upf(upf) == t,
    decreases more_n3.len() + more_upf.len(),
{
    if n3.len() == 1 {
        assert(t.apply_all_n3(n3.drop_last()) == t);
    }
    if upf.len() == 1 {
        assert(t.apply_all_upf(upf.drop_last()) == t);
    }
    if more_n3.len() > 0 {
        assert((n3 + more_n3).drop_last() =~= n3 + more_n3.drop_last());
        events_take_effect_in_order(t, n3, more_n3.drop_last(), upf, more_upf);
    } else {
        assert(n3 + more_n3 =~= n3);
    }
    if more_upf.len() > 0 {
        assert((upf + more_upf).drop_last() =~= upf + more_upf.drop_last());
        events_take_effect_in_order(t, n3, more_n3, upf, more_upf.drop_last());
    } else {
        assert(upf + more_upf =~= upf);
    }
}

/// A user packet is taken out of a datagram of type FF for the TEID of a
/// session, with the address of its UE, and of no other; it is put into one
/// for the session of an address once the radio side of that is known.
pub proof fn packets_are_forwarded(t: SessionsView, d: Seq<u8>, ue_ip: Seq<u8>, payload: Seq<u8>)
    requires
        payload.len() <= 0xFFFF,
    ensures
        ({
            let r = uplink_packet(t, d);
            let parts = datagram_parts(d);
            &&& r is Some <==> parts is Some && (parts->0).0.message_type == 0xFF && t.sessions.contains_key(
                (parts->0).0.teid,
            )
            &&& r is Some ==> (r->0).0 == t.sessions[(parts->0).0.teid].ue_ip && (r->0).1 == (parts->0).1
        }),
        ({
            let r = downlink_packet(t, ue_ip, payload);
            let s = t.by_address(ue_ip);
            &&& r is Some <==> s is Some && s->0.dl_teid != 0
            &&& r is Some ==> (r->0).0 == s->0.ran_addr && (r->0).1 == gpdu_octets(s->0.dl_teid, payload)
        }),
        echoed(t, d) is Some <==> uplink_packet(t, d) is Some && downlink_packet(
            t,
            (uplink_packet(t, d)->0).0,
            (uplink_packet(t, d)->0).1,
        ) is Some,
{
}

// ── TEIDs ─────────────────────────────────────────────────────────────────────

/// TEIDs count up from the base; those that were given back are given out
/// again first, the last of them first; the last number of all is never given
/// out.
pub proof fn teids_count_up(t: TeidView, base: u32, teid: u32)
    ensures
        TeidView::fresh(base).first() == base,
        TeidView::fresh(base).available() <==> base < 0xFFFF_FFFF,
        t.free.len() == 0 && t.available() ==> t.taken().first() == t.first() + 1,
        t.release(teid).available() && t.release(teid).first() == teid && t.release(teid).taken() == t,
        t.available() <==> t.free.len() > 0 || t.next < 0xFFFF_FFFF,
{
    assert(t.free.push(teid).drop_last() =~= t.free);
}

// ── Subscribers ───────────────────────────────────────────────────────────────

/// The sixteen hexadecimal digits.
pub open spec fn hex_digits() -> Seq<u8> {
    crate::kdf::ascii("0123456789abcdef"@)
}

/// The text of a key: two lower-case hexadecimal digits to an octet.
pub open spec fn key_text(key: Seq<u8>) -> Seq<u8> {
    Seq::new(
        2 * key.len(),
        |i: int|
            if i % 2 == 0 {
                hex_digits()[(key[i / 2] / 16) as int]
            } else {
                hex_digits()[(key[i / 2] % 16) as int]
            },
    )
}

/// A hexadecimal digit has its place among them for value, upper case or lower
/// case; nothing else is one.
pub proof fn hex_digits_have_values(c: u8, v: u8)
    ensures
        hex_value(c) == Some(v) <==> v < 16 && (hex_digits()[v as int] == c || (v >= 10 && hex_digits()[v as int] == c
            + 32)),
{
    reveal_strlit("0123456789abcdef");
}

/// A key is read from its text.
pub proof fn keys_are_read(key: Seq<u8>)
    requires
        key.len() == 16,
    ensures
        is_hex_key(key_text(key)),
        hex_key(key_text(key)) == key,
{
    let s = key_text(key);
    reveal_strlit("0123456789abcdef");
    assert forall|j: int| 0 <= j < 32 implies hex_value(#[trigger] s[j]) == Some(
        if j % 2 == 0 {
            (key[j / 2] / 16) as u8
        } else {
            (key[j / 2] % 16) as u8
        },
    ) by {
        let v = if j % 2 == 0 {
            (key[j / 2] / 16) as u8
        } else {
            (key[j / 2] % 16) as u8
        };
        hex_digits_have_values(s[j], v);
    }
    assert forall|i: int| 0 <= i < 16 implies #[trigger] hex_key(s)[i] == key[i] by {
        assert(hex_value(s[2 * i]) is Some && hex_value(s[2 * i + 1]) is Some);
    }
    assert(hex_key(s) =~= key);
}

/// What is wrong with a text that is no key: its length, which is reported,
/// or else the first character that is no hexadecimal digit, whose position is.
pub proof fn refusals_name_the_fault(s: Seq<u8>, n: usize)
    ensures
        is_hex_key(s) ==> !refused_key(s, KeyFormatError::WrongLength { got: n }) && !refused_key(
            s,
            KeyFormatError::NotHexadecimal { position: n },
        ),
        refused_key(s, KeyFormatError::WrongLength { got: n }) <==> s.len() == n && n != 32,
        refused_key(s, KeyFormatError::NotHexadecimal { position: n }) <==> s.len() == 32 && n < 32 && hex_value(
            s[n as int],
        ) is None && forall|j: int| 0 <= j < n ==> hex_value(#[trigger] s[j]) is Some,
        is_hex_key(s) <==> s.len() == 32 && forall|j: int| 0 <= j < 32 ==> hex_value(#[trigger] s[j]) is Some,
{
}

/// A sequence number is its six octets, most significant first; it counts
/// modulo 2^48 from 0.
pub proof fn sequence_numbers(sqn: u64)
    requires
        sqn < 0x1_0000_0000_0000,
    ensures
        ({
            let o = sqn_octets(sqn);
            &&& o.len() == 6
            &&& sqn == o[0] * 0x100_0000_0000 + o[1] * 0x1_0000_0000 + o[2] * 0x100_0000 + o[3] * 0x1_0000 + o[4]
                * 0x100 + o[5]
        }),
        next_sqn(sqn) == if sqn == 0xFFFF_FFFF_FFFF {
            0
        } else {
            sqn + 1
        },
{
    assert(sqn / 0x100_0000_0000 % 256 * 0x100_0000_0000 + sqn / 0x1_0000_0000 % 256 * 0x1_0000_0000 + sqn / 0x100_0000
        % 256 * 0x100_0000 + sqn / 0x1_0000 % 256 * 0x1_0000 + sqn / 0x100 % 256 * 0x100 + sqn % 256 == sqn)
        by (bit_vector)
        requires
            sqn < 0x1_0000_0000_0000,
    ;
}

/// A new subscriber has the keys it was provisioned with and has used no SQN.
/// A vector is made of the keys, the challenge, the SQN and the field 8000.
pub proof fn vectors_are_made_of_the_keys(k: Seq<u8>, opc: Seq<u8>, s: SubscriberView, rand: Seq<u8>)
    ensures
        provisioned(k, opc).k == k,
        provisioned(k, opc).opc == opc,
        provisioned(k, opc).sqn == 0,
        amf_field() == seq![0x80u8, 0x00],
        ({
            let info = auth_info(s, rand);
            &&& info.rand == rand
            &&& info.sqn_used == sqn_octets(s.sqn)
            &&& info.vector.res == milenage::res(s.k, s.opc, rand)
            &&& info.vector.ck == milenage::ck(s.k, s.opc, rand)
            &&& info.vector.ik == milenage::ik(s.k, s.opc, rand)
            &&& info.vector.ak == milenage::ak(s.k, s.opc, rand)
            &&& info.vector.mac_a == milenage::mac_a(s.k, s.opc, rand, sqn_octets(s.sqn), seq![0x80u8, 0x00])
        }),
{
}

} // verus!
