//! Laws of the NAS codec: decoding undoes encoding, and unwrapping undoes
//! wrapping on the side that shares the security context.

use vstd::prelude::*;
use vstd::utf8::{encode_utf8, encode_utf8_decode_utf8, encode_utf8_valid_utf8};

use crate::error::ProtoError;
use crate::nas::codec::{
    attach_accept_from, attach_accept_octets, attach_request_capability, attach_request_octets, auth_request_octets,
    auth_response_octets, bare_octets, detach_request_octets, envelope_parts, envelope_round_trip, nas_pdu,
    sec_mode_cmd_octets, tai_list_value, AcceptFields, NasPduView, IEI_APN, IEI_PDN_ADDR, MT_ATTACH_ACCEPT,
    MT_ATTACH_COMPLETE, MT_ATTACH_REQUEST, MT_DETACH_ACCEPT, MT_SECURITY_MODE_COMPLETE, NAS_PLAIN_HEADER,
    PDN_TYPE_IPV4,
};
use crate::nas::ie::{
    imsi_octets, imsi_of, imsi_round_trip, lv_octets, lv_round_trip, tlv_octets, tlv_round_trip, NasEeaAlgorithm,
    NasEiaAlgorithm,
};
use crate::nas::security::{
    next_count, protection_round_trip, reconstruction_recovers_count, Direction, NasSecurityContextView,
};

verus! {

/// An AttachRequest carries the IMSI, and the three low-order bits of the
/// attach type and of the key set identifier.
pub proof fn attach_request_round_trip(imsi: u64, eps_attach_type: u8, nas_ksi: u8)
    ensures
        nas_pdu(attach_request_octets(imsi, eps_attach_type, nas_ksi)) == Ok::<NasPduView, ProtoError>(
            NasPduView::AttachRequest {
                eps_attach_type: (eps_attach_type % 8) as u8,
                nas_ksi: (nas_ksi % 8) as u8,
                imsi: Some(imsi),
                ue_network_cap: attach_request_capability(),
            },
        ),
{
    reveal(nas_pdu);
    imsi_round_trip(imsi);
    lemma_attach_request_fields(
        (nas_ksi % 8 * 16 + eps_attach_type % 8) as u8,
        imsi_octets(imsi as nat),
        attach_request_capability(),
    );
}

proof fn lemma_attach_request_fields(byte: u8, identity: Seq<u8>, cap: Seq<u8>)
    requires
        identity.len() <= 255,
        cap.len() <= 255,
    ensures
        nas_pdu(seq![NAS_PLAIN_HEADER, MT_ATTACH_REQUEST, byte] + lv_octets(identity) + lv_octets(cap)) == Ok::<
            NasPduView,
            ProtoError,
        >(
            NasPduView::AttachRequest {
                eps_attach_type: (byte % 8) as u8,
                nas_ksi: (byte / 16 % 8) as u8,
                imsi: imsi_of(identity),
                ue_network_cap: cap,
            },
        ),
{
    reveal(nas_pdu);
    let d = seq![NAS_PLAIN_HEADER, MT_ATTACH_REQUEST, byte] + lv_octets(identity) + lv_octets(cap);
    let body = d.subrange(2, d.len() as int);
    assert(body[0] == byte);
    assert(body.subrange(1, body.len() as int) =~= lv_octets(identity) + lv_octets(cap));
    lv_round_trip(identity, lv_octets(cap));
    lv_round_trip(cap, Seq::empty());
    assert(lv_octets(cap) + Seq::<u8>::empty() =~= lv_octets(cap));
}

/// An AuthenticationRequest carries RAND and AUTN.
pub proof fn auth_request_round_trip(nas_ksi: u8, rand: Seq<u8>, autn: Seq<u8>)
    requires
        rand.len() == 16,
        autn.len() == 16,
    ensures
        nas_pdu(auth_request_octets(nas_ksi, rand, autn)) == Ok::<NasPduView, ProtoError>(
            NasPduView::AuthenticationRequest { nas_ksi: (nas_ksi % 8) as u8, rand, autn },
        ),
{
    reveal(nas_pdu);
    let d = auth_request_octets(nas_ksi, rand, autn);
    let body = d.subrange(2, d.len() as int);
    lv_round_trip(rand, lv_octets(autn));
    assert(body.subrange(1, body.len() as int) =~= lv_octets(rand) + lv_octets(autn));
    lv_round_trip(autn, Seq::empty());
    assert(lv_octets(autn) + Seq::<u8>::empty() =~= lv_octets(autn));
}

/// An AuthenticationResponse carries RES.
pub proof fn auth_response_round_trip(res: Seq<u8>)
    requires
        res.len() == 8,
    ensures
        nas_pdu(auth_response_octets(res)) == Ok::<NasPduView, ProtoError>(
            NasPduView::AuthenticationResponse { res },
        ),
{
    reveal(nas_pdu);
    let d = auth_response_octets(res);
    lv_round_trip(res, Seq::empty());
    assert(d.subrange(2, d.len() as int) =~= lv_octets(res) + Seq::<u8>::empty());
}

/// A SecurityModeCommand carries the selected algorithms.
pub proof fn sec_mode_cmd_round_trip(eea: NasEeaAlgorithm, eia: NasEiaAlgorithm, nas_ksi: u8, ue_cap: Seq<u8>)
    requires
        ue_cap.len() <= 255,
    ensures
        nas_pdu(sec_mode_cmd_octets(eea, eia, nas_ksi, ue_cap)) == Ok::<NasPduView, ProtoError>(
            NasPduView::SecurityModeCommand { eea, eia, nas_ksi: (nas_ksi % 8) as u8 },
        ),
{
    reveal(nas_pdu);
    let d = sec_mode_cmd_octets(eea, eia, nas_ksi, ue_cap);
    let body = d.subrange(2, d.len() as int);
    assert(body[0] == d[2] && body[1] == d[3]);
}

/// The messages without IEs decode to themselves.
pub proof fn bare_messages_round_trip()
    ensures
        nas_pdu(bare_octets(MT_SECURITY_MODE_COMPLETE)) == Ok::<NasPduView, ProtoError>(
            NasPduView::SecurityModeComplete,
        ),
        nas_pdu(bare_octets(MT_ATTACH_COMPLETE)) == Ok::<NasPduView, ProtoError>(NasPduView::AttachComplete),
        nas_pdu(bare_octets(MT_DETACH_ACCEPT)) == Ok::<NasPduView, ProtoError>(NasPduView::DetachAccept),
{
    reveal(nas_pdu);
}

/// An AttachAccept carries the IPv4 address and the APN, where they are given.
/// The TAI list is skipped, and no GUTI is written.
pub proof fn attach_accept_round_trip(
    attach_result: u8,
    t3412_value: u8,
    tai_list: Seq<[u8; 5]>,
    ip_address: Option<Seq<u8>>,
    apn: Option<Seq<char>>,
)
    requires
        tai_list_value(tai_list).len() <= 255,
        ip_address is Some ==> ip_address->0.len() == 4,
        apn is Some ==> encode_utf8(apn->0).len() <= 255,
    ensures
        nas_pdu(attach_accept_octets(attach_result, t3412_value, tai_list, ip_address, apn)) == Ok::<
            NasPduView,
            ProtoError,
        >(
            NasPduView::AttachAccept {
                attach_result: (attach_result % 8) as u8,
                t3412_value,
                optional: AcceptFields { guti: None, ip_address, apn },
            },
        ),
{
    let d = attach_accept_octets(attach_result, t3412_value, tai_list, ip_address, apn);
    let fields = accept_ip_octets(ip_address) + accept_apn_octets(apn);
    let list = tai_list_value(tai_list);
    let body = seq![(attach_result % 8) as u8, t3412_value] + lv_octets(list) + fields;
    assert(d =~= seq![NAS_PLAIN_HEADER, MT_ATTACH_ACCEPT] + body);
    lemma_attach_accept_body(body);
    lemma_accept_list((attach_result % 8) as u8, t3412_value, list, fields);
    lemma_accept_fields(ip_address, apn);
}

proof fn lemma_attach_accept_body(body: Seq<u8>)
    ensures
        nas_pdu(seq![NAS_PLAIN_HEADER, MT_ATTACH_ACCEPT] + body) == attach_accept_from(body),
{
    reveal(nas_pdu);
    let d = seq![NAS_PLAIN_HEADER, MT_ATTACH_ACCEPT] + body;
    assert(d.subrange(2, d.len() as int) =~= body);
}

proof fn lemma_accept_list(attach_result: u8, t3412_value: u8, list: Seq<u8>, fields: Seq<u8>)
    requires
        attach_result < 8,
        list.len() <= 255,
    ensures
        attach_accept_from(seq![attach_result, t3412_value] + lv_octets(list) + fields) == Ok::<
            NasPduView,
            ProtoError,
        >(NasPduView::AttachAccept { attach_result, t3412_value, optional: AcceptFields::none().with_all(fields) }),
{
    let body = seq![attach_result, t3412_value] + lv_octets(list) + fields;
    lv_round_trip(list, fields);
    assert(body.subrange(2, body.len() as int) =~= lv_octets(list) + fields);
}

spec fn accept_ip_octets(ip_address: Option<Seq<u8>>) -> Seq<u8> {
    match ip_address {
        Some(ip) => tlv_octets(IEI_PDN_ADDR, seq![PDN_TYPE_IPV4] + ip),
        None => Seq::empty(),
    }
}

spec fn accept_apn_octets(apn: Option<Seq<char>>) -> Seq<u8> {
    match apn {
        Some(text) => tlv_octets(IEI_APN, encode_utf8(text)),
        None => Seq::empty(),
    }
}

proof fn lemma_accept_apn(fields: AcceptFields, apn: Option<Seq<char>>)
    requires
        apn is Some ==> encode_utf8(apn->0).len() <= 255,
        fields.apn is None,
    ensures
        fields.with_all(accept_apn_octets(apn)) == (AcceptFields { apn, ..fields }),
{
    if apn is Some {
        let text = apn->0;
        let after = AcceptFields { apn, ..fields };
        tlv_round_trip(IEI_APN, encode_utf8(text), Seq::empty());
        assert(accept_apn_octets(apn) + Seq::<u8>::empty() =~= accept_apn_octets(apn));
        encode_utf8_valid_utf8(text);
        encode_utf8_decode_utf8(text);
        assert(fields.with(IEI_APN, encode_utf8(text)) == after);
        assert(after.with_all(Seq::empty()) == after);
    }
}

proof fn lemma_accept_fields(ip_address: Option<Seq<u8>>, apn: Option<Seq<char>>)
    requires
        ip_address is Some ==> ip_address->0.len() == 4,
        apn is Some ==> encode_utf8(apn->0).len() <= 255,
    ensures
        AcceptFields::none().with_all(accept_ip_octets(ip_address) + accept_apn_octets(apn)) == (AcceptFields {
            guti: None,
            ip_address,
            apn,
        }),
{
    let rest = accept_apn_octets(apn);
    let with_ip = AcceptFields { ip_address, ..AcceptFields::none() };
    lemma_accept_apn(with_ip, apn);
    if ip_address is Some {
        let addr = seq![PDN_TYPE_IPV4] + ip_address->0;
        tlv_round_trip(IEI_PDN_ADDR, addr, rest);
        assert(addr.subrange(1, 5) =~= ip_address->0);
        assert(AcceptFields::none().with(IEI_PDN_ADDR, addr) == with_ip);
    } else {
        assert(accept_ip_octets(ip_address) + rest =~= rest);
    }
}

/// A DetachRequest carries the type, the switch-off flag and the key set
/// identifier.
pub proof fn detach_request_round_trip(detach_type: u8, switch_off: bool, nas_ksi: u8, guti: Seq<u8>)
    ensures
        nas_pdu(detach_request_octets(detach_type, switch_off, nas_ksi, guti)) == Ok::<NasPduView, ProtoError>(
            NasPduView::DetachRequest {
                detach_type: (detach_type % 8) as u8,
                switch_off,
                nas_ksi: (nas_ksi % 8) as u8,
            },
        ),
{
    reveal(nas_pdu);
    let d = detach_request_octets(detach_type, switch_off, nas_ksi, guti);
    let body = d.subrange(2, d.len() as int);
    assert(body[0] == d[2]);
    lemma_detach_octet((detach_type % 8) as int, switch_off, (nas_ksi % 8) as int);
}

/// The three parts of the octet are told apart.
proof fn lemma_detach_octet(detach_type: int, switch_off: bool, nas_ksi: int)
    requires
        0 <= detach_type < 8,
        0 <= nas_ksi < 8,
    ensures
        ({
            let byte = nas_ksi * 16 + (if switch_off {
                8int
            } else {
                0int
            }) + detach_type;
            &&& 0 <= byte < 128
            &&& byte % 8 == detach_type
            &&& (byte % 16 >= 8) == switch_off
            &&& byte / 16 == nas_ksi
        }),
{
}

/// An envelope is never taken for a plain PDU.
pub proof fn envelope_is_not_plain(d: Seq<u8>)
    requires
        envelope_parts(d) is Some,
    ensures
        nas_pdu(d) is Err,
{
    reveal(nas_pdu);
}

/// What the network wraps, the UE unwraps, when both share keys and
/// algorithms and the UE has missed fewer than 256 downlink messages. The UE
/// then expects the COUNT after the one that was used.
pub proof fn downlink_round_trip(
    network: NasSecurityContextView,
    ue: NasSecurityContextView,
    sht: u8,
    bearer: u8,
    plain: Seq<u8>,
)
    requires
        network.agrees_with(ue),
        ue.dl_count <= network.dl_count < ue.dl_count + 256,
        sht % 16 != 0,
    ensures
        ue.unsealed_downlink(network.sealed_downlink(sht, bearer, plain), bearer) == (
            Some(plain),
            ue.with_dl_count(next_count(network.dl_count)),
        ),
{
    let count = network.dl_count;
    let payload = network.payload(count, bearer, Direction::Downlink, plain);
    let mac_i = network.mac_i(count, bearer, Direction::Downlink, payload);
    envelope_round_trip(sht, mac_i, count, payload);
    reconstruction_recovers_count(ue.dl_count, count);
    protection_round_trip(network, ue, count, bearer, Direction::Downlink, plain);
}

/// What the UE wraps, the network unwraps, under the same conditions.
pub proof fn uplink_round_trip(
    network: NasSecurityContextView,
    ue: NasSecurityContextView,
    sht: u8,
    bearer: u8,
    plain: Seq<u8>,
)
    requires
        network.agrees_with(ue),
        network.ul_count <= ue.ul_count < network.ul_count + 256,
        sht % 16 != 0,
    ensures
        network.unsealed_uplink(ue.sealed_uplink(sht, bearer, plain), bearer) == (
            Some(plain),
            network.with_ul_count(next_count(ue.ul_count)),
        ),
{
    let count = ue.ul_count;
    let payload = ue.payload(count, bearer, Direction::Uplink, plain);
    let mac_i = ue.mac_i(count, bearer, Direction::Uplink, payload);
    envelope_round_trip(sht, mac_i, count, payload);
    reconstruction_recovers_count(network.ul_count, count);
    protection_round_trip(ue, network, count, bearer, Direction::Uplink, plain);
}

/// A refused envelope leaves the context as it was; an accepted one moves the
/// COUNT forward, until it starts over.
pub proof fn count_only_moves_forward(ctx: NasSecurityContextView, d: Seq<u8>, bearer: u8)
    ensures
        ctx.unsealed_uplink(d, bearer).0 is None ==> ctx.unsealed_uplink(d, bearer).1 == ctx,
        ctx.unsealed_downlink(d, bearer).0 is None ==> ctx.unsealed_downlink(d, bearer).1 == ctx,
        ctx.unsealed_uplink(d, bearer).0 is Some && ctx.ul_count < 0xFFFF_FF00 ==> ctx.unsealed_uplink(
            d,
            bearer,
        ).1.ul_count > ctx.ul_count,
        ctx.unsealed_downlink(d, bearer).0 is Some && ctx.dl_count < 0xFFFF_FF00 ==> ctx.unsealed_downlink(
            d,
            bearer,
        ).1.dl_count > ctx.dl_count,
        ctx.agrees_with(ctx.unsealed_uplink(d, bearer).1),
        ctx.agrees_with(ctx.unsealed_downlink(d, bearer).1),
{
}

} // verus!
