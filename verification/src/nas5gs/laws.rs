//! Laws of the 5G NAS codec: decoding undoes encoding, and unwrapping undoes
//! wrapping on the side that shares the security context.

use vstd::prelude::*;

use crate::error::ProtoError;
use crate::nas::ie::{lv_octets, lv_round_trip};
use crate::nas::security::{
    next_count, protection_round_trip, reconstruction_recovers_count, Direction, NasSecurityContextView,
};
use crate::nas5gs::codec::{
    auth_request_octets, auth_response_octets, deregistration_request_octets, envelope_parts, envelope_round_trip,
    header, identity_request_octets, identity_response_octets, nas5gs_pdu, registration_accept_octets,
    registration_request_octets, sealed_downlink, sealed_uplink, sec_mode_cmd_octets, suci_octets, suci_of,
    tai_list_octets, u16_octets, unsealed_downlink, unsealed_uplink, Nas5gsPduView, SuciView,
    MT5G_DEREGISTRATION_ACCEPT, MT5G_REGISTRATION_COMPLETE, MT5G_SECURITY_MODE_COMPLETE,
};
use crate::nas5gs::security::NAS5GS_BEARER;

verus! {

/// A RegistrationRequest carries the GUTI, where there is one, and the UE
/// security capability.
pub proof fn registration_request_round_trip(
    registration_type: u8,
    ng_ksi: u8,
    guti: Option<Seq<u8>>,
    ue_security_cap: u16,
)
    requires
        guti is Some ==> guti->0.len() == 11,
    ensures
        nas5gs_pdu(registration_request_octets(registration_type, ng_ksi, guti, ue_security_cap)) == Ok::<
            Nas5gsPduView,
            ProtoError,
        >(
            Nas5gsPduView::RegistrationRequest {
                registration_type: (registration_type % 8) as u8,
                ng_ksi: (ng_ksi % 8) as u8,
                guti,
                ue_security_cap,
            },
        ),
{
    reveal(nas5gs_pdu);
    let d = registration_request_octets(registration_type, ng_ksi, guti, ue_security_cap);
    let body = d.subrange(3, d.len() as int);
    let identity = match guti {
        Some(g) => g,
        None => Seq::empty(),
    };
    lv_round_trip(identity, u16_octets(ue_security_cap));
    assert(body[0] == d[3]);
    assert(body.subrange(1, body.len() as int) =~= lv_octets(identity) + u16_octets(ue_security_cap));
}

/// An IdentityRequest carries the type of identity.
pub proof fn identity_request_round_trip(identity_type: u8)
    ensures
        nas5gs_pdu(identity_request_octets(identity_type)) == Ok::<Nas5gsPduView, ProtoError>(
            Nas5gsPduView::IdentityRequest { identity_type: (identity_type % 8) as u8 },
        ),
{
    reveal(nas5gs_pdu);
    let d = identity_request_octets(identity_type);
    assert(d.subrange(3, d.len() as int)[0] == d[3]);
}

/// An IdentityResponse carries the SUCI.
pub proof fn identity_response_round_trip(s: SuciView)
    requires
        s.mcc.len() == 3,
        s.mnc.len() == 3,
        s.msin.len() == 5,
    ensures
        nas5gs_pdu(identity_response_octets(s)) == Ok::<Nas5gsPduView, ProtoError>(
            Nas5gsPduView::IdentityResponse { suci: Some(s) },
        ),
{
    reveal(nas5gs_pdu);
    let id = suci_octets(s);
    assert(id.subrange(1, 4) =~= s.mcc);
    assert(id.subrange(4, 7) =~= s.mnc);
    assert(id.subrange(7, 9) =~= u16_octets(s.routing_indicator));
    assert(id.subrange(11, 16) =~= s.msin);
    assert(suci_of(id) == Some(s));
    let d = identity_response_octets(s);
    lv_round_trip(id, Seq::empty());
    assert(d.subrange(3, d.len() as int) =~= lv_octets(id) + Seq::<u8>::empty());
}

/// An AuthenticationRequest carries RAND and AUTN.
pub proof fn auth_request_round_trip(ng_ksi: u8, rand: Seq<u8>, autn: Seq<u8>)
    requires
        rand.len() == 16,
        autn.len() == 16,
    ensures
        nas5gs_pdu(auth_request_octets(ng_ksi, rand, autn)) == Ok::<Nas5gsPduView, ProtoError>(
            Nas5gsPduView::AuthenticationRequest { ng_ksi: (ng_ksi % 8) as u8, rand, autn },
        ),
{
    reveal(nas5gs_pdu);
    let d = auth_request_octets(ng_ksi, rand, autn);
    let body = d.subrange(3, d.len() as int);
    lv_round_trip(rand, lv_octets(autn));
    assert(body[0] == d[3]);
    assert(body.subrange(1, body.len() as int) =~= lv_octets(rand) + lv_octets(autn));
    lv_round_trip(autn, Seq::empty());
    assert(lv_octets(autn) + Seq::<u8>::empty() =~= lv_octets(autn));
}

/// An AuthenticationResponse carries RES*.
pub proof fn auth_response_round_trip(res_star: Seq<u8>)
    requires
        res_star.len() == 16,
    ensures
        nas5gs_pdu(auth_response_octets(res_star)) == Ok::<Nas5gsPduView, ProtoError>(
            Nas5gsPduView::AuthenticationResponse { res_star },
        ),
{
    reveal(nas5gs_pdu);
    let d = auth_response_octets(res_star);
    lv_round_trip(res_star, Seq::empty());
    assert(d.subrange(3, d.len() as int) =~= lv_octets(res_star) + Seq::<u8>::empty());
}

/// A SecurityModeCommand carries the selected algorithms.
pub proof fn sec_mode_cmd_round_trip(cipher: u8, integrity: u8, ue_security_cap: u16)
    ensures
        nas5gs_pdu(sec_mode_cmd_octets(cipher, integrity, ue_security_cap)) == Ok::<Nas5gsPduView, ProtoError>(
            Nas5gsPduView::SecurityModeCommand {
                cipher: (cipher % 16) as u8,
                integrity: (integrity % 16) as u8,
                ue_security_cap,
            },
        ),
{
    reveal(nas5gs_pdu);
    let d = sec_mode_cmd_octets(cipher, integrity, ue_security_cap);
    let body = d.subrange(3, d.len() as int);
    assert(body[0] == d[3]);
    assert(body.subrange(1, 3) =~= u16_octets(ue_security_cap));
}

/// A RegistrationAccept carries the result and the GUTI.
pub proof fn registration_accept_round_trip(registration_result: u8, guti: Seq<u8>, tai_list: Seq<[u8; 6]>)
    requires
        guti.len() == 11,
    ensures
        nas5gs_pdu(registration_accept_octets(registration_result, guti, tai_list)) == Ok::<Nas5gsPduView, ProtoError>(
            Nas5gsPduView::RegistrationAccept { registration_result: (registration_result % 8) as u8, guti },
        ),
{
    reveal(nas5gs_pdu);
    let d = registration_accept_octets(registration_result, guti, tai_list);
    let body = d.subrange(3, d.len() as int);
    let rest = lv_octets(tai_list_octets(tai_list));
    lv_round_trip(guti, rest);
    assert(body[0] == d[3]);
    assert(body.subrange(1, body.len() as int) =~= lv_octets(guti) + rest);
}

/// A DeregistrationRequest carries the switch-off flag.
pub proof fn deregistration_request_round_trip(switch_off: bool)
    ensures
        nas5gs_pdu(deregistration_request_octets(switch_off)) == Ok::<Nas5gsPduView, ProtoError>(
            Nas5gsPduView::DeregistrationRequest { switch_off },
        ),
{
    reveal(nas5gs_pdu);
    let d = deregistration_request_octets(switch_off);
    assert(d.subrange(3, d.len() as int)[0] == d[3]);
}

/// The messages without IEs decode to themselves.
pub proof fn bare_messages_round_trip()
    ensures
        nas5gs_pdu(header(MT5G_SECURITY_MODE_COMPLETE)) == Ok::<Nas5gsPduView, ProtoError>(
            Nas5gsPduView::SecurityModeComplete,
        ),
        nas5gs_pdu(header(MT5G_REGISTRATION_COMPLETE)) == Ok::<Nas5gsPduView, ProtoError>(
            Nas5gsPduView::RegistrationComplete,
        ),
        nas5gs_pdu(header(MT5G_DEREGISTRATION_ACCEPT)) == Ok::<Nas5gsPduView, ProtoError>(
            Nas5gsPduView::DeregistrationAccept,
        ),
{
    reveal(nas5gs_pdu);
}

/// An envelope is never taken for a plain PDU.
pub proof fn envelope_is_not_plain(d: Seq<u8>)
    requires
        envelope_parts(d) is Some,
    ensures
        nas5gs_pdu(d) is Err,
{
    reveal(nas5gs_pdu);
}

/// What the network wraps, the UE unwraps, when both share keys and
/// algorithms and the UE has missed fewer than 256 downlink messages.
pub proof fn downlink_round_trip(network: NasSecurityContextView, ue: NasSecurityContextView, sht: u8, plain: Seq<u8>)
    requires
        network.agrees_with(ue),
        ue.dl_count <= network.dl_count < ue.dl_count + 256,
        sht % 16 != 0,
    ensures
        unsealed_downlink(ue, sealed_downlink(network, sht, plain)) == (
            Some(plain),
            ue.with_dl_count(next_count(network.dl_count)),
        ),
{
    let count = network.dl_count;
    let payload = network.payload(count, NAS5GS_BEARER, Direction::Downlink, plain);
    let mac_i = network.mac_i(count, NAS5GS_BEARER, Direction::Downlink, payload);
    envelope_round_trip(sht, mac_i, count, payload);
    reconstruction_recovers_count(ue.dl_count, count);
    protection_round_trip(network, ue, count, NAS5GS_BEARER, Direction::Downlink, plain);
}

/// What the UE wraps, the network unwraps, under the same conditions.
pub proof fn uplink_round_trip(network: NasSecurityContextView, ue: NasSecurityContextView, sht: u8, plain: Seq<u8>)
    requires
        network.agrees_with(ue),
        network.ul_count <= ue.ul_count < network.ul_count + 256,
        sht % 16 != 0,
    ensures
        unsealed_uplink(network, sealed_uplink(ue, sht, plain)) == (
            Some(plain),
            network.with_ul_count(next_count(ue.ul_count)),
        ),
{
    let count = ue.ul_count;
    let payload = ue.payload(count, NAS5GS_BEARER, Direction::Uplink, plain);
    let mac_i = ue.mac_i(count, NAS5GS_BEARER, Direction::Uplink, payload);
    envelope_round_trip(sht, mac_i, count, payload);
    reconstruction_recovers_count(network.ul_count, count);
    protection_round_trip(ue, network, count, NAS5GS_BEARER, Direction::Uplink, plain);
}

} // verus!
