//! Laws of the 5GS NAS formats: where each field stands in a PDU, and which
//! octets it is made of.

use vstd::prelude::*;

use crate::error::ProtoError;
use crate::nas5gs::codec::{
    auth_request_octets, auth_response_octets, deregistration_request_octets, header, identity_request_octets,
    identity_response_octets, nas5gs_pdu, registration_accept_octets, registration_request_octets,
    sec_mode_cmd_octets, tai_list_octets, Nas5gsPduView, SuciView, MT5G_DEREGISTRATION_ACCEPT,
    MT5G_REGISTRATION_COMPLETE, MT5G_SECURITY_MODE_COMPLETE, NAS5GS_SHT_INTEGRITY, NAS5GS_SHT_INTEGRITY_CIPHERED,
    NAS5GS_SHT_PLAIN,
};

verus! {

// ── PDUs as they are written ──────────────────────────────────────────────────

/// RegistrationRequest: `7E 00 41`, key set identifier and registration type,
/// the GUTI with its length (0 without one), the capabilities in two octets.
pub proof fn registration_request_format(
    registration_type: u8,
    ng_ksi: u8,
    guti: Option<Seq<u8>>,
    ue_security_cap: u16,
)
    requires
        guti is Some ==> guti->0.len() == 11,
    ensures
        registration_request_octets(registration_type, ng_ksi, guti, ue_security_cap) == seq![
            0x7Eu8,
            0x00,
            0x41,
            (ng_ksi % 8 * 16 + registration_type % 8) as u8,
        ] + (match guti {
            Some(g) => seq![0x0Bu8] + g,
            None => seq![0x00u8],
        }) + seq![(ue_security_cap / 256) as u8, (ue_security_cap % 256) as u8],
{
    let d = registration_request_octets(registration_type, ng_ksi, guti, ue_security_cap);
    assert(d =~= seq![0x7Eu8, 0x00, 0x41, (ng_ksi % 8 * 16 + registration_type % 8) as u8] + (match guti {
        Some(g) => seq![0x0Bu8] + g,
        None => seq![0x00u8],
    }) + seq![(ue_security_cap / 256) as u8, (ue_security_cap % 256) as u8]);
}

/// IdentityRequest: `7E 00 5B` and the type asked for.
pub proof fn identity_request_format(identity_type: u8)
    ensures
        identity_request_octets(identity_type) == seq![0x7Eu8, 0x00, 0x5B, (identity_type % 8) as u8],
{
    assert(identity_request_octets(identity_type) =~= seq![0x7Eu8, 0x00, 0x5B, (identity_type % 8) as u8]);
}

/// IdentityResponse: `7E 00 5C`, the length 16, then the SUCI: type 1, MCC,
/// MNC, routing indicator in two octets, scheme, key identifier, MSIN.
pub proof fn identity_response_format(s: SuciView)
    requires
        s.mcc.len() == 3,
        s.mnc.len() == 3,
        s.msin.len() == 5,
    ensures
        identity_response_octets(s) == seq![0x7Eu8, 0x00, 0x5C, 0x10, 0x01] + s.mcc + s.mnc + seq![
            (s.routing_indicator / 256) as u8,
            (s.routing_indicator % 256) as u8,
            s.protection_scheme,
            s.home_network_pki,
        ] + s.msin,
{
    assert(identity_response_octets(s) =~= seq![0x7Eu8, 0x00, 0x5C, 0x10, 0x01] + s.mcc + s.mnc + seq![
        (s.routing_indicator / 256) as u8,
        (s.routing_indicator % 256) as u8,
        s.protection_scheme,
        s.home_network_pki,
    ] + s.msin);
}

/// AuthenticationRequest: `7E 00 56`, the key set identifier, RAND and AUTN
/// with their lengths. AuthenticationResponse: `7E 00 57`, RES* with its length.
pub proof fn authentication_formats(ng_ksi: u8, rand: Seq<u8>, autn: Seq<u8>, res_star: Seq<u8>)
    requires
        rand.len() == 16,
        autn.len() == 16,
        res_star.len() == 16,
    ensures
        auth_request_octets(ng_ksi, rand, autn) == seq![0x7Eu8, 0x00, 0x56, (ng_ksi % 8) as u8, 0x10] + rand + seq![
            0x10u8,
        ] + autn,
        auth_response_octets(res_star) == seq![0x7Eu8, 0x00, 0x57, 0x10] + res_star,
{
    assert(auth_request_octets(ng_ksi, rand, autn) =~= seq![0x7Eu8, 0x00, 0x56, (ng_ksi % 8) as u8, 0x10] + rand
        + seq![0x10u8] + autn);
    assert(auth_response_octets(res_star) =~= seq![0x7Eu8, 0x00, 0x57, 0x10] + res_star);
}

/// SecurityModeCommand: `7E 00 5D`, the algorithms, the replayed capabilities
/// in two octets.
pub proof fn sec_mode_cmd_format(cipher: u8, integrity: u8, ue_security_cap: u16)
    ensures
        sec_mode_cmd_octets(cipher, integrity, ue_security_cap) == seq![
            0x7Eu8,
            0x00,
            0x5D,
            (cipher % 16 * 16 + integrity % 16) as u8,
            (ue_security_cap / 256) as u8,
            (ue_security_cap % 256) as u8,
        ],
{
    assert(sec_mode_cmd_octets(cipher, integrity, ue_security_cap) =~= seq![
        0x7Eu8,
        0x00,
        0x5D,
        (cipher % 16 * 16 + integrity % 16) as u8,
        (ue_security_cap / 256) as u8,
        (ue_security_cap % 256) as u8,
    ]);
}

/// SecurityModeComplete is `7E 00 5E`, RegistrationComplete `7E 00 43`,
/// DeregistrationAccept `7E 00 46`. Security header types count up from 0, the
/// plain one.
pub proof fn bare_formats()
    ensures
        NAS5GS_SHT_PLAIN == 0 && NAS5GS_SHT_INTEGRITY == 1 && NAS5GS_SHT_INTEGRITY_CIPHERED == 2,
        header(MT5G_SECURITY_MODE_COMPLETE) == seq![0x7Eu8, 0x00, 0x5E],
        header(MT5G_REGISTRATION_COMPLETE) == seq![0x7Eu8, 0x00, 0x43],
        header(MT5G_DEREGISTRATION_ACCEPT) == seq![0x7Eu8, 0x00, 0x46],
{
}

/// A TAI list holds each identity in its place, six octets to one.
pub proof fn tai_list_holds_each(tai_list: Seq<[u8; 6]>, i: int, j: int)
    requires
        0 <= i < tai_list.len(),
        0 <= j < 6,
    ensures
        tai_list_octets(tai_list).len() == 6 * tai_list.len(),
        tai_list_octets(tai_list)[6 * i + j] == tai_list[i]@[j],
    decreases tai_list.len(),
{
    let head = tai_list.drop_last();
    if head.len() > 0 {
        tai_list_holds_each(
            head,
            if i < head.len() {
                i
            } else {
                0
            },
            j,
        );
    } else {
        assert(tai_list_octets(head) =~= Seq::empty());
    }
    assert(tai_list_octets(tai_list) == tai_list_octets(head) + tai_list.last()@);
}

/// RegistrationAccept: `7E 00 42`, the result, the GUTI with its length, the
/// TAI list with its length.
pub proof fn registration_accept_format(registration_result: u8, guti: Seq<u8>, tai_list: Seq<[u8; 6]>)
    requires
        guti.len() == 11,
        6 * tai_list.len() <= 255,
    ensures
        registration_accept_octets(registration_result, guti, tai_list) == seq![
            0x7Eu8,
            0x00,
            0x42,
            (registration_result % 8) as u8,
            0x0B,
        ] + guti + seq![(6 * tai_list.len()) as u8] + tai_list_octets(tai_list),
        tai_list.len() == 0 ==> tai_list_octets(tai_list).len() == 0,
{
    if tai_list.len() > 0 {
        tai_list_holds_each(tai_list, 0, 0);
    }
    assert(registration_accept_octets(registration_result, guti, tai_list) =~= seq![
        0x7Eu8,
        0x00,
        0x42,
        (registration_result % 8) as u8,
        0x0B,
    ] + guti + seq![(6 * tai_list.len()) as u8] + tai_list_octets(tai_list));
}

/// DeregistrationRequest: `7E 00 45` and the 3GPP access type 1, with 8 added
/// when the UE switches off.
pub proof fn deregistration_request_format(switch_off: bool)
    ensures
        deregistration_request_octets(switch_off) == seq![
            0x7Eu8,
            0x00,
            0x45,
            if switch_off {
                0x09
            } else {
                0x01
            },
        ],
{
    assert(deregistration_request_octets(switch_off) =~= seq![
        0x7Eu8,
        0x00,
        0x45,
        if switch_off {
            0x09
        } else {
            0x01
        },
    ]);
}

// ── PDUs as they are read ─────────────────────────────────────────────────────

/// The outcome for a PDU that is not what it should be.
pub open spec fn refused(reason: &'static str) -> Result<Nas5gsPduView, ProtoError> {
    Err(ProtoError::MalformedNas { reason })
}

/// What no PDU is: fewer than three octets, another protocol, a protected PDU,
/// an unknown type.
pub proof fn headers_are_checked(d: Seq<u8>)
    ensures
        d.len() < 3 ==> nas5gs_pdu(d) == Err::<Nas5gsPduView, ProtoError>(
            ProtoError::TooShort { expected: 3, got: d.len() as usize },
        ),
        d.len() >= 3 && d[0] != 0x7E ==> nas5gs_pdu(d) == refused("expected 5GS-MM extended protocol discriminator 0x7E"),
        d.len() >= 3 && d[0] == 0x7E && d[1] % 16 != 0 ==> nas5gs_pdu(d) == refused(
            "protected NAS must be unwrapped first",
        ),
        d.len() >= 3 && d[0] == 0x7E && d[1] % 16 == 0 && !(seq![
            0x41u8,
            0x42,
            0x43,
            0x45,
            0x46,
            0x56,
            0x57,
            0x5B,
            0x5C,
            0x5D,
            0x5E,
        ].contains(d[2])) ==> nas5gs_pdu(d) == Err::<Nas5gsPduView, ProtoError>(ProtoError::UnknownGtpMsgType(d[2])),
{
    reveal(nas5gs_pdu);
    let known = seq![0x41u8, 0x42, 0x43, 0x45, 0x46, 0x56, 0x57, 0x5B, 0x5C, 0x5D, 0x5E];
    assert(known[0] == 0x41 && known[1] == 0x42 && known[2] == 0x43 && known[3] == 0x45 && known[4] == 0x46
        && known[5] == 0x56 && known[6] == 0x57 && known[7] == 0x5B && known[8] == 0x5C && known[9] == 0x5D
        && known[10] == 0x5E);
}

/// A RegistrationRequest is read if and only if its identity is complete, is
/// empty or has 11 octets, and two octets of capabilities follow.
pub proof fn registration_request_is_read(d: Seq<u8>)
    requires
        d.len() >= 3,
        d[0] == 0x7E,
        d[1] % 16 == 0,
        d[2] == 0x41,
    ensures
        ({
            let end = 5 + d[4];
            &&& d.len() == 3 ==> nas5gs_pdu(d) == Err::<Nas5gsPduView, ProtoError>(
                ProtoError::TooShort { expected: 1, got: 0 },
            )
            &&& d.len() == 4 || (d.len() > 4 && d.len() < end) ==> nas5gs_pdu(d) == refused("missing mobile identity")
            &&& d.len() > 4 && d.len() >= end && d[4] != 0 && d[4] != 11 ==> nas5gs_pdu(d) == refused(
                "5G-GUTI must be exactly 11 bytes",
            )
            &&& d.len() > 4 && d.len() >= end && (d[4] == 0 || d[4] == 11) && d.len() < end + 2 ==> nas5gs_pdu(d)
                == refused("missing UE security capability")
            &&& d.len() > 4 && (d[4] == 0 || d[4] == 11) && d.len() >= end + 2 ==> nas5gs_pdu(d) == Ok::<
                Nas5gsPduView,
                ProtoError,
            >(
                Nas5gsPduView::RegistrationRequest {
                    registration_type: (d[3] % 8) as u8,
                    ng_ksi: (d[3] / 16 % 8) as u8,
                    guti: if d[4] == 0 {
                        None
                    } else {
                        Some(d.subrange(5, 16))
                    },
                    ue_security_cap: (256 * d[end] + d[end + 1]) as u16,
                },
            )
        }),
{
    reveal(nas5gs_pdu);
    let body = d.subrange(3, d.len() as int);
    let from = body.subrange(1, body.len() as int);
    if d.len() > 4 && d.len() >= 5 + d[4] {
        assert(from.subrange(1, 1 + from[0]) =~= d.subrange(5, 5 + d[4]));
        assert(from.subrange(1 + from[0], from.len() as int) =~= d.subrange(5 + d[4], d.len() as int));
    }
}

/// An AuthenticationRequest is read if and only if it holds 16 octets of RAND
/// and 16 of AUTN, each with its length; an AuthenticationResponse if and only
/// if it holds 16 octets of RES* with their length.
pub proof fn authentication_is_read(d: Seq<u8>)
    requires
        d.len() >= 3,
        d[0] == 0x7E,
        d[1] % 16 == 0,
    ensures
        d[2] == 0x56 ==> (nas5gs_pdu(d) is Ok <==> d.len() >= 38 && d[4] == 16 && d[21] == 16),
        d[2] == 0x56 && nas5gs_pdu(d) is Ok ==> nas5gs_pdu(d) == Ok::<Nas5gsPduView, ProtoError>(
            Nas5gsPduView::AuthenticationRequest {
                ng_ksi: (d[3] % 8) as u8,
                rand: d.subrange(5, 21),
                autn: d.subrange(22, 38),
            },
        ),
        d[2] == 0x57 ==> (nas5gs_pdu(d) is Ok <==> d.len() >= 20 && d[3] == 16),
        d[2] == 0x57 && d.len() >= 4 && d.len() >= 4 + d[3] && d[3] != 16 ==> nas5gs_pdu(d) == refused(
            "RES* must be exactly 16 bytes",
        ),
        d[2] == 0x57 && (d.len() < 4 || d.len() < 4 + d[3]) ==> nas5gs_pdu(d) == refused("missing RES*"),
        d[2] == 0x57 && nas5gs_pdu(d) is Ok ==> nas5gs_pdu(d) == Ok::<Nas5gsPduView, ProtoError>(
            Nas5gsPduView::AuthenticationResponse { res_star: d.subrange(4, 20) },
        ),
{
    reveal(nas5gs_pdu);
    let body = d.subrange(3, d.len() as int);
    if d.len() >= 21 && d[4] == 16 {
        let from = body.subrange(1, body.len() as int);
        assert(from.subrange(1, 17) =~= d.subrange(5, 21));
        let rest = from.subrange(17, from.len() as int);
        assert(rest =~= d.subrange(21, d.len() as int));
        if d.len() >= 38 && d[21] == 16 {
            assert(rest.subrange(1, 17) =~= d.subrange(22, 38));
        }
    }
    if d.len() >= 20 && d[3] == 16 {
        assert(body.subrange(1, 17) =~= d.subrange(4, 20));
    }
}

/// An IdentityResponse is read if and only if its identity is complete; it
/// holds a SUCI if and only if that has 16 octets and is of type 1.
pub proof fn identity_response_is_read(d: Seq<u8>)
    requires
        d.len() >= 3,
        d[0] == 0x7E,
        d[1] % 16 == 0,
        d[2] == 0x5C,
    ensures
        d.len() < 4 || d.len() < 4 + d[3] ==> nas5gs_pdu(d) == refused("missing mobile identity"),
        d.len() >= 4 && d.len() >= 4 + d[3] ==> nas5gs_pdu(d) == Ok::<Nas5gsPduView, ProtoError>(
            Nas5gsPduView::IdentityResponse {
                suci: if d[3] == 16 && d[4] % 8 == 1 {
                    Some(
                        SuciView {
                            mcc: d.subrange(5, 8),
                            mnc: d.subrange(8, 11),
                            routing_indicator: (256 * d[11] + d[12]) as u16,
                            protection_scheme: d[13],
                            home_network_pki: d[14],
                            msin: d.subrange(15, 20),
                        },
                    )
                } else {
                    None
                },
            },
        ),
{
    reveal(nas5gs_pdu);
    let body = d.subrange(3, d.len() as int);
    if d.len() >= 4 && d.len() >= 4 + d[3] {
        let identity = body.subrange(1, 1 + body[0]);
        assert(identity =~= d.subrange(4, 4 + d[3]));
        if d[3] == 16 {
            assert(identity.subrange(1, 4) =~= d.subrange(5, 8));
            assert(identity.subrange(4, 7) =~= d.subrange(8, 11));
            assert(identity.subrange(11, 16) =~= d.subrange(15, 20));
        }
    }
}

/// Which error names what is missing from a PDU.
pub proof fn missing_parts_are_named(d: Seq<u8>)
    requires
        d.len() >= 3,
        d[0] == 0x7E,
        d[1] % 16 == 0,
    ensures
        d[2] == 0x56 && d.len() == 3 ==> nas5gs_pdu(d) == Err::<Nas5gsPduView, ProtoError>(
            ProtoError::TooShort { expected: 35, got: 0 },
        ),
        d[2] == 0x56 && d.len() > 3 && (d.len() < 5 || d.len() < 5 + d[4]) ==> nas5gs_pdu(d) == refused("missing RAND"),
        d[2] == 0x56 && d.len() >= 5 && d.len() >= 5 + d[4] && d[4] != 16 ==> nas5gs_pdu(d) == refused(
            "RAND must be exactly 16 bytes",
        ),
        d[2] == 0x56 && d.len() >= 21 && d[4] == 16 && (d.len() < 22 || d.len() < 22 + d[21]) ==> nas5gs_pdu(d)
            == refused("missing AUTN"),
        d[2] == 0x56 && d.len() >= 22 && d[4] == 16 && d.len() >= 22 + d[21] && d[21] != 16 ==> nas5gs_pdu(d)
            == refused("AUTN must be exactly 16 bytes"),
        d[2] == 0x5D && d.len() < 6 ==> nas5gs_pdu(d) == Err::<Nas5gsPduView, ProtoError>(
            ProtoError::TooShort { expected: 3, got: (d.len() - 3) as usize },
        ),
        (d[2] == 0x5B || d[2] == 0x45 || d[2] == 0x42) && d.len() == 3 ==> nas5gs_pdu(d) == Err::<
            Nas5gsPduView,
            ProtoError,
        >(ProtoError::TooShort { expected: 1, got: 0 }),
        d[2] == 0x42 && d.len() > 3 && (d.len() < 5 || d.len() < 5 + d[4]) ==> nas5gs_pdu(d) == refused(
            "missing 5G-GUTI",
        ),
        d[2] == 0x42 && d.len() >= 5 && d.len() >= 5 + d[4] && d[4] != 11 ==> nas5gs_pdu(d) == refused(
            "5G-GUTI must be exactly 11 bytes",
        ),
{
    reveal(nas5gs_pdu);
    let body = d.subrange(3, d.len() as int);
    if d.len() >= 4 {
        let from = body.subrange(1, body.len() as int);
        assert(from =~= d.subrange(4, d.len() as int));
        if d.len() >= 21 && d[4] == 16 {
            assert(from.subrange(17, from.len() as int) =~= d.subrange(21, d.len() as int));
        }
    }
}

/// The other types: a SecurityModeCommand needs three octets, an
/// IdentityRequest and a DeregistrationRequest one, a RegistrationAccept a
/// GUTI of 11; the rest need none.
pub proof fn short_messages_are_read(d: Seq<u8>)
    requires
        d.len() >= 3,
        d[0] == 0x7E,
        d[1] % 16 == 0,
    ensures
        d[2] == 0x5D ==> (nas5gs_pdu(d) is Ok <==> d.len() >= 6),
        d[2] == 0x5D && d.len() >= 6 ==> nas5gs_pdu(d) == Ok::<Nas5gsPduView, ProtoError>(
            Nas5gsPduView::SecurityModeCommand {
                cipher: (d[3] / 16) as u8,
                integrity: (d[3] % 16) as u8,
                ue_security_cap: (256 * d[4] + d[5]) as u16,
            },
        ),
        d[2] == 0x5B ==> (nas5gs_pdu(d) is Ok <==> d.len() >= 4),
        d[2] == 0x5B && d.len() >= 4 ==> nas5gs_pdu(d) == Ok::<Nas5gsPduView, ProtoError>(
            Nas5gsPduView::IdentityRequest { identity_type: (d[3] % 8) as u8 },
        ),
        d[2] == 0x45 ==> (nas5gs_pdu(d) is Ok <==> d.len() >= 4),
        d[2] == 0x45 && d.len() >= 4 ==> nas5gs_pdu(d) == Ok::<Nas5gsPduView, ProtoError>(
            Nas5gsPduView::DeregistrationRequest { switch_off: d[3] / 8 % 2 == 1 },
        ),
        d[2] == 0x42 ==> (nas5gs_pdu(d) is Ok <==> d.len() >= 16 && d[4] == 11),
        d[2] == 0x42 && nas5gs_pdu(d) is Ok ==> nas5gs_pdu(d) == Ok::<Nas5gsPduView, ProtoError>(
            Nas5gsPduView::RegistrationAccept { registration_result: (d[3] % 8) as u8, guti: d.subrange(5, 16) },
        ),
        d[2] == 0x5E ==> nas5gs_pdu(d) == Ok::<Nas5gsPduView, ProtoError>(Nas5gsPduView::SecurityModeComplete),
        d[2] == 0x43 ==> nas5gs_pdu(d) == Ok::<Nas5gsPduView, ProtoError>(Nas5gsPduView::RegistrationComplete),
        d[2] == 0x46 ==> nas5gs_pdu(d) == Ok::<Nas5gsPduView, ProtoError>(Nas5gsPduView::DeregistrationAccept),
{
    reveal(nas5gs_pdu);
    let body = d.subrange(3, d.len() as int);
    if d.len() >= 16 && d[4] == 11 {
        let from = body.subrange(1, body.len() as int);
        assert(from.subrange(1, 12) =~= d.subrange(5, 16));
    }
}

} // verus!
