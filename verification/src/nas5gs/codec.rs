//! 5G NAS messages of the registration and deregistration procedures (3GPP
//! TS 24.501).
//!
//! ```text
//! UE → AMF : RegistrationRequest       AMF → UE : IdentityRequest
//! UE → AMF : IdentityResponse          AMF → UE : AuthenticationRequest
//! UE → AMF : AuthenticationResponse    AMF → UE : SecurityModeCommand
//! UE → AMF : SecurityModeComplete      AMF → UE : RegistrationAccept
//! UE → AMF : RegistrationComplete
//! UE → AMF : DeregistrationRequest     AMF → UE : DeregistrationAccept
//! ```
//!
//! The header differs from LTE: octet 1 is the extended protocol
//! discriminator, the low nibble of octet 2 the security header type, and
//! octet 3 the message type. A protected PDU is
//!
//! ```text
//! Octet 1     : extended protocol discriminator
//! Octet 2     : security header type
//! Octets 3-6  : MAC-I
//! Octet 7     : NAS sequence number, the low-order octet of COUNT
//! Octets 8+   : a complete plain PDU, ciphered unless the algorithm is null
//! ```
//!
//! The IEs are laid out flat: identities and keys as length-value pairs, a
//! SUCI as opaque octets rather than packed digits, algorithm identities as
//! plain numbers.

use bytes::Bytes;
use vstd::prelude::*;

use crate::error::ProtoError;
use crate::nas::ie::{high_nibble, low_nibble, low_three_bits, lv, lv_octets, nibbles, read_lv, write_lv};
use crate::nas::security::{next_count, reconstructed, Direction, NasSecurityContextView, ProtectedNas};
use crate::nas5gs::security::{Nas5gsSecurityContext, NAS5GS_BEARER};
use crate::octets::{append, bytes_from_vec, octets_of, to_array};

verus! {

/// Extended protocol discriminator: 5GS mobility management.
pub const NAS5GS_EPD: u8 = 0x7E;

// Message types (TS 24.501, table 9.7.1).
pub const MT5G_REGISTRATION_REQUEST: u8 = 0x41;

pub const MT5G_REGISTRATION_ACCEPT: u8 = 0x42;

pub const MT5G_REGISTRATION_COMPLETE: u8 = 0x43;

pub const MT5G_DEREGISTRATION_REQUEST: u8 = 0x45;

pub const MT5G_DEREGISTRATION_ACCEPT: u8 = 0x46;

pub const MT5G_AUTHENTICATION_REQUEST: u8 = 0x56;

pub const MT5G_AUTHENTICATION_RESPONSE: u8 = 0x57;

pub const MT5G_IDENTITY_REQUEST: u8 = 0x5B;

pub const MT5G_IDENTITY_RESPONSE: u8 = 0x5C;

pub const MT5G_SECURITY_MODE_COMMAND: u8 = 0x5D;

pub const MT5G_SECURITY_MODE_COMPLETE: u8 = 0x5E;

// Types of identity (TS 24.501, 9.11.3.3).
pub const IDTYPE_SUCI: u8 = 1;

pub const IDTYPE_5G_GUTI: u8 = 2;

// Security header types.
pub const NAS5GS_SHT_PLAIN: u8 = 0;

pub const NAS5GS_SHT_INTEGRITY: u8 = 1;

pub const NAS5GS_SHT_INTEGRITY_CIPHERED: u8 = 2;

/// Access type of a DeregistrationRequest: 3GPP access.
pub const ACCESS_TYPE_3GPP: u8 = 1;

// ── Messages ──────────────────────────────────────────────────────────────────

/// A subscription concealed identifier.
#[derive(Debug, Clone, Copy)]
pub struct Suci {
    pub mcc: [u8; 3],
    pub mnc: [u8; 3],
    pub routing_indicator: u16,
    /// 0 is the null scheme: the MSIN is in the clear.
    pub protection_scheme: u8,
    pub home_network_pki: u8,
    pub msin: [u8; 5],
}

/// A decoded 5G NAS PDU.
#[derive(Debug, Clone)]
pub enum Nas5gsPdu {
    RegistrationRequest(DecodedRegistrationRequest),
    IdentityRequest { identity_type: u8 },
    IdentityResponse(DecodedIdentityResponse),
    AuthenticationRequest(Decoded5gAuthenticationRequest),
    AuthenticationResponse(Decoded5gAuthenticationResponse),
    SecurityModeCommand(Decoded5gSecurityModeCommand),
    SecurityModeComplete,
    RegistrationAccept(DecodedRegistrationAccept),
    RegistrationComplete,
    DeregistrationRequest { switch_off: bool },
    DeregistrationAccept,
}

#[derive(Debug, Clone)]
pub struct DecodedRegistrationRequest {
    pub registration_type: u8,
    pub ng_ksi: u8,
    pub guti: Option<[u8; 11]>,
    pub ue_security_cap: u16,
}

#[derive(Debug, Clone)]
pub struct DecodedIdentityResponse {
    /// `None` when the identity is no SUCI.
    pub suci: Option<Suci>,
}

#[derive(Debug, Clone)]
pub struct Decoded5gAuthenticationRequest {
    pub ng_ksi: u8,
    pub rand: [u8; 16],
    pub autn: [u8; 16],
}

#[derive(Debug, Clone)]
pub struct Decoded5gAuthenticationResponse {
    pub res_star: [u8; 16],
}

#[derive(Debug, Clone)]
pub struct Decoded5gSecurityModeCommand {
    pub cipher: u8,
    pub integrity: u8,
    pub ue_security_cap: u16,
}

#[derive(Debug, Clone)]
pub struct DecodedRegistrationAccept {
    pub registration_result: u8,
    pub guti: [u8; 11],
}

#[verifier::ext_equal]
pub struct SuciView {
    pub mcc: Seq<u8>,
    pub mnc: Seq<u8>,
    pub routing_indicator: u16,
    pub protection_scheme: u8,
    pub home_network_pki: u8,
    pub msin: Seq<u8>,
}

#[verifier::ext_equal]
pub enum Nas5gsPduView {
    RegistrationRequest { registration_type: u8, ng_ksi: u8, guti: Option<Seq<u8>>, ue_security_cap: u16 },
    IdentityRequest { identity_type: u8 },
    IdentityResponse { suci: Option<SuciView> },
    AuthenticationRequest { ng_ksi: u8, rand: Seq<u8>, autn: Seq<u8> },
    AuthenticationResponse { res_star: Seq<u8> },
    SecurityModeCommand { cipher: u8, integrity: u8, ue_security_cap: u16 },
    SecurityModeComplete,
    RegistrationAccept { registration_result: u8, guti: Seq<u8> },
    RegistrationComplete,
    DeregistrationRequest { switch_off: bool },
    DeregistrationAccept,
}

impl View for Suci {
    type V = SuciView;

    open spec fn view(&self) -> SuciView {
        SuciView {
            mcc: self.mcc@,
            mnc: self.mnc@,
            routing_indicator: self.routing_indicator,
            protection_scheme: self.protection_scheme,
            home_network_pki: self.home_network_pki,
            msin: self.msin@,
        }
    }
}

pub open spec fn opt_5g_guti(a: Option<[u8; 11]>) -> Option<Seq<u8>> {
    match a {
        Some(x) => Some(x@),
        None => None,
    }
}

pub open spec fn opt_suci(a: Option<Suci>) -> Option<SuciView> {
    match a {
        Some(x) => Some(x@),
        None => None,
    }
}

impl View for Nas5gsPdu {
    type V = Nas5gsPduView;

    open spec fn view(&self) -> Nas5gsPduView {
        match *self {
            Nas5gsPdu::RegistrationRequest(m) => Nas5gsPduView::RegistrationRequest {
                registration_type: m.registration_type,
                ng_ksi: m.ng_ksi,
                guti: opt_5g_guti(m.guti),
                ue_security_cap: m.ue_security_cap,
            },
            Nas5gsPdu::IdentityRequest { identity_type } => Nas5gsPduView::IdentityRequest { identity_type },
            Nas5gsPdu::IdentityResponse(m) => Nas5gsPduView::IdentityResponse { suci: opt_suci(m.suci) },
            Nas5gsPdu::AuthenticationRequest(m) => Nas5gsPduView::AuthenticationRequest {
                ng_ksi: m.ng_ksi,
                rand: m.rand@,
                autn: m.autn@,
            },
            Nas5gsPdu::AuthenticationResponse(m) => Nas5gsPduView::AuthenticationResponse { res_star: m.res_star@ },
            Nas5gsPdu::SecurityModeCommand(m) => Nas5gsPduView::SecurityModeCommand {
                cipher: m.cipher,
                integrity: m.integrity,
                ue_security_cap: m.ue_security_cap,
            },
            Nas5gsPdu::SecurityModeComplete => Nas5gsPduView::SecurityModeComplete,
            Nas5gsPdu::RegistrationAccept(m) => Nas5gsPduView::RegistrationAccept {
                registration_result: m.registration_result,
                guti: m.guti@,
            },
            Nas5gsPdu::RegistrationComplete => Nas5gsPduView::RegistrationComplete,
            Nas5gsPdu::DeregistrationRequest { switch_off } => Nas5gsPduView::DeregistrationRequest { switch_off },
            Nas5gsPdu::DeregistrationAccept => Nas5gsPduView::DeregistrationAccept,
        }
    }
}

/// A decoding result over views.
pub open spec fn decoded(r: Result<Nas5gsPdu, ProtoError>) -> Result<Nas5gsPduView, ProtoError> {
    match r {
        Ok(m) => Ok(m@),
        Err(e) => Err(e),
    }
}

// ── Encodings ─────────────────────────────────────────────────────────────────

pub open spec fn header(message_type: u8) -> Seq<u8> {
    seq![NAS5GS_EPD, NAS5GS_SHT_PLAIN, message_type]
}

pub open spec fn u16_octets(v: u16) -> Seq<u8> {
    seq![(v / 256) as u8, (v % 256) as u8]
}

pub open spec fn registration_request_octets(
    registration_type: u8,
    ng_ksi: u8,
    guti: Option<Seq<u8>>,
    ue_security_cap: u16,
) -> Seq<u8> {
    header(MT5G_REGISTRATION_REQUEST) + seq![(ng_ksi % 8 * 16 + registration_type % 8) as u8] + lv_octets(
        match guti {
            Some(g) => g,
            None => Seq::empty(),
        },
    ) + u16_octets(ue_security_cap)
}

pub open spec fn identity_request_octets(identity_type: u8) -> Seq<u8> {
    header(MT5G_IDENTITY_REQUEST) + seq![(identity_type % 8) as u8]
}

/// A SUCI as an identity: type, MCC, MNC, routing indicator, protection
/// scheme, home network public key identifier, MSIN.
pub open spec fn suci_octets(s: SuciView) -> Seq<u8> {
    seq![IDTYPE_SUCI] + s.mcc + s.mnc + u16_octets(s.routing_indicator) + seq![s.protection_scheme, s.home_network_pki]
        + s.msin
}

pub open spec fn identity_response_octets(s: SuciView) -> Seq<u8> {
    header(MT5G_IDENTITY_RESPONSE) + lv_octets(suci_octets(s))
}

pub open spec fn auth_request_octets(ng_ksi: u8, rand: Seq<u8>, autn: Seq<u8>) -> Seq<u8> {
    header(MT5G_AUTHENTICATION_REQUEST) + seq![(ng_ksi % 8) as u8] + lv_octets(rand) + lv_octets(autn)
}

pub open spec fn auth_response_octets(res_star: Seq<u8>) -> Seq<u8> {
    header(MT5G_AUTHENTICATION_RESPONSE) + lv_octets(res_star)
}

pub open spec fn sec_mode_cmd_octets(cipher: u8, integrity: u8, ue_security_cap: u16) -> Seq<u8> {
    header(MT5G_SECURITY_MODE_COMMAND) + seq![(cipher % 16 * 16 + integrity % 16) as u8] + u16_octets(ue_security_cap)
}

/// 5GS tracking area identities, one after the other.
pub open spec fn tai_list_octets(tai_list: Seq<[u8; 6]>) -> Seq<u8>
    decreases tai_list.len(),
{
    if tai_list.len() == 0 {
        Seq::empty()
    } else {
        tai_list_octets(tai_list.drop_last()) + tai_list.last()@
    }
}

pub open spec fn registration_accept_octets(registration_result: u8, guti: Seq<u8>, tai_list: Seq<[u8; 6]>) -> Seq<
    u8,
> {
    header(MT5G_REGISTRATION_ACCEPT) + seq![(registration_result % 8) as u8] + lv_octets(guti) + lv_octets(
        tai_list_octets(tai_list),
    )
}

pub open spec fn deregistration_request_octets(switch_off: bool) -> Seq<u8> {
    header(MT5G_DEREGISTRATION_REQUEST) + seq![
        if switch_off {
            (8 + ACCESS_TYPE_3GPP) as u8
        } else {
            ACCESS_TYPE_3GPP
        },
    ]
}

fn start(message_type: u8) -> (buf: Vec<u8>)
    ensures
        buf@ == header(message_type),
{
    let buf: Vec<u8> = vec![NAS5GS_EPD, NAS5GS_SHT_PLAIN, message_type];
    assert(buf@ =~= header(message_type));
    buf
}

fn push_u16(buf: &mut Vec<u8>, v: u16)
    ensures
        final(buf)@ == old(buf)@ + u16_octets(v),
{
    buf.push((v / 256) as u8);
    buf.push((v % 256) as u8);
    assert(buf@ =~= old(buf)@ + u16_octets(v));
}

pub fn encode_registration_request(
    registration_type: u8,
    ng_ksi: u8,
    guti: Option<&[u8; 11]>,
    ue_security_cap: u16,
) -> (b: Bytes)
    ensures
        octets_of(b) == registration_request_octets(
            registration_type,
            ng_ksi,
            match guti {
                Some(g) => Some(g@),
                None => None,
            },
            ue_security_cap,
        ),
{
    let mut buf = start(MT5G_REGISTRATION_REQUEST);
    buf.push(nibbles(low_three_bits(ng_ksi), low_three_bits(registration_type)));
    let ghost fixed = buf@;
    match guti {
        Some(g) => {
            write_lv(&mut buf, g.as_slice());
        },
        None => {
            let none: [u8; 0] = [];
            assert(none@ =~= Seq::<u8>::empty());
            write_lv(&mut buf, none.as_slice());
        },
    }
    push_u16(&mut buf, ue_security_cap);
    assert(fixed =~= header(MT5G_REGISTRATION_REQUEST) + seq![(ng_ksi % 8 * 16 + registration_type % 8) as u8]);
    bytes_from_vec(buf)
}

pub fn encode_identity_request(identity_type: u8) -> (b: Bytes)
    ensures
        octets_of(b) == identity_request_octets(identity_type),
{
    let mut buf = start(MT5G_IDENTITY_REQUEST);
    buf.push(low_three_bits(identity_type));
    assert(buf@ =~= identity_request_octets(identity_type));
    bytes_from_vec(buf)
}

pub fn encode_identity_response_suci(suci: &Suci) -> (b: Bytes)
    ensures
        octets_of(b) == identity_response_octets(suci@),
{
    let mut id: Vec<u8> = Vec::new();
    id.push(IDTYPE_SUCI);
    append(&mut id, suci.mcc.as_slice());
    append(&mut id, suci.mnc.as_slice());
    push_u16(&mut id, suci.routing_indicator);
    id.push(suci.protection_scheme);
    id.push(suci.home_network_pki);
    append(&mut id, suci.msin.as_slice());
    assert(id@ =~= suci_octets(suci@));
    let mut buf = start(MT5G_IDENTITY_RESPONSE);
    write_lv(&mut buf, id.as_slice());
    bytes_from_vec(buf)
}

pub fn encode_auth_request(ng_ksi: u8, rand: &[u8; 16], autn: &[u8; 16]) -> (b: Bytes)
    ensures
        octets_of(b) == auth_request_octets(ng_ksi, rand@, autn@),
{
    let mut buf = start(MT5G_AUTHENTICATION_REQUEST);
    buf.push(low_three_bits(ng_ksi));
    write_lv(&mut buf, rand.as_slice());
    write_lv(&mut buf, autn.as_slice());
    assert(buf@ =~= auth_request_octets(ng_ksi, rand@, autn@));
    bytes_from_vec(buf)
}

pub fn encode_auth_response(res_star: &[u8; 16]) -> (b: Bytes)
    ensures
        octets_of(b) == auth_response_octets(res_star@),
{
    let mut buf = start(MT5G_AUTHENTICATION_RESPONSE);
    write_lv(&mut buf, res_star.as_slice());
    bytes_from_vec(buf)
}

/// `ue_security_cap` are the UE security capabilities, replayed to the UE.
pub fn encode_sec_mode_cmd(cipher: u8, integrity: u8, ue_security_cap: u16) -> (b: Bytes)
    ensures
        octets_of(b) == sec_mode_cmd_octets(cipher, integrity, ue_security_cap),
{
    let mut buf = start(MT5G_SECURITY_MODE_COMMAND);
    buf.push(nibbles(low_nibble(cipher), low_nibble(integrity)));
    push_u16(&mut buf, ue_security_cap);
    assert(buf@ =~= sec_mode_cmd_octets(cipher, integrity, ue_security_cap));
    bytes_from_vec(buf)
}

pub fn encode_sec_mode_complete() -> (b: Bytes)
    ensures
        octets_of(b) == header(MT5G_SECURITY_MODE_COMPLETE),
{
    bytes_from_vec(start(MT5G_SECURITY_MODE_COMPLETE))
}

proof fn lemma_tai_list_len(tai_list: Seq<[u8; 6]>)
    ensures
        tai_list_octets(tai_list).len() == 6 * tai_list.len(),
    decreases tai_list.len(),
{
    if tai_list.len() > 0 {
        lemma_tai_list_len(tai_list.drop_last());
    }
}

/// At most 42 tracking area identities fit the length octet of the list.
pub fn encode_registration_accept(registration_result: u8, guti: &[u8; 11], tai_list: &[[u8; 6]]) -> (b: Bytes)
    requires
        tai_list@.len() <= 42,
    ensures
        octets_of(b) == registration_accept_octets(registration_result, guti@, tai_list@),
{
    let mut buf = start(MT5G_REGISTRATION_ACCEPT);
    buf.push(low_three_bits(registration_result));
    let ghost fixed = buf@;
    assert(fixed =~= header(MT5G_REGISTRATION_ACCEPT) + seq![(registration_result % 8) as u8]);
    write_lv(&mut buf, guti.as_slice());
    let mut list: Vec<u8> = Vec::new();
    let mut i: usize = 0;
    assert(list@ =~= tai_list_octets(tai_list@.take(0)));
    while i < tai_list.len()
        invariant
            i <= tai_list@.len(),
            list@ == tai_list_octets(tai_list@.take(i as int)),
        decreases tai_list@.len() - i,
    {
        append(&mut list, tai_list[i].as_slice());
        assert(tai_list@.take(i + 1).drop_last() =~= tai_list@.take(i as int));
        i += 1;
    }
    proof {
        assert(tai_list@.take(i as int) =~= tai_list@);
        lemma_tai_list_len(tai_list@);
    }
    write_lv(&mut buf, list.as_slice());
    bytes_from_vec(buf)
}

pub fn encode_registration_complete() -> (b: Bytes)
    ensures
        octets_of(b) == header(MT5G_REGISTRATION_COMPLETE),
{
    bytes_from_vec(start(MT5G_REGISTRATION_COMPLETE))
}

pub fn encode_deregistration_request(switch_off: bool) -> (b: Bytes)
    ensures
        octets_of(b) == deregistration_request_octets(switch_off),
{
    let mut buf = start(MT5G_DEREGISTRATION_REQUEST);
    buf.push(
        if switch_off {
            8 + ACCESS_TYPE_3GPP
        } else {
            ACCESS_TYPE_3GPP
        },
    );
    assert(buf@ =~= deregistration_request_octets(switch_off));
    bytes_from_vec(buf)
}

/// Not sent when the UE powers down.
pub fn encode_deregistration_accept() -> (b: Bytes)
    ensures
        octets_of(b) == header(MT5G_DEREGISTRATION_ACCEPT),
{
    bytes_from_vec(start(MT5G_DEREGISTRATION_ACCEPT))
}

// ── What octets denote ────────────────────────────────────────────────────────

pub open spec fn spec_malformed<T>(reason: &'static str) -> Result<T, ProtoError> {
    Err(ProtoError::MalformedNas { reason })
}

pub open spec fn spec_too_short<T>(expected: usize, got: nat) -> Result<T, ProtoError> {
    Err(ProtoError::TooShort { expected, got: got as usize })
}

pub open spec fn octets_u16(d: Seq<u8>) -> u16 {
    (d[0] * 256 + d[1]) as u16
}

pub open spec fn registration_request_from(body: Seq<u8>) -> Result<Nas5gsPduView, ProtoError> {
    if body.len() == 0 {
        spec_too_short(1, 0)
    } else {
        match lv(body.subrange(1, body.len() as int)) {
            None => spec_malformed("missing mobile identity"),
            Some((identity, rest)) => if identity.len() != 0 && identity.len() != 11 {
                spec_malformed("5G-GUTI must be exactly 11 bytes")
            } else if rest.len() < 2 {
                spec_malformed("missing UE security capability")
            } else {
                Ok(
                    Nas5gsPduView::RegistrationRequest {
                        registration_type: (body[0] % 8) as u8,
                        ng_ksi: (body[0] / 16 % 8) as u8,
                        guti: if identity.len() == 0 {
                            None
                        } else {
                            Some(identity)
                        },
                        ue_security_cap: octets_u16(rest),
                    },
                )
            },
        }
    }
}

pub open spec fn identity_request_from(body: Seq<u8>) -> Result<Nas5gsPduView, ProtoError> {
    if body.len() == 0 {
        spec_too_short(1, 0)
    } else {
        Ok(Nas5gsPduView::IdentityRequest { identity_type: (body[0] % 8) as u8 })
    }
}

/// The SUCI that an identity holds; `None` for another type of identity.
pub open spec fn suci_of(d: Seq<u8>) -> Option<SuciView> {
    if d.len() != 16 || d[0] % 8 != IDTYPE_SUCI {
        None
    } else {
        Some(
            SuciView {
                mcc: d.subrange(1, 4),
                mnc: d.subrange(4, 7),
                routing_indicator: octets_u16(d.subrange(7, 9)),
                protection_scheme: d[9],
                home_network_pki: d[10],
                msin: d.subrange(11, 16),
            },
        )
    }
}

pub open spec fn identity_response_from(body: Seq<u8>) -> Result<Nas5gsPduView, ProtoError> {
    match lv(body) {
        None => spec_malformed("missing mobile identity"),
        Some((identity, _)) => Ok(Nas5gsPduView::IdentityResponse { suci: suci_of(identity) }),
    }
}

pub open spec fn auth_request_from(body: Seq<u8>) -> Result<Nas5gsPduView, ProtoError> {
    if body.len() == 0 {
        spec_too_short(35, 0)
    } else {
        match lv(body.subrange(1, body.len() as int)) {
            None => spec_malformed("missing RAND"),
            Some((rand, rest)) => if rand.len() != 16 {
                spec_malformed("RAND must be exactly 16 bytes")
            } else {
                match lv(rest) {
                    None => spec_malformed("missing AUTN"),
                    Some((autn, _)) => if autn.len() != 16 {
                        spec_malformed("AUTN must be exactly 16 bytes")
                    } else {
                        Ok(Nas5gsPduView::AuthenticationRequest { ng_ksi: (body[0] % 8) as u8, rand, autn })
                    },
                }
            },
        }
    }
}

pub open spec fn auth_response_from(body: Seq<u8>) -> Result<Nas5gsPduView, ProtoError> {
    match lv(body) {
        None => spec_malformed("missing RES*"),
        Some((res_star, _)) => if res_star.len() != 16 {
            spec_malformed("RES* must be exactly 16 bytes")
        } else {
            Ok(Nas5gsPduView::AuthenticationResponse { res_star })
        },
    }
}

pub open spec fn sec_mode_cmd_from(body: Seq<u8>) -> Result<Nas5gsPduView, ProtoError> {
    if body.len() < 3 {
        spec_too_short(3, body.len())
    } else {
        Ok(
            Nas5gsPduView::SecurityModeCommand {
                cipher: (body[0] / 16) as u8,
                integrity: (body[0] % 16) as u8,
                ue_security_cap: octets_u16(body.subrange(1, 3)),
            },
        )
    }
}

pub open spec fn registration_accept_from(body: Seq<u8>) -> Result<Nas5gsPduView, ProtoError> {
    if body.len() == 0 {
        spec_too_short(1, 0)
    } else {
        match lv(body.subrange(1, body.len() as int)) {
            None => spec_malformed("missing 5G-GUTI"),
            Some((guti, _)) => if guti.len() != 11 {
                spec_malformed("5G-GUTI must be exactly 11 bytes")
            } else {
                Ok(Nas5gsPduView::RegistrationAccept { registration_result: (body[0] % 8) as u8, guti })
            },
        }
    }
}

pub open spec fn deregistration_request_from(body: Seq<u8>) -> Result<Nas5gsPduView, ProtoError> {
    if body.len() == 0 {
        spec_too_short(1, 0)
    } else {
        Ok(Nas5gsPduView::DeregistrationRequest { switch_off: body[0] % 16 >= 8 })
    }
}

/// The plain PDU that octets denote.
#[verifier::opaque]
pub open spec fn nas5gs_pdu(d: Seq<u8>) -> Result<Nas5gsPduView, ProtoError> {
    let body = d.subrange(3, d.len() as int);
    if d.len() < 3 {
        spec_too_short(3, d.len())
    } else if d[0] != NAS5GS_EPD {
        spec_malformed("expected 5GS-MM extended protocol discriminator 0x7E")
    } else if d[1] % 16 != NAS5GS_SHT_PLAIN {
        spec_malformed("protected NAS must be unwrapped first")
    } else if d[2] == MT5G_REGISTRATION_REQUEST {
        registration_request_from(body)
    } else if d[2] == MT5G_IDENTITY_REQUEST {
        identity_request_from(body)
    } else if d[2] == MT5G_IDENTITY_RESPONSE {
        identity_response_from(body)
    } else if d[2] == MT5G_AUTHENTICATION_REQUEST {
        auth_request_from(body)
    } else if d[2] == MT5G_AUTHENTICATION_RESPONSE {
        auth_response_from(body)
    } else if d[2] == MT5G_SECURITY_MODE_COMMAND {
        sec_mode_cmd_from(body)
    } else if d[2] == MT5G_SECURITY_MODE_COMPLETE {
        Ok(Nas5gsPduView::SecurityModeComplete)
    } else if d[2] == MT5G_REGISTRATION_ACCEPT {
        registration_accept_from(body)
    } else if d[2] == MT5G_REGISTRATION_COMPLETE {
        Ok(Nas5gsPduView::RegistrationComplete)
    } else if d[2] == MT5G_DEREGISTRATION_REQUEST {
        deregistration_request_from(body)
    } else if d[2] == MT5G_DEREGISTRATION_ACCEPT {
        Ok(Nas5gsPduView::DeregistrationAccept)
    } else {
        Err(ProtoError::UnknownGtpMsgType(d[2]))
    }
}

fn malformed<T>(reason: &'static str) -> (r: Result<T, ProtoError>)
    ensures
        r == spec_malformed::<T>(reason),
{
    Err(ProtoError::MalformedNas { reason })
}

fn read_u16(d: &[u8]) -> (v: u16)
    requires
        d@.len() >= 2,
    ensures
        v == octets_u16(d@),
{
    d[0] as u16 * 256 + d[1] as u16
}

/// Decodes a plain PDU. A protected one is refused: it goes through
/// `decode_protected` first.
pub fn decode_nas5gs(buf: &[u8]) -> (r: Result<Nas5gsPdu, ProtoError>)
    ensures
        decoded(r) == nas5gs_pdu(buf@),
{
    proof {
        reveal(nas5gs_pdu);
    }
    let len: usize = buf.len();
    if len < 3 {
        return Err(ProtoError::TooShort { expected: 3, got: len });
    }
    if buf[0] != NAS5GS_EPD {
        return malformed("expected 5GS-MM extended protocol discriminator 0x7E");
    }
    if low_nibble(buf[1]) != NAS5GS_SHT_PLAIN {
        return malformed("protected NAS must be unwrapped first");
    }
    let body = &buf[3..len];
    match buf[2] {
        MT5G_REGISTRATION_REQUEST => decode_registration_request(body),
        MT5G_IDENTITY_REQUEST => decode_identity_request(body),
        MT5G_IDENTITY_RESPONSE => decode_identity_response(body),
        MT5G_AUTHENTICATION_REQUEST => decode_auth_request(body),
        MT5G_AUTHENTICATION_RESPONSE => decode_auth_response(body),
        MT5G_SECURITY_MODE_COMMAND => decode_sec_mode_cmd(body),
        MT5G_SECURITY_MODE_COMPLETE => Ok(Nas5gsPdu::SecurityModeComplete),
        MT5G_REGISTRATION_ACCEPT => decode_registration_accept(body),
        MT5G_REGISTRATION_COMPLETE => Ok(Nas5gsPdu::RegistrationComplete),
        MT5G_DEREGISTRATION_REQUEST => decode_deregistration_request(body),
        MT5G_DEREGISTRATION_ACCEPT => Ok(Nas5gsPdu::DeregistrationAccept),
        other => Err(ProtoError::UnknownGtpMsgType(other)),
    }
}

fn decode_registration_request(body: &[u8]) -> (r: Result<Nas5gsPdu, ProtoError>)
    ensures
        decoded(r) == registration_request_from(body@),
{
    let len: usize = body.len();
    if len == 0 {
        return Err(ProtoError::TooShort { expected: 1, got: 0 });
    }
    let (identity, rest) = match read_lv(&body[1..len]) {
        Some(v) => v,
        None => return malformed("missing mobile identity"),
    };
    if identity.len() != 0 && identity.len() != 11 {
        return malformed("5G-GUTI must be exactly 11 bytes");
    }
    if rest.len() < 2 {
        return malformed("missing UE security capability");
    }
    let guti = if identity.len() == 0 {
        None
    } else {
        Some(to_array::<11>(identity))
    };
    Ok(
        Nas5gsPdu::RegistrationRequest(
            DecodedRegistrationRequest {
                registration_type: low_three_bits(body[0]),
                ng_ksi: low_three_bits(high_nibble(body[0])),
                guti,
                ue_security_cap: read_u16(rest),
            },
        ),
    )
}

fn decode_identity_request(body: &[u8]) -> (r: Result<Nas5gsPdu, ProtoError>)
    ensures
        decoded(r) == identity_request_from(body@),
{
    if body.len() == 0 {
        return Err(ProtoError::TooShort { expected: 1, got: 0 });
    }
    Ok(Nas5gsPdu::IdentityRequest { identity_type: low_three_bits(body[0]) })
}

fn decode_suci(d: &[u8]) -> (s: Option<Suci>)
    ensures
        opt_suci(s) == suci_of(d@),
{
    if d.len() != 16 || low_three_bits(d[0]) != IDTYPE_SUCI {
        return None;
    }
    Some(
        Suci {
            mcc: to_array::<3>(&d[1..4]),
            mnc: to_array::<3>(&d[4..7]),
            routing_indicator: read_u16(&d[7..9]),
            protection_scheme: d[9],
            home_network_pki: d[10],
            msin: to_array::<5>(&d[11..16]),
        },
    )
}

fn decode_identity_response(body: &[u8]) -> (r: Result<Nas5gsPdu, ProtoError>)
    ensures
        decoded(r) == identity_response_from(body@),
{
    match read_lv(body) {
        Some((identity, _)) => Ok(
            Nas5gsPdu::IdentityResponse(DecodedIdentityResponse { suci: decode_suci(identity) }),
        ),
        None => malformed("missing mobile identity"),
    }
}

fn decode_auth_request(body: &[u8]) -> (r: Result<Nas5gsPdu, ProtoError>)
    ensures
        decoded(r) == auth_request_from(body@),
{
    let len: usize = body.len();
    if len == 0 {
        return Err(ProtoError::TooShort { expected: 35, got: 0 });
    }
    let (rand, rest) = match read_lv(&body[1..len]) {
        Some(v) => v,
        None => return malformed("missing RAND"),
    };
    if rand.len() != 16 {
        return malformed("RAND must be exactly 16 bytes");
    }
    let (autn, _) = match read_lv(rest) {
        Some(v) => v,
        None => return malformed("missing AUTN"),
    };
    if autn.len() != 16 {
        return malformed("AUTN must be exactly 16 bytes");
    }
    Ok(
        Nas5gsPdu::AuthenticationRequest(
            Decoded5gAuthenticationRequest {
                ng_ksi: low_three_bits(body[0]),
                rand: to_array::<16>(rand),
                autn: to_array::<16>(autn),
            },
        ),
    )
}

fn decode_auth_response(body: &[u8]) -> (r: Result<Nas5gsPdu, ProtoError>)
    ensures
        decoded(r) == auth_response_from(body@),
{
    let (res_star, _) = match read_lv(body) {
        Some(v) => v,
        None => return malformed("missing RES*"),
    };
    if res_star.len() != 16 {
        return malformed("RES* must be exactly 16 bytes");
    }
    Ok(Nas5gsPdu::AuthenticationResponse(Decoded5gAuthenticationResponse { res_star: to_array::<16>(res_star) }))
}

fn decode_sec_mode_cmd(body: &[u8]) -> (r: Result<Nas5gsPdu, ProtoError>)
    ensures
        decoded(r) == sec_mode_cmd_from(body@),
{
    if body.len() < 3 {
        return Err(ProtoError::TooShort { expected: 3, got: body.len() });
    }
    Ok(
        Nas5gsPdu::SecurityModeCommand(
            Decoded5gSecurityModeCommand {
                cipher: high_nibble(body[0]),
                integrity: low_nibble(body[0]),
                ue_security_cap: read_u16(&body[1..3]),
            },
        ),
    )
}

fn decode_registration_accept(body: &[u8]) -> (r: Result<Nas5gsPdu, ProtoError>)
    ensures
        decoded(r) == registration_accept_from(body@),
{
    let len: usize = body.len();
    if len == 0 {
        return Err(ProtoError::TooShort { expected: 1, got: 0 });
    }
    let (guti, _) = match read_lv(&body[1..len]) {
        Some(v) => v,
        None => return malformed("missing 5G-GUTI"),
    };
    if guti.len() != 11 {
        return malformed("5G-GUTI must be exactly 11 bytes");
    }
    Ok(
        Nas5gsPdu::RegistrationAccept(
            DecodedRegistrationAccept { registration_result: low_three_bits(body[0]), guti: to_array::<11>(guti) },
        ),
    )
}

fn decode_deregistration_request(body: &[u8]) -> (r: Result<Nas5gsPdu, ProtoError>)
    ensures
        decoded(r) == deregistration_request_from(body@),
{
    if body.len() == 0 {
        return Err(ProtoError::TooShort { expected: 1, got: 0 });
    }
    Ok(Nas5gsPdu::DeregistrationRequest { switch_off: low_nibble(body[0]) >= 8 })
}

// ── Protected envelope ────────────────────────────────────────────────────────

/// The envelope of a protected PDU.
pub open spec fn envelope(sht: u8, mac_i: Seq<u8>, count: u32, payload: Seq<u8>) -> Seq<u8> {
    seq![NAS5GS_EPD, (sht % 16) as u8] + mac_i + seq![(count % 256) as u8] + payload
}

/// MAC-I, sequence number and payload of an envelope; `None` when it is too
/// short, of another protocol, or marked as plain.
pub open spec fn envelope_parts(d: Seq<u8>) -> Option<(Seq<u8>, u8, Seq<u8>)> {
    if d.len() < 7 || d[0] != NAS5GS_EPD || d[1] % 16 == NAS5GS_SHT_PLAIN {
        None
    } else {
        Some((d.subrange(2, 6), d[6], d.subrange(7, d.len() as int)))
    }
}

/// An envelope is taken apart into what it was made of.
pub proof fn envelope_round_trip(sht: u8, mac_i: Seq<u8>, count: u32, payload: Seq<u8>)
    requires
        sht % 16 != 0,
        mac_i.len() == 4,
    ensures
        envelope_parts(envelope(sht, mac_i, count, payload)) == Some((mac_i, (count % 256) as u8, payload)),
{
    let d = envelope(sht, mac_i, count, payload);
    assert(d.subrange(2, 6) =~= mac_i);
    assert(d.subrange(7, d.len() as int) =~= payload);
}

fn seal(sht: u8, protected: &ProtectedNas) -> (b: Bytes)
    ensures
        octets_of(b) == envelope(sht, protected.mac_i@, protected.count, protected.payload@),
{
    let mut buf: Vec<u8> = Vec::new();
    buf.push(NAS5GS_EPD);
    buf.push(low_nibble(sht));
    append(&mut buf, protected.mac_i.as_slice());
    buf.push((protected.count % 256) as u8);
    append(&mut buf, protected.payload.as_slice());
    assert(buf@ =~= envelope(sht, protected.mac_i@, protected.count, protected.payload@));
    bytes_from_vec(buf)
}

fn open_envelope<'a>(buf: &'a [u8]) -> (r: Option<([u8; 4], u8, &'a [u8])>)
    ensures
        match envelope_parts(buf@) {
            Some((mac_i, seq, payload)) => r is Some && (r->0).0@ == mac_i && (r->0).1 == seq && (r->0).2@ == payload,
            None => r is None,
        },
{
    let len: usize = buf.len();
    if len < 7 || buf[0] != NAS5GS_EPD || low_nibble(buf[1]) == NAS5GS_SHT_PLAIN {
        return None;
    }
    Some((to_array::<4>(&buf[2..6]), buf[6], &buf[7..len]))
}

/// The envelope that the network makes of a plain PDU.
pub open spec fn sealed_downlink(ctx: NasSecurityContextView, sht: u8, plain: Seq<u8>) -> Seq<u8> {
    let payload = ctx.payload(ctx.dl_count, NAS5GS_BEARER, Direction::Downlink, plain);
    envelope(sht, ctx.mac_i(ctx.dl_count, NAS5GS_BEARER, Direction::Downlink, payload), ctx.dl_count, payload)
}

/// The envelope that the UE makes of a plain PDU.
pub open spec fn sealed_uplink(ctx: NasSecurityContextView, sht: u8, plain: Seq<u8>) -> Seq<u8> {
    let payload = ctx.payload(ctx.ul_count, NAS5GS_BEARER, Direction::Uplink, plain);
    envelope(sht, ctx.mac_i(ctx.ul_count, NAS5GS_BEARER, Direction::Uplink, payload), ctx.ul_count, payload)
}

/// What the network makes of a received envelope, and its context then.
pub open spec fn unsealed_uplink(ctx: NasSecurityContextView, d: Seq<u8>) -> (Option<Seq<u8>>, NasSecurityContextView) {
    match envelope_parts(d) {
        None => (None, ctx),
        Some((mac_i, seq, ciphertext)) => {
            let count = reconstructed(ctx.ul_count, seq);
            match ctx.opened(count, NAS5GS_BEARER, Direction::Uplink, mac_i, ciphertext) {
                None => (None, ctx),
                Some(plain) => (Some(plain), ctx.with_ul_count(next_count(count))),
            }
        },
    }
}

/// What the UE makes of a received envelope, and its context then.
pub open spec fn unsealed_downlink(ctx: NasSecurityContextView, d: Seq<u8>) -> (
    Option<Seq<u8>>,
    NasSecurityContextView,
) {
    match envelope_parts(d) {
        None => (None, ctx),
        Some((mac_i, seq, ciphertext)) => {
            let count = reconstructed(ctx.dl_count, seq);
            match ctx.opened(count, NAS5GS_BEARER, Direction::Downlink, mac_i, ciphertext) {
                None => (None, ctx),
                Some(plain) => (Some(plain), ctx.with_dl_count(next_count(count))),
            }
        },
    }
}

/// Wraps a plain PDU for the downlink.
pub fn encode_protected(ctx: &mut Nas5gsSecurityContext, sht: u8, inner_plain: &[u8]) -> (b: Bytes)
    ensures
        octets_of(b) == sealed_downlink(old(ctx)@, sht, inner_plain@),
        final(ctx)@ == (old(ctx)@).with_dl_count(next_count((old(ctx)@).dl_count)),
{
    let protected = ctx.ctx.protect_downlink(NAS5GS_BEARER, inner_plain);
    seal(sht, &protected)
}

/// Unwraps an uplink envelope. `None` when it is malformed or its MAC-I does
/// not verify; the context is unchanged then.
pub fn decode_protected(ctx: &mut Nas5gsSecurityContext, buf: &[u8]) -> (r: Option<Vec<u8>>)
    ensures
        final(ctx)@ == unsealed_uplink(old(ctx)@, buf@).1,
        match unsealed_uplink(old(ctx)@, buf@).0 {
            Some(plain) => r is Some && r->0@ == plain,
            None => r is None,
        },
{
    match open_envelope(buf) {
        None => None,
        Some((mac_i, seq_byte, ciphertext)) => ctx.ctx.unprotect_uplink(NAS5GS_BEARER, seq_byte, mac_i, ciphertext),
    }
}

/// Wraps a plain PDU for the uplink.
pub fn encode_protected_uplink(ctx: &mut Nas5gsSecurityContext, sht: u8, inner_plain: &[u8]) -> (b: Bytes)
    ensures
        octets_of(b) == sealed_uplink(old(ctx)@, sht, inner_plain@),
        final(ctx)@ == (old(ctx)@).with_ul_count(next_count((old(ctx)@).ul_count)),
{
    let protected = ctx.ctx.protect_uplink(NAS5GS_BEARER, inner_plain);
    seal(sht, &protected)
}

/// Unwraps a downlink envelope.
pub fn decode_protected_downlink(ctx: &mut Nas5gsSecurityContext, buf: &[u8]) -> (r: Option<Vec<u8>>)
    ensures
        final(ctx)@ == unsealed_downlink(old(ctx)@, buf@).1,
        match unsealed_downlink(old(ctx)@, buf@).0 {
            Some(plain) => r is Some && r->0@ == plain,
            None => r is None,
        },
{
    match open_envelope(buf) {
        None => None,
        Some((mac_i, seq_byte, ciphertext)) => ctx.ctx.unprotect_downlink(
            NAS5GS_BEARER,
            seq_byte,
            mac_i,
            ciphertext,
        ),
    }
}

} // verus!
