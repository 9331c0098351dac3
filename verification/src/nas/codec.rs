//! NAS messages of the LTE attach and detach procedures (3GPP TS 24.301).
//!
//! ```text
//! UE → MME : AttachRequest
//! MME → UE : AuthenticationRequest
//! UE → MME : AuthenticationResponse
//! MME → UE : SecurityModeCommand
//! UE → MME : SecurityModeComplete
//! MME → UE : AttachAccept
//! UE → MME : AttachComplete
//! UE → MME : DetachRequest
//! MME → UE : DetachAccept
//! ```
//!
//! A plain PDU is the octet 0x07 (EPS mobility management, no security), the
//! message type, and the IEs. A protected PDU is an envelope around a plain
//! one:
//!
//! ```text
//! Octet 1     : security header type (high nibble), 0x7 (low nibble)
//! Octets 2-5  : MAC-I
//! Octet 6     : NAS sequence number, the low-order octet of COUNT
//! Octets 7+   : a complete plain PDU, ciphered unless the algorithm is Eea0
//! ```
//!
//! The length octet of an LV or TLV field bounds its value to 255 octets.

use bytes::Bytes;
use vstd::prelude::*;
use vstd::utf8::{decode_utf8, encode_utf8, valid_utf8};

use crate::error::ProtoError;
use crate::nas::ie::{
    decode_imsi, decode_security_algorithms, encode_imsi, encode_security_algorithms, high_nibble, imsi_octets,
    imsi_of, imsi_round_trip, low_nibble, low_three_bits, lv, lv_octets, nibbles, read_lv, read_tlv, tlv, tlv_octets,
    write_lv, write_tlv, NasEeaAlgorithm, NasEiaAlgorithm,
};
use crate::nas::security::{
    next_count, reconstructed, Direction, NasSecurityContext, NasSecurityContextView, ProtectedNas,
};
use crate::octets::{append, bytes_from_vec, octets_of, to_array, to_vec};

verus! {

/// Protocol discriminator: EPS mobility management.
pub const NAS_EPS_MM_PD: u8 = 0x07;

/// First octet of a plain PDU.
pub const NAS_PLAIN_HEADER: u8 = 0x07;

// Message types (TS 24.301, table 9.8.1).
pub const MT_ATTACH_REQUEST: u8 = 0x41;

pub const MT_ATTACH_ACCEPT: u8 = 0x42;

pub const MT_ATTACH_COMPLETE: u8 = 0x43;

pub const MT_DETACH_REQUEST: u8 = 0x45;

pub const MT_DETACH_ACCEPT: u8 = 0x46;

pub const MT_AUTHENTICATION_REQUEST: u8 = 0x52;

pub const MT_AUTHENTICATION_RESPONSE: u8 = 0x53;

pub const MT_AUTHENTICATION_REJECT: u8 = 0x54;

pub const MT_SECURITY_MODE_COMMAND: u8 = 0x5D;

pub const MT_SECURITY_MODE_COMPLETE: u8 = 0x5E;

pub const MT_SECURITY_MODE_REJECT: u8 = 0x5F;

// Optional IEs of AttachAccept.
pub const IEI_GUTI: u8 = 0x50;

pub const IEI_APN: u8 = 0x28;

pub const IEI_PDN_ADDR: u8 = 0x29;

/// PDN address type in AttachAccept.
pub const PDN_TYPE_IPV4: u8 = 0x01;

// Security header types (TS 24.301, table 9.3.1).
pub const SHT_PLAIN: u8 = 0;

pub const SHT_INTEGRITY: u8 = 1;

pub const SHT_INTEGRITY_CIPHERED: u8 = 2;

pub const SHT_INTEGRITY_NEW_CTX: u8 = 3;

pub const SHT_INTEGRITY_CIPHERED_NEW_CTX: u8 = 4;

// ── Decoded messages ──────────────────────────────────────────────────────────

/// A decoded NAS PDU.
#[derive(Debug, Clone)]
pub enum NasPdu {
    AttachRequest(DecodedAttachRequest),
    AuthenticationRequest(DecodedAuthenticationRequest),
    AuthenticationResponse(DecodedAuthenticationResponse),
    SecurityModeCommand(DecodedSecurityModeCommand),
    SecurityModeComplete,
    AttachAccept(DecodedAttachAccept),
    AttachComplete,
    DetachRequest(DecodedDetachRequest),
    DetachAccept,
}

#[derive(Debug, Clone)]
pub struct DecodedAttachRequest {
    pub eps_attach_type: u8,
    pub nas_ksi: u8,
    /// `None` when the identity is no IMSI (attach with a GUTI).
    pub imsi: Option<u64>,
    pub ue_network_cap: Vec<u8>,
}

#[derive(Debug, Clone)]
pub struct DecodedAuthenticationRequest {
    pub nas_ksi: u8,
    pub rand: [u8; 16],
    pub autn: [u8; 16],
}

#[derive(Debug, Clone)]
pub struct DecodedAuthenticationResponse {
    pub res: [u8; 8],
}

#[derive(Debug, Clone)]
pub struct DecodedSecurityModeCommand {
    pub eea: NasEeaAlgorithm,
    pub eia: NasEiaAlgorithm,
    pub nas_ksi: u8,
}

#[derive(Debug, Clone)]
pub struct DecodedAttachAccept {
    pub attach_result: u8,
    pub t3412_value: u8,
    pub guti: Option<[u8; 10]>,
    pub ip_address: Option<[u8; 4]>,
    pub apn: Option<String>,
}

/// A DetachRequest of the UE.
#[derive(Debug, Clone, Copy, PartialEq, Eq)]
pub struct DecodedDetachRequest {
    /// Three bits: 1 EPS, 2 IMSI, 3 combined.
    pub detach_type: u8,
    /// The UE is powering down and will not process an answer.
    pub switch_off: bool,
    pub nas_ksi: u8,
}

#[verifier::ext_equal]
pub enum NasPduView {
    AttachRequest { eps_attach_type: u8, nas_ksi: u8, imsi: Option<u64>, ue_network_cap: Seq<u8> },
    AuthenticationRequest { nas_ksi: u8, rand: Seq<u8>, autn: Seq<u8> },
    AuthenticationResponse { res: Seq<u8> },
    SecurityModeCommand { eea: NasEeaAlgorithm, eia: NasEiaAlgorithm, nas_ksi: u8 },
    SecurityModeComplete,
    AttachAccept { attach_result: u8, t3412_value: u8, optional: AcceptFields },
    AttachComplete,
    DetachRequest { detach_type: u8, switch_off: bool, nas_ksi: u8 },
    DetachAccept,
}

/// The optional fields of AttachAccept.
#[verifier::ext_equal]
pub struct AcceptFields {
    pub guti: Option<Seq<u8>>,
    pub ip_address: Option<Seq<u8>>,
    pub apn: Option<Seq<char>>,
}

pub open spec fn opt_guti(a: Option<[u8; 10]>) -> Option<Seq<u8>> {
    match a {
        Some(x) => Some(x@),
        None => None,
    }
}

pub open spec fn opt_ip(a: Option<[u8; 4]>) -> Option<Seq<u8>> {
    match a {
        Some(x) => Some(x@),
        None => None,
    }
}

pub open spec fn opt_text(a: Option<String>) -> Option<Seq<char>> {
    match a {
        Some(x) => Some(x@),
        None => None,
    }
}

impl View for NasPdu {
    type V = NasPduView;

    open spec fn view(&self) -> NasPduView {
        match *self {
            NasPdu::AttachRequest(m) => NasPduView::AttachRequest {
                eps_attach_type: m.eps_attach_type,
                nas_ksi: m.nas_ksi,
                imsi: m.imsi,
                ue_network_cap: m.ue_network_cap@,
            },
            NasPdu::AuthenticationRequest(m) => NasPduView::AuthenticationRequest {
                nas_ksi: m.nas_ksi,
                rand: m.rand@,
                autn: m.autn@,
            },
            NasPdu::AuthenticationResponse(m) => NasPduView::AuthenticationResponse { res: m.res@ },
            NasPdu::SecurityModeCommand(m) => NasPduView::SecurityModeCommand {
                eea: m.eea,
                eia: m.eia,
                nas_ksi: m.nas_ksi,
            },
            NasPdu::SecurityModeComplete => NasPduView::SecurityModeComplete,
            NasPdu::AttachAccept(m) => NasPduView::AttachAccept {
                attach_result: m.attach_result,
                t3412_value: m.t3412_value,
                optional: AcceptFields {
                    guti: opt_guti(m.guti),
                    ip_address: opt_ip(m.ip_address),
                    apn: opt_text(m.apn),
                },
            },
            NasPdu::AttachComplete => NasPduView::AttachComplete,
            NasPdu::DetachRequest(m) => NasPduView::DetachRequest {
                detach_type: m.detach_type,
                switch_off: m.switch_off,
                nas_ksi: m.nas_ksi,
            },
            NasPdu::DetachAccept => NasPduView::DetachAccept,
        }
    }
}

/// A decoding result over views.
pub open spec fn decoded(r: Result<NasPdu, ProtoError>) -> Result<NasPduView, ProtoError> {
    match r {
        Ok(m) => Ok(m@),
        Err(e) => Err(e),
    }
}

// ── What octets denote ────────────────────────────────────────────────────────

pub open spec fn spec_malformed<T>(reason: &'static str) -> Result<T, ProtoError> {
    Err(ProtoError::MalformedNas { reason })
}

pub open spec fn spec_too_short<T>(expected: usize, got: nat) -> Result<T, ProtoError> {
    Err(ProtoError::TooShort { expected, got: got as usize })
}

pub open spec fn attach_request_from(body: Seq<u8>) -> Result<NasPduView, ProtoError> {
    if body.len() == 0 {
        spec_too_short(3, 0)
    } else {
        match lv(body.subrange(1, body.len() as int)) {
            None => spec_malformed("missing mobile identity"),
            Some((identity, rest)) => Ok(
                NasPduView::AttachRequest {
                    eps_attach_type: (body[0] % 8) as u8,
                    nas_ksi: (body[0] / 16 % 8) as u8,
                    imsi: imsi_of(identity),
                    ue_network_cap: match lv(rest) {
                        Some((cap, _)) => cap,
                        None => Seq::empty(),
                    },
                },
            ),
        }
    }
}

pub open spec fn auth_request_from(body: Seq<u8>) -> Result<NasPduView, ProtoError> {
    if body.len() < 1 {
        spec_too_short(35, 0)
    } else {
        match lv(body.subrange(1, body.len() as int)) {
            None => spec_malformed("missing RAND"),
            Some((rand, rest)) => if rand.len() != 16 {
                spec_malformed("RAND must be exactly 16 bytes")
            } else {
                match lv(rest) {
                    None => spec_malformed("missing AUTN"),
                    Some((autn, _)) => if autn.len() != 16 {
                        spec_malformed("AUTN must be exactly 16 bytes")
                    } else {
                        Ok(NasPduView::AuthenticationRequest { nas_ksi: (body[0] / 16 % 8) as u8, rand, autn })
                    },
                }
            },
        }
    }
}

pub open spec fn auth_response_from(body: Seq<u8>) -> Result<NasPduView, ProtoError> {
    match lv(body) {
        None => spec_malformed("missing RES"),
        Some((res, _)) => if res.len() != 8 {
            spec_malformed("RES must be exactly 8 bytes")
        } else {
            Ok(NasPduView::AuthenticationResponse { res })
        },
    }
}

pub open spec fn sec_mode_cmd_from(body: Seq<u8>) -> Result<NasPduView, ProtoError> {
    if body.len() < 2 {
        spec_too_short(2, body.len())
    } else {
        Ok(
            NasPduView::SecurityModeCommand {
                eea: NasEeaAlgorithm::spec_from_id((body[0] / 16 % 8) as u8),
                eia: NasEiaAlgorithm::spec_from_id((body[0] % 8) as u8),
                nas_ksi: (body[1] / 16 % 8) as u8,
            },
        )
    }
}

/// The text that octets hold in UTF-8.
pub open spec fn utf8_text(d: Seq<u8>) -> Option<Seq<char>> {
    if valid_utf8(d) {
        Some(decode_utf8(d))
    } else {
        None
    }
}

impl AcceptFields {
    /// The fields after one more IE. A GUTI counts with ten octets, a PDN
    /// address when it is an IPv4 one; an APN that is no text clears the field.
    pub open spec fn with(self, iei: u8, value: Seq<u8>) -> AcceptFields {
        if iei == IEI_GUTI && value.len() == 10 {
            AcceptFields { guti: Some(value), ..self }
        } else if iei == IEI_PDN_ADDR && value.len() >= 5 && value[0] == PDN_TYPE_IPV4 {
            AcceptFields { ip_address: Some(value.subrange(1, 5)), ..self }
        } else if iei == IEI_APN {
            AcceptFields { apn: utf8_text(value), ..self }
        } else {
            self
        }
    }

    /// The fields after the IEs of `d`, up to the first that is cut short.
    pub open spec fn with_all(self, d: Seq<u8>) -> AcceptFields
        decreases d.len(),
    {
        match tlv(d) {
            None => self,
            Some((iei, value, rest)) => self.with(iei, value).with_all(rest),
        }
    }

    pub open spec fn none() -> AcceptFields {
        AcceptFields { guti: None, ip_address: None, apn: None }
    }
}

/// What follows the TAI list; all of it when there is no complete list.
pub open spec fn after_tai_list(d: Seq<u8>) -> Seq<u8> {
    match lv(d) {
        Some((_, rest)) => rest,
        None => d,
    }
}

pub open spec fn attach_accept_from(body: Seq<u8>) -> Result<NasPduView, ProtoError> {
    if body.len() < 2 {
        spec_too_short(2, body.len())
    } else {
        Ok(
            NasPduView::AttachAccept {
                attach_result: (body[0] % 8) as u8,
                t3412_value: body[1],
                optional: AcceptFields::none().with_all(after_tai_list(body.subrange(2, body.len() as int))),
            },
        )
    }
}

pub open spec fn detach_request_from(body: Seq<u8>) -> Result<NasPduView, ProtoError> {
    if body.len() == 0 {
        spec_too_short(1, 0)
    } else {
        Ok(
            NasPduView::DetachRequest {
                detach_type: (body[0] % 8) as u8,
                switch_off: body[0] % 16 >= 8,
                nas_ksi: (body[0] / 16 % 8) as u8,
            },
        )
    }
}

/// The plain PDU that octets denote.
#[verifier::opaque]
pub open spec fn nas_pdu(d: Seq<u8>) -> Result<NasPduView, ProtoError> {
    let body = d.subrange(2, d.len() as int);
    if d.len() < 2 {
        spec_too_short(2, d.len())
    } else if d[0] % 16 != NAS_EPS_MM_PD {
        spec_malformed("expected EPS-MM protocol discriminator 0x7")
    } else if d[0] / 16 != 0 {
        spec_malformed("protected NAS not supported in Phase 2")
    } else if d[1] == MT_ATTACH_REQUEST {
        attach_request_from(body)
    } else if d[1] == MT_AUTHENTICATION_REQUEST {
        auth_request_from(body)
    } else if d[1] == MT_AUTHENTICATION_RESPONSE {
        auth_response_from(body)
    } else if d[1] == MT_SECURITY_MODE_COMMAND {
        sec_mode_cmd_from(body)
    } else if d[1] == MT_SECURITY_MODE_COMPLETE {
        Ok(NasPduView::SecurityModeComplete)
    } else if d[1] == MT_ATTACH_ACCEPT {
        attach_accept_from(body)
    } else if d[1] == MT_ATTACH_COMPLETE {
        Ok(NasPduView::AttachComplete)
    } else if d[1] == MT_DETACH_REQUEST {
        detach_request_from(body)
    } else if d[1] == MT_DETACH_ACCEPT {
        Ok(NasPduView::DetachAccept)
    } else {
        Err(ProtoError::UnknownGtpMsgType(d[1]))
    }
}

fn malformed<T>(reason: &'static str) -> (r: Result<T, ProtoError>)
    ensures
        r == spec_malformed::<T>(reason),
{
    Err(ProtoError::MalformedNas { reason })
}

/// Decodes a plain PDU. A protected one is refused: it goes through
/// `decode_protected` first.
pub fn decode_nas(buf: &[u8]) -> (r: Result<NasPdu, ProtoError>)
    ensures
        decoded(r) == nas_pdu(buf@),
{
    proof {
        reveal(nas_pdu);
    }
    let len: usize = buf.len();
    if len < 2 {
        return Err(ProtoError::TooShort { expected: 2, got: len });
    }
    if low_nibble(buf[0]) != NAS_EPS_MM_PD {
        return malformed("expected EPS-MM protocol discriminator 0x7");
    }
    if high_nibble(buf[0]) != 0 {
        return malformed("protected NAS not supported in Phase 2");
    }
    let body = &buf[2..len];
    match buf[1] {
        MT_ATTACH_REQUEST => decode_attach_request(body),
        MT_AUTHENTICATION_REQUEST => decode_auth_request(body),
        MT_AUTHENTICATION_RESPONSE => decode_auth_response(body),
        MT_SECURITY_MODE_COMMAND => decode_sec_mode_cmd(body),
        MT_SECURITY_MODE_COMPLETE => Ok(NasPdu::SecurityModeComplete),
        MT_ATTACH_ACCEPT => decode_attach_accept(body),
        MT_ATTACH_COMPLETE => Ok(NasPdu::AttachComplete),
        MT_DETACH_REQUEST => decode_detach_request(body),
        MT_DETACH_ACCEPT => Ok(NasPdu::DetachAccept),
        other => Err(ProtoError::UnknownGtpMsgType(other)),
    }
}

// ── Attach Request ────────────────────────────────────────────────────────────

fn decode_attach_request(body: &[u8]) -> (r: Result<NasPdu, ProtoError>)
    ensures
        decoded(r) == attach_request_from(body@),
{
    let len: usize = body.len();
    if len == 0 {
        return Err(ProtoError::TooShort { expected: 3, got: 0 });
    }
    let eps_attach_type: u8 = low_three_bits(body[0]);
    let nas_ksi: u8 = low_three_bits(high_nibble(body[0]));
    let (identity, rest) = match read_lv(&body[1..len]) {
        Some(v) => v,
        None => return malformed("missing mobile identity"),
    };
    let imsi = decode_imsi(identity);
    let ue_network_cap = match read_lv(rest) {
        Some((cap, _)) => to_vec(cap),
        None => Vec::new(),
    };
    Ok(NasPdu::AttachRequest(DecodedAttachRequest { eps_attach_type, nas_ksi, imsi, ue_network_cap }))
}

/// UE network capability of an AttachRequest: EEA2 and EIA2.
pub open spec fn attach_request_capability() -> Seq<u8> {
    seq![0x20u8, 0x40]
}

pub open spec fn attach_request_octets(imsi: u64, eps_attach_type: u8, nas_ksi: u8) -> Seq<u8> {
    seq![NAS_PLAIN_HEADER, MT_ATTACH_REQUEST, (nas_ksi % 8 * 16 + eps_attach_type % 8) as u8] + lv_octets(
        imsi_octets(imsi as nat),
    ) + lv_octets(attach_request_capability())
}

pub fn encode_attach_request(imsi: u64, eps_attach_type: u8, nas_ksi: u8) -> (b: Bytes)
    ensures
        octets_of(b) == attach_request_octets(imsi, eps_attach_type, nas_ksi),
{
    let mut buf: Vec<u8> = vec![
        NAS_PLAIN_HEADER,
        MT_ATTACH_REQUEST,
        nibbles(low_three_bits(nas_ksi), low_three_bits(eps_attach_type)),
    ];
    proof {
        imsi_round_trip(imsi);
    }
    let imsi_bytes = encode_imsi(imsi);
    write_lv(&mut buf, imsi_bytes.as_slice());
    let capability: [u8; 2] = [0x20, 0x40];
    assert(capability@ =~= attach_request_capability());
    write_lv(&mut buf, capability.as_slice());
    assert(buf@ =~= attach_request_octets(imsi, eps_attach_type, nas_ksi));
    bytes_from_vec(buf)
}

// ── Authentication Request ────────────────────────────────────────────────────

fn decode_auth_request(body: &[u8]) -> (r: Result<NasPdu, ProtoError>)
    ensures
        decoded(r) == auth_request_from(body@),
{
    let len: usize = body.len();
    if len < 1 {
        return Err(ProtoError::TooShort { expected: 35, got: len });
    }
    let nas_ksi: u8 = low_three_bits(high_nibble(body[0]));
    let (rand, rest) = match read_lv(&body[1..len]) {
        Some(v) => v,
        None => return malformed("missing RAND"),
    };
    if rand.len() != 16 {
        return malformed("RAND must be exactly 16 bytes");
    }
    let (autn, _) = match read_lv(rest) {
        Some(v) => v,
        None => return malformed("missing AUTN"),
    };
    if autn.len() != 16 {
        return malformed("AUTN must be exactly 16 bytes");
    }
    Ok(
        NasPdu::AuthenticationRequest(
            DecodedAuthenticationRequest { nas_ksi, rand: to_array::<16>(rand), autn: to_array::<16>(autn) },
        ),
    )
}

pub open spec fn auth_request_octets(nas_ksi: u8, rand: Seq<u8>, autn: Seq<u8>) -> Seq<u8> {
    seq![NAS_PLAIN_HEADER, MT_AUTHENTICATION_REQUEST, (nas_ksi % 8 * 16) as u8] + lv_octets(rand) + lv_octets(autn)
}

pub fn encode_auth_request(nas_ksi: u8, rand: &[u8; 16], autn: &[u8; 16]) -> (b: Bytes)
    ensures
        octets_of(b) == auth_request_octets(nas_ksi, rand@, autn@),
{
    let mut buf: Vec<u8> = vec![NAS_PLAIN_HEADER, MT_AUTHENTICATION_REQUEST, nibbles(low_three_bits(nas_ksi), 0)];
    write_lv(&mut buf, rand.as_slice());
    write_lv(&mut buf, autn.as_slice());
    assert(buf@ =~= auth_request_octets(nas_ksi, rand@, autn@));
    bytes_from_vec(buf)
}

// ── Authentication Response ───────────────────────────────────────────────────

fn decode_auth_response(body: &[u8]) -> (r: Result<NasPdu, ProtoError>)
    ensures
        decoded(r) == auth_response_from(body@),
{
    let (res, _) = match read_lv(body) {
        Some(v) => v,
        None => return malformed("missing RES"),
    };
    if res.len() != 8 {
        return malformed("RES must be exactly 8 bytes");
    }
    Ok(NasPdu::AuthenticationResponse(DecodedAuthenticationResponse { res: to_array::<8>(res) }))
}

pub open spec fn auth_response_octets(res: Seq<u8>) -> Seq<u8> {
    seq![NAS_PLAIN_HEADER, MT_AUTHENTICATION_RESPONSE] + lv_octets(res)
}

pub fn encode_auth_response(res: &[u8; 8]) -> (b: Bytes)
    ensures
        octets_of(b) == auth_response_octets(res@),
{
    let mut buf: Vec<u8> = vec![NAS_PLAIN_HEADER, MT_AUTHENTICATION_RESPONSE];
    write_lv(&mut buf, res.as_slice());
    assert(buf@ =~= auth_response_octets(res@));
    bytes_from_vec(buf)
}

// ── Security Mode Command / Complete ──────────────────────────────────────────

fn decode_sec_mode_cmd(body: &[u8]) -> (r: Result<NasPdu, ProtoError>)
    ensures
        decoded(r) == sec_mode_cmd_from(body@),
{
    if body.len() < 2 {
        return Err(ProtoError::TooShort { expected: 2, got: body.len() });
    }
    let (eea, eia) = decode_security_algorithms(body[0]);
    let nas_ksi: u8 = low_three_bits(high_nibble(body[1]));
    Ok(NasPdu::SecurityModeCommand(DecodedSecurityModeCommand { eea, eia, nas_ksi }))
}

pub open spec fn sec_mode_cmd_octets(
    eea: NasEeaAlgorithm,
    eia: NasEiaAlgorithm,
    nas_ksi: u8,
    ue_cap: Seq<u8>,
) -> Seq<u8> {
    seq![
        NAS_PLAIN_HEADER,
        MT_SECURITY_MODE_COMMAND,
        (16 * eea.spec_id() + eia.spec_id()) as u8,
        (nas_ksi % 8 * 16) as u8,
    ] + lv_octets(ue_cap)
}

/// `ue_cap` are the UE security capabilities, replayed to the UE.
pub fn encode_sec_mode_cmd(eea: NasEeaAlgorithm, eia: NasEiaAlgorithm, nas_ksi: u8, ue_cap: &[u8]) -> (b: Bytes)
    requires
        ue_cap@.len() <= 255,
    ensures
        octets_of(b) == sec_mode_cmd_octets(eea, eia, nas_ksi, ue_cap@),
{
    let mut buf: Vec<u8> = vec![
        NAS_PLAIN_HEADER,
        MT_SECURITY_MODE_COMMAND,
        encode_security_algorithms(eea, eia),
        nibbles(low_three_bits(nas_ksi), 0),
    ];
    write_lv(&mut buf, ue_cap);
    assert(buf@ =~= sec_mode_cmd_octets(eea, eia, nas_ksi, ue_cap@));
    bytes_from_vec(buf)
}

/// A PDU without IEs.
pub open spec fn bare_octets(message_type: u8) -> Seq<u8> {
    seq![NAS_PLAIN_HEADER, message_type]
}

fn encode_bare(message_type: u8) -> (b: Bytes)
    ensures
        octets_of(b) == bare_octets(message_type),
{
    let buf: Vec<u8> = vec![NAS_PLAIN_HEADER, message_type];
    assert(buf@ =~= bare_octets(message_type));
    bytes_from_vec(buf)
}

pub fn encode_sec_mode_complete() -> (b: Bytes)
    ensures
        octets_of(b) == bare_octets(MT_SECURITY_MODE_COMPLETE),
{
    encode_bare(MT_SECURITY_MODE_COMPLETE)
}

// ── Attach Accept / Complete ──────────────────────────────────────────────────

/// `String::from_utf8`: the text that the octets hold when they are valid
/// UTF-8, an error otherwise.
#[verifier::external_body]
fn string_from_utf8(v: Vec<u8>) -> (s: Option<String>)
    ensures
        opt_text(s) == utf8_text(v@),
{
    String::from_utf8(v).ok()
}

fn decode_attach_accept(body: &[u8]) -> (r: Result<NasPdu, ProtoError>)
    ensures
        decoded(r) == attach_accept_from(body@),
{
    let len: usize = body.len();
    if len < 2 {
        return Err(ProtoError::TooShort { expected: 2, got: len });
    }
    let attach_result: u8 = low_three_bits(body[0]);
    let t3412_value: u8 = body[1];
    let mut guti: Option<[u8; 10]> = None;
    let mut ip_address: Option<[u8; 4]> = None;
    let mut apn: Option<String> = None;
    let rest = &body[2..len];
    let rest = match read_lv(rest) {
        Some((_, r)) => r,
        None => rest,
    };
    let mut remaining = rest;
    let ghost wanted = AcceptFields::none().with_all(rest@);
    loop
        invariant
            wanted == (AcceptFields {
                guti: opt_guti(guti),
                ip_address: opt_ip(ip_address),
                apn: opt_text(apn),
            }).with_all(remaining@),
        ensures
            wanted == (AcceptFields { guti: opt_guti(guti), ip_address: opt_ip(ip_address), apn: opt_text(apn) }),
        decreases remaining@.len(),
    {
        match read_tlv(remaining) {
            None => {
                break;
            },
            Some((iei, value, after)) => {
                if iei == IEI_GUTI {
                    if value.len() == 10 {
                        guti = Some(to_array::<10>(value));
                    }
                } else if iei == IEI_PDN_ADDR {
                    if value.len() >= 5 && value[0] == PDN_TYPE_IPV4 {
                        ip_address = Some(to_array::<4>(&value[1..5]));
                    }
                } else if iei == IEI_APN {
                    apn = string_from_utf8(to_vec(value));
                }
                remaining = after;
            },
        }
    }
    Ok(NasPdu::AttachAccept(DecodedAttachAccept { attach_result, t3412_value, guti, ip_address, apn }))
}

/// Tracking area identities, one after the other.
pub open spec fn tai_octets(tai_list: Seq<[u8; 5]>) -> Seq<u8>
    decreases tai_list.len(),
{
    if tai_list.len() == 0 {
        Seq::empty()
    } else {
        tai_octets(tai_list.drop_last()) + tai_list.last()@
    }
}

/// The value of a TAI list: type of list and count, then the identities;
/// nothing for an empty list.
pub open spec fn tai_list_value(tai_list: Seq<[u8; 5]>) -> Seq<u8> {
    if tai_list.len() == 0 {
        Seq::empty()
    } else {
        seq![((tai_list.len() - 1) as u8) | 0x18u8] + tai_octets(tai_list)
    }
}

pub open spec fn attach_accept_octets(
    attach_result: u8,
    t3412_value: u8,
    tai_list: Seq<[u8; 5]>,
    ip_address: Option<Seq<u8>>,
    apn: Option<Seq<char>>,
) -> Seq<u8> {
    seq![NAS_PLAIN_HEADER, MT_ATTACH_ACCEPT, (attach_result % 8) as u8, t3412_value] + lv_octets(
        tai_list_value(tai_list),
    ) + (match ip_address {
        Some(ip) => tlv_octets(IEI_PDN_ADDR, seq![PDN_TYPE_IPV4] + ip),
        None => Seq::empty(),
    }) + (match apn {
        Some(text) => tlv_octets(IEI_APN, encode_utf8(text)),
        None => Seq::empty(),
    })
}

proof fn lemma_tai_octets_len(tai_list: Seq<[u8; 5]>)
    ensures
        tai_octets(tai_list).len() == 5 * tai_list.len(),
    decreases tai_list.len(),
{
    if tai_list.len() > 0 {
        lemma_tai_octets_len(tai_list.drop_last());
    }
}

pub open spec fn opt_str(a: Option<&str>) -> Option<Seq<char>> {
    match a {
        Some(x) => Some(x@),
        None => None,
    }
}

/// At most 50 tracking area identities and 255 octets of APN fit the length
/// octets of their fields.
pub fn encode_attach_accept(
    attach_result: u8,
    t3412_value: u8,
    tai_list: &[[u8; 5]],
    ip_address: Option<[u8; 4]>,
    apn: Option<&str>,
) -> (b: Bytes)
    requires
        tai_list@.len() <= 50,
        apn is Some ==> encode_utf8((apn->0)@).len() <= 255,
    ensures
        octets_of(b) == attach_accept_octets(
            attach_result,
            t3412_value,
            tai_list@,
            opt_ip(ip_address),
            opt_str(apn),
        ),
{
    let mut buf: Vec<u8> = vec![NAS_PLAIN_HEADER, MT_ATTACH_ACCEPT, low_three_bits(attach_result), t3412_value];
    let mut tai_bytes: Vec<u8> = Vec::new();
    if tai_list.len() > 0 {
        tai_bytes.push(((tai_list.len() - 1) as u8) | 0x18);
        let ghost head = tai_bytes@;
        let mut i: usize = 0;
        assert(tai_bytes@ =~= head + tai_octets(tai_list@.take(0)));
        while i < tai_list.len()
            invariant
                i <= tai_list@.len(),
                tai_bytes@ == head + tai_octets(tai_list@.take(i as int)),
            decreases tai_list@.len() - i,
        {
            append(&mut tai_bytes, tai_list[i].as_slice());
            proof {
                assert(tai_list@.take(i + 1).drop_last() =~= tai_list@.take(i as int));
                assert(tai_bytes@ =~= head + tai_octets(tai_list@.take(i + 1)));
            }
            i += 1;
        }
        assert(tai_list@.take(i as int) =~= tai_list@);
        assert(head =~= seq![((tai_list@.len() - 1) as u8) | 0x18u8]);
    }
    proof {
        lemma_tai_octets_len(tai_list@);
        assert(tai_bytes@ =~= tai_list_value(tai_list@));
    }
    write_lv(&mut buf, tai_bytes.as_slice());
    let ghost fixed = buf@;
    if let Some(ip) = ip_address {
        let addr: [u8; 5] = [PDN_TYPE_IPV4, ip[0], ip[1], ip[2], ip[3]];
        assert(addr@ =~= seq![PDN_TYPE_IPV4] + ip@);
        write_tlv(&mut buf, IEI_PDN_ADDR, addr.as_slice());
    }
    let ghost with_ip = buf@;
    if let Some(text) = apn {
        write_tlv(&mut buf, IEI_APN, text.as_bytes());
    }
    assert(buf@ =~= attach_accept_octets(
        attach_result,
        t3412_value,
        tai_list@,
        opt_ip(ip_address),
        opt_str(apn),
    ));
    bytes_from_vec(buf)
}

pub fn encode_attach_complete() -> (b: Bytes)
    ensures
        octets_of(b) == bare_octets(MT_ATTACH_COMPLETE),
{
    encode_bare(MT_ATTACH_COMPLETE)
}

// ── Detach Request / Accept ───────────────────────────────────────────────────

/// The identity in the message is not read: the UE is known from the S1AP
/// identifiers.
fn decode_detach_request(body: &[u8]) -> (r: Result<NasPdu, ProtoError>)
    ensures
        decoded(r) == detach_request_from(body@),
{
    if body.len() == 0 {
        return Err(ProtoError::TooShort { expected: 1, got: 0 });
    }
    let byte: u8 = body[0];
    let detach_type: u8 = low_three_bits(byte);
    let switch_off: bool = low_nibble(byte) >= 8;
    let nas_ksi: u8 = low_three_bits(high_nibble(byte));
    Ok(NasPdu::DetachRequest(DecodedDetachRequest { detach_type, switch_off, nas_ksi }))
}

pub open spec fn detach_request_octets(detach_type: u8, switch_off: bool, nas_ksi: u8, guti: Seq<u8>) -> Seq<u8> {
    let byte = nas_ksi % 8 * 16 + (if switch_off {
        8int
    } else {
        0int
    }) + detach_type % 8;
    seq![NAS_PLAIN_HEADER, MT_DETACH_REQUEST, byte as u8] + lv_octets(guti)
}

pub fn encode_detach_request(detach_type: u8, switch_off: bool, nas_ksi: u8, guti: &[u8; 10]) -> (b: Bytes)
    ensures
        octets_of(b) == detach_request_octets(detach_type, switch_off, nas_ksi, guti@),
{
    let low: u8 = low_three_bits(detach_type) + (if switch_off {
        8
    } else {
        0
    });
    let mut buf: Vec<u8> = vec![NAS_PLAIN_HEADER, MT_DETACH_REQUEST, nibbles(low_three_bits(nas_ksi), low)];
    write_lv(&mut buf, guti.as_slice());
    assert(buf@ =~= detach_request_octets(detach_type, switch_off, nas_ksi, guti@));
    bytes_from_vec(buf)
}

/// Not sent when the UE powers down.
pub fn encode_detach_accept() -> (b: Bytes)
    ensures
        octets_of(b) == bare_octets(MT_DETACH_ACCEPT),
{
    encode_bare(MT_DETACH_ACCEPT)
}

// ── Protected envelope ────────────────────────────────────────────────────────

/// The envelope of a protected PDU.
pub open spec fn envelope(sht: u8, mac_i: Seq<u8>, count: u32, payload: Seq<u8>) -> Seq<u8> {
    seq![(sht % 16 * 16 + NAS_EPS_MM_PD) as u8] + mac_i + seq![(count % 256) as u8] + payload
}

/// MAC-I, sequence number and payload of an envelope; `None` when it is too
/// short or marked as plain.
pub open spec fn envelope_parts(d: Seq<u8>) -> Option<(Seq<u8>, u8, Seq<u8>)> {
    if d.len() < 6 || d[0] / 16 == 0 {
        None
    } else {
        Some((d.subrange(1, 5), d[5], d.subrange(6, d.len() as int)))
    }
}

/// An envelope is taken apart into what it was made of.
pub proof fn envelope_round_trip(sht: u8, mac_i: Seq<u8>, count: u32, payload: Seq<u8>)
    requires
        sht % 16 != 0,
        mac_i.len() == 4,
    ensures
        envelope_parts(envelope(sht, mac_i, count, payload)) == Some((mac_i, (count % 256) as u8, payload)),
{
    let d = envelope(sht, mac_i, count, payload);
    assert(d.subrange(1, 5) =~= mac_i);
    assert(d.subrange(6, d.len() as int) =~= payload);
}

fn seal(sht: u8, protected: &ProtectedNas) -> (b: Bytes)
    ensures
        octets_of(b) == envelope(sht, protected.mac_i@, protected.count, protected.payload@),
{
    assert((sht << 4) | 7u8 == sht % 16 * 16 + 7) by (bit_vector);
    let mut buf: Vec<u8> = Vec::new();
    buf.push((sht << 4) | NAS_EPS_MM_PD);
    append(&mut buf, protected.mac_i.as_slice());
    buf.push((protected.count % 256) as u8);
    append(&mut buf, protected.payload.as_slice());
    assert(buf@ =~= envelope(sht, protected.mac_i@, protected.count, protected.payload@));
    bytes_from_vec(buf)
}

fn open_envelope<'a>(buf: &'a [u8]) -> (r: Option<([u8; 4], u8, &'a [u8])>)
    ensures
        match envelope_parts(buf@) {
            Some((mac_i, seq, payload)) => r is Some && (r->0).0@ == mac_i && (r->0).1 == seq && (r->0).2@ == payload,
            None => r is None,
        },
{
    let len: usize = buf.len();
    if len < 6 {
        return None;
    }
    if high_nibble(buf[0]) == 0 {
        return None;
    }
    Some((to_array::<4>(&buf[1..5]), buf[5], &buf[6..len]))
}

impl NasSecurityContextView {
    /// The envelope that the network makes of a plain PDU.
    pub open spec fn sealed_downlink(self, sht: u8, bearer: u8, plain: Seq<u8>) -> Seq<u8> {
        let payload = self.payload(self.dl_count, bearer, Direction::Downlink, plain);
        envelope(sht, self.mac_i(self.dl_count, bearer, Direction::Downlink, payload), self.dl_count, payload)
    }

    /// The envelope that the UE makes of a plain PDU.
    pub open spec fn sealed_uplink(self, sht: u8, bearer: u8, plain: Seq<u8>) -> Seq<u8> {
        let payload = self.payload(self.ul_count, bearer, Direction::Uplink, plain);
        envelope(sht, self.mac_i(self.ul_count, bearer, Direction::Uplink, payload), self.ul_count, payload)
    }

    /// What the network makes of a received envelope, and its context then.
    pub open spec fn unsealed_uplink(self, d: Seq<u8>, bearer: u8) -> (Option<Seq<u8>>, Self) {
        match envelope_parts(d) {
            None => (None, self),
            Some((mac_i, seq, ciphertext)) => {
                let count = reconstructed(self.ul_count, seq);
                match self.opened(count, bearer, Direction::Uplink, mac_i, ciphertext) {
                    None => (None, self),
                    Some(plain) => (Some(plain), self.with_ul_count(next_count(count))),
                }
            },
        }
    }

    /// What the UE makes of a received envelope, and its context then.
    pub open spec fn unsealed_downlink(self, d: Seq<u8>, bearer: u8) -> (Option<Seq<u8>>, Self) {
        match envelope_parts(d) {
            None => (None, self),
            Some((mac_i, seq, ciphertext)) => {
                let count = reconstructed(self.dl_count, seq);
                match self.opened(count, bearer, Direction::Downlink, mac_i, ciphertext) {
                    None => (None, self),
                    Some(plain) => (Some(plain), self.with_dl_count(next_count(count))),
                }
            },
        }
    }
}

/// Wraps a plain PDU for the downlink. `sht` is normally
/// [`SHT_INTEGRITY_CIPHERED`].
pub fn encode_protected(ctx: &mut NasSecurityContext, sht: u8, bearer: u8, inner_plain: &[u8]) -> (b: Bytes)
    ensures
        octets_of(b) == (old(ctx)@).sealed_downlink(sht, bearer, inner_plain@),
        final(ctx)@ == (old(ctx)@).with_dl_count(next_count((old(ctx)@).dl_count)),
{
    let protected = ctx.protect_downlink(bearer, inner_plain);
    seal(sht, &protected)
}

/// Unwraps an uplink envelope. `None` when it is malformed or its MAC-I does
/// not verify; the context is unchanged then.
pub fn decode_protected(ctx: &mut NasSecurityContext, buf: &[u8], bearer: u8) -> (r: Option<Vec<u8>>)
    ensures
        final(ctx)@ == (old(ctx)@).unsealed_uplink(buf@, bearer).1,
        match (old(ctx)@).unsealed_uplink(buf@, bearer).0 {
            Some(plain) => r is Some && r->0@ == plain,
            None => r is None,
        },
{
    match open_envelope(buf) {
        None => None,
        Some((mac_i, seq_byte, ciphertext)) => ctx.unprotect_uplink(bearer, seq_byte, mac_i, ciphertext),
    }
}

/// Wraps a plain PDU for the uplink.
pub fn encode_protected_uplink(ctx: &mut NasSecurityContext, sht: u8, bearer: u8, inner_plain: &[u8]) -> (b: Bytes)
    ensures
        octets_of(b) == (old(ctx)@).sealed_uplink(sht, bearer, inner_plain@),
        final(ctx)@ == (old(ctx)@).with_ul_count(next_count((old(ctx)@).ul_count)),
{
    let protected = ctx.protect_uplink(bearer, inner_plain);
    seal(sht, &protected)
}

/// Unwraps a downlink envelope.
pub fn decode_protected_downlink(ctx: &mut NasSecurityContext, buf: &[u8], bearer: u8) -> (r: Option<Vec<u8>>)
    ensures
        final(ctx)@ == (old(ctx)@).unsealed_downlink(buf@, bearer).1,
        match (old(ctx)@).unsealed_downlink(buf@, bearer).0 {
            Some(plain) => r is Some && r->0@ == plain,
            None => r is None,
        },
{
    match open_envelope(buf) {
        None => None,
        Some((mac_i, seq_byte, ciphertext)) => ctx.unprotect_downlink(bearer, seq_byte, mac_i, ciphertext),
    }
}

} // verus!
