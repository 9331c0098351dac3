//! Procedure codes, protocol IE identifiers, criticalities and field ranges
//! of NGAP (3GPP TS 38.413).
//!
//! The numbers are those of the ASN.1 module `NGAP-Constants`.
//!
//! NGAP conveys TAI and NR-CGI together in one `UserLocationInformation` IE.
//! Here the value of that IE is the nine octets of the NR-CGI followed by
//! the six octets of the TAI; the CHOICE tags inside the real IE are not
//! modelled.

use vstd::prelude::*;

verus! {

// ── Criticality ───────────────────────────────────────────────────────────────
pub const CRITICALITY_REJECT: u8 = 0;

pub const CRITICALITY_IGNORE: u8 = 1;

pub const CRITICALITY_NOTIFY: u8 = 2;

// ── ProcedureCode ─────────────────────────────────────────────────────────────
pub const PROC_DOWNLINK_NAS_TRANSPORT: u32 = 4;

pub const PROC_INITIAL_UE_MESSAGE: u32 = 15;

pub const PROC_UPLINK_NAS_TRANSPORT: u32 = 46;

/// Shared by InitialContextSetupRequest (initiatingMessage) and
/// InitialContextSetupResponse (successfulOutcome): a class 1 procedure has
/// one code for all its outcomes, and the PDU choice tells them apart.
pub const PROC_INITIAL_CONTEXT_SETUP: u32 = 14;

/// Shared by UeContextReleaseCommand and UeContextReleaseComplete.
pub const PROC_UE_CONTEXT_RELEASE: u32 = 41;

// ── ProtocolIE-ID ─────────────────────────────────────────────────────────────
pub const ID_AMF_UE_NGAP_ID: u32 = 10;

pub const ID_RAN_UE_NGAP_ID: u32 = 85;

pub const ID_NAS_PDU: u32 = 38;

/// NR-CGI and TAI together; see the module documentation.
pub const ID_USER_LOCATION_INFO: u32 = 121;

pub const ID_RRC_ESTABLISHMENT_CAUSE: u32 = 90;

pub const ID_SECURITY_KEY: u32 = 94;

pub const ID_UE_AGGREGATE_MAX_BIT_RATE: u32 = 110;

/// PDU sessions to set up, in InitialContextSetupRequest.
pub const ID_PDU_SESSION_RESOURCE_SETUP_LIST_CTXT_REQ: u32 = 71;

/// PDU sessions that were set up, in InitialContextSetupResponse.
pub const ID_PDU_SESSION_RESOURCE_SETUP_LIST_CTXT_RES: u32 = 72;

/// PDU sessions that failed to set up, in InitialContextSetupResponse.
pub const ID_PDU_SESSION_RESOURCE_FAILED_TO_SETUP_LIST_CTXT_RES: u32 = 55;

/// In UeContextReleaseCommand.
pub const ID_CAUSE: u32 = 15;

// ── Field ranges ──────────────────────────────────────────────────────────────
pub const RAN_UE_NGAP_ID_MAX: u64 = 4_294_967_295;

pub const AMF_UE_NGAP_ID_MAX: u64 = 4_294_967_295;

/// A plain range in place of the named causes.
pub const RRC_ESTABLISHMENT_CAUSE_MAX: u64 = 15;

pub const PDU_SESSION_ID_MAX: u64 = 255;

pub const QFI_MAX: u64 = 63;

/// Four terabits per second.
pub const BIT_RATE_MAX: u64 = 4_000_000_000_000;

pub const PROTOCOL_IE_ID_MAX: u64 = 65_535;

pub const PROCEDURE_CODE_MAX: u64 = 255;

/// The largest number of a cause. The CHOICE of enumerations that NGAP has
/// for a cause is flattened into one number.
pub const CAUSE_MAX: u64 = 6;

} // verus!
