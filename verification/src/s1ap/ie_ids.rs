//! Procedure codes, protocol IE identifiers, criticalities and field ranges
//! of S1AP (3GPP TS 36.413).
//!
//! The numbers are those of the ASN.1 modules `S1AP-Constants` and
//! `S1AP-IEs`. `ID_TAI`, `ID_EUTRAN_CGI` and `ID_RRC_ESTABLISHMENT_CAUSE`
//! have not been held against a capture.

use vstd::prelude::*;

verus! {

// ── Criticality ───────────────────────────────────────────────────────────────
pub const CRITICALITY_REJECT: u8 = 0;

pub const CRITICALITY_IGNORE: u8 = 1;

pub const CRITICALITY_NOTIFY: u8 = 2;

// ── ProcedureCode ─────────────────────────────────────────────────────────────
pub const PROC_DOWNLINK_NAS_TRANSPORT: u32 = 11;

pub const PROC_INITIAL_UE_MESSAGE: u32 = 12;

pub const PROC_UPLINK_NAS_TRANSPORT: u32 = 13;

/// Shared by InitialContextSetupRequest (initiatingMessage) and
/// InitialContextSetupResponse (successfulOutcome).
pub const PROC_INITIAL_CONTEXT_SETUP: u32 = 9;

pub const PROC_UE_CONTEXT_RELEASE: u32 = 23;

// ── ProtocolIE-ID ─────────────────────────────────────────────────────────────
pub const ID_MME_UE_S1AP_ID: u32 = 0;

pub const ID_ENB_UE_S1AP_ID: u32 = 8;

pub const ID_NAS_PDU: u32 = 26;

pub const ID_TAI: u32 = 67;

pub const ID_EUTRAN_CGI: u32 = 100;

pub const ID_RRC_ESTABLISHMENT_CAUSE: u32 = 134;

/// E-RABs to set up, in InitialContextSetupRequest.
pub const ID_E_RAB_TO_BE_SETUP_LIST_CTXT_SU_REQ: u32 = 24;

pub const ID_UE_AGGREGATE_MAXIMUM_BITRATE: u32 = 66;

pub const ID_SECURITY_KEY: u32 = 73;

/// E-RABs that were set up, in InitialContextSetupResponse.
pub const ID_E_RAB_SETUP_LIST_CTXT_SU_RES: u32 = 51;

/// E-RABs that failed to set up, in InitialContextSetupResponse.
pub const ID_E_RAB_FAILED_TO_SETUP_LIST_CTXT_SU_RES: u32 = 48;

pub const ID_CAUSE: u32 = 2;

// ── Field ranges ──────────────────────────────────────────────────────────────
/// 24 bits.
pub const ENB_UE_S1AP_ID_MAX: u64 = 16_777_215;

/// 32 bits.
pub const MME_UE_S1AP_ID_MAX: u64 = 4_294_967_295;

/// A plain range in place of the named causes.
pub const RRC_ESTABLISHMENT_CAUSE_MAX: u64 = 15;

/// Without the values behind the extension marker.
pub const ERAB_ID_MAX: u64 = 15;

pub const QCI_MAX: u64 = 255;

/// Ten gigabits per second; NGAP has a larger range.
pub const BIT_RATE_MAX: u64 = 10_000_000_000;

pub const PROTOCOL_IE_ID_MAX: u64 = 65_535;

pub const PROCEDURE_CODE_MAX: u64 = 255;

pub const CAUSE_MAX: u64 = 6;

} // verus!
