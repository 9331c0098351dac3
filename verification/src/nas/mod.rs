//! NAS, the non-access stratum of LTE (3GPP TS 24.301): messages, their
//! protection, and the laws of both.

pub mod codec;
pub mod describe;
pub mod formats;
pub mod ie;
pub mod laws;
pub mod protection;
pub mod security;

pub use codec::{
    decode_nas, decode_protected, decode_protected_downlink, encode_attach_accept, encode_attach_complete,
    encode_attach_request, encode_auth_request, encode_auth_response, encode_detach_accept, encode_detach_request,
    encode_protected, encode_protected_uplink, encode_sec_mode_cmd, encode_sec_mode_complete, DecodedAttachAccept,
    DecodedAttachRequest, DecodedAuthenticationRequest, DecodedAuthenticationResponse, DecodedDetachRequest,
    DecodedSecurityModeCommand, NasPdu, MT_ATTACH_ACCEPT, MT_ATTACH_COMPLETE, MT_ATTACH_REQUEST,
    MT_AUTHENTICATION_REQUEST, MT_AUTHENTICATION_RESPONSE, MT_DETACH_ACCEPT, MT_DETACH_REQUEST,
    MT_SECURITY_MODE_COMMAND, MT_SECURITY_MODE_COMPLETE, NAS_EPS_MM_PD, SHT_INTEGRITY, SHT_INTEGRITY_CIPHERED,
    SHT_INTEGRITY_CIPHERED_NEW_CTX, SHT_INTEGRITY_NEW_CTX, SHT_PLAIN,
};
pub use ie::{NasEeaAlgorithm, NasEiaAlgorithm};
pub use security::{
    derive_nas_keys, eea2_apply, eia2_compute_mac, eia2_verify_mac, reconstruct_count, Direction, NasSecurityContext,
    ProtectedNas, NAS_BEARER,
};
