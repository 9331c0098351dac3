//! 5G NAS (3GPP TS 24.501): messages, their protection, and the laws of both.

pub mod codec;
pub mod formats;
pub mod laws;
pub mod protection;
pub mod security;

pub use codec::{
    decode_nas5gs, decode_protected, decode_protected_downlink, encode_auth_request, encode_auth_response,
    encode_deregistration_accept, encode_deregistration_request, encode_identity_request,
    encode_identity_response_suci, encode_protected, encode_protected_uplink, encode_registration_accept,
    encode_registration_complete, encode_registration_request, encode_sec_mode_cmd, encode_sec_mode_complete,
    Nas5gsPdu, Suci, IDTYPE_5G_GUTI, IDTYPE_SUCI, NAS5GS_SHT_INTEGRITY, NAS5GS_SHT_INTEGRITY_CIPHERED,
    NAS5GS_SHT_PLAIN,
};
pub use security::Nas5gsSecurityContext;
