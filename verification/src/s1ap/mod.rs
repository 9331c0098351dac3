//! S1AP, the S1 Application Protocol between eNodeB and MME (3GPP TS 36.413).
//!
//! `messages` holds the messages themselves; `codec` encodes and decodes
//! them in ALIGNED PER; `wire` states the format, and that
//! decoding undoes encoding; `forms` says which octets a message is made of;
//! `ie_ids` holds the numbers of the protocol.

pub mod codec;
pub mod forms;
pub mod ie_ids;
pub mod messages;
pub mod wire;

pub use codec::{decode_s1ap_pdu, encode_s1ap_pdu};
pub use messages::{
    DownlinkNasTransport, ErabSetupItem, ErabToSetup, InitialContextSetupRequest, InitialContextSetupResponse,
    InitialUeMessage, S1apCause, S1apMessage, UeContextReleaseComplete, UplinkNasTransport,
};
