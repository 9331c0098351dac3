//! NGAP, the NG Application Protocol between gNodeB and AMF (3GPP TS 38.413).
//!
//! `messages` holds the messages themselves; `codec` encodes and decodes
//! them in ALIGNED PER; `wire` states the format, and that
//! decoding undoes encoding; `forms` says which octets a message is made of;
//! `ie_ids` holds the numbers of the protocol.

pub mod codec;
pub mod forms;
pub mod ie_ids;
pub mod messages;
pub mod wire;

pub use codec::{decode_ngap_pdu, encode_ngap_pdu};
pub use messages::{
    NgapCause, NgapDownlinkNasTransport, NgapInitialContextSetupRequest, NgapInitialContextSetupResponse,
    NgapInitialUeMessage, NgapMessage, NgapUeContextReleaseComplete, NgapUplinkNasTransport, PduSessionSetupItem,
    PduSessionToSetup,
};
