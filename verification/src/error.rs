//! Errors of the wire codecs.

use vstd::prelude::*;

verus! {

/// Why a message could not be decoded, or not be encoded.
#[derive(Debug, Clone, Copy, PartialEq, Eq)]
pub enum ProtoError {
    /// The buffer ends before a fixed-size part of the message.
    TooShort { expected: usize, got: usize },
    MalformedNas { reason: &'static str },
    MalformedNgap { reason: &'static str },
    MalformedS1ap { reason: &'static str },
    UnknownGtpMsgType(u8),
}

} // verus!
