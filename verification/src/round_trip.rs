//! The user plane check of a UE: a packet is sent up, and must come back
//! unchanged. GTP-U does not guarantee delivery, and the gateway may not know
//! the tunnel yet, so it is tried five times.

use vstd::prelude::*;

use crate::gtp::{encapsulate, gpdu_octets};

verus! {

/// How often the packet is sent.
pub const MAX_ATTEMPTS: u32 = 5;

/// `real user data over a real GTP-U tunnel`.
pub const PAYLOAD: [u8; 39] = [
    0x72, 0x65, 0x61, 0x6C, 0x20, 0x75, 0x73, 0x65, 0x72, 0x20, 0x64, 0x61, 0x74, 0x61, 0x20, 0x6F, 0x76, 0x65, 0x72,
    0x20, 0x61, 0x20, 0x72, 0x65, 0x61, 0x6C, 0x20, 0x47, 0x54, 0x50, 0x2D, 0x55, 0x20, 0x74, 0x75, 0x6E, 0x6E, 0x65,
    0x6C,
];

/// What happens after the packet was sent.
#[derive(Debug, Clone)]
pub enum RoundTripEvent {
    /// A packet came down.
    Received(Vec<u8>),
    /// None came in time.
    TimedOut,
}

/// What is to be done then.
#[derive(Debug, Clone, Copy, PartialEq, Eq, Structural)]
pub enum RoundTripAction {
    /// Send the packet once more, as this attempt.
    Send { attempt: u32 },
    /// The packet came back unchanged.
    Confirmed,
    /// Another packet came back.
    Mismatch,
    /// No packet came back after the last attempt.
    NoEcho,
}

/// What follows an event in the given attempt.
pub open spec fn next_action(attempt: u32, received: Option<Seq<u8>>) -> RoundTripAction {
    match received {
        Some(payload) => if payload == PAYLOAD@ {
            RoundTripAction::Confirmed
        } else {
            RoundTripAction::Mismatch
        },
        None => if attempt < MAX_ATTEMPTS {
            RoundTripAction::Send { attempt: (attempt + 1) as u32 }
        } else {
            RoundTripAction::NoEcho
        },
    }
}

/// The payload that an event brings.
pub open spec fn received(e: RoundTripEvent) -> Option<Seq<u8>> {
    match e {
        RoundTripEvent::Received(payload) => Some(payload@),
        RoundTripEvent::TimedOut => None,
    }
}

fn is_payload(p: &[u8]) -> (b: bool)
    ensures
        b == (p@ == PAYLOAD@),
{
    let expected: [u8; 39] = PAYLOAD;
    if p.len() != 39 {
        return false;
    }
    let mut i: usize = 0;
    while i < 39
        invariant
            i <= 39,
            p@.len() == 39,
            expected@ == PAYLOAD@,
            forall|j: int| 0 <= j < i ==> p@[j] == expected@[j],
        decreases 39 - i,
    {
        if p[i] != expected[i] {
            return false;
        }
        i += 1;
    }
    assert(p@ =~= PAYLOAD@);
    true
}

/// Decides what to do after an event.
pub fn on_event(attempt: u32, event: &RoundTripEvent) -> (a: RoundTripAction)
    ensures
        a == next_action(attempt, received(*event)),
{
    match event {
        RoundTripEvent::Received(payload) => if is_payload(payload.as_slice()) {
            RoundTripAction::Confirmed
        } else {
            RoundTripAction::Mismatch
        },
        RoundTripEvent::TimedOut => if attempt < MAX_ATTEMPTS {
            RoundTripAction::Send { attempt: attempt + 1 }
        } else {
            RoundTripAction::NoEcho
        },
    }
}

/// The datagram that is sent up.
pub fn uplink_gpdu(ul_teid: u32) -> (gpdu: Vec<u8>)
    ensures
        gpdu@ == gpdu_octets(ul_teid, PAYLOAD@),
{
    let payload: [u8; 39] = PAYLOAD;
    encapsulate(ul_teid, payload.as_slice())
}

/// The check ends: only the first four attempts are followed by another one.
pub proof fn attempts_are_bounded(attempt: u32, received: Option<Seq<u8>>)
    ensures
        next_action(attempt, received) is Send ==> attempt < next_action(attempt, received)->attempt <= MAX_ATTEMPTS,
        attempt >= MAX_ATTEMPTS ==> !(next_action(attempt, received) is Send),
{
}

} // verus!
