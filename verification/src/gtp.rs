//! GTP-U (TS 29.281): the header of the packets that a user plane tunnel
//! carries.
//!
//! ```text
//! Octet 1     : version 1, protocol type GTP, no optional fields
//! Octet 2     : message type; 255 is a G-PDU, which carries a user packet
//! Octets 3-4  : length of what follows the header
//! Octets 5-8  : TEID
//! ```

use vstd::prelude::*;

use crate::octets::{append, octets_to_u32, octets_u32, to_array, u32_octets, u32_round_trip, u32_to_octets};

verus! {

/// UDP port of GTP-U.
pub const GTP_PORT: u16 = 2152;

/// Version 1, GTP, no optional fields.
pub const GTPU_FLAGS: u8 = 0x30;

/// A G-PDU.
pub const GTPU_MSG_GPDU: u8 = 0xFF;

#[derive(Debug, Clone, Copy, PartialEq, Eq, Structural)]
pub struct GtpuHeader {
    pub message_type: u8,
    pub length: u16,
    pub teid: u32,
}

/// The octets of a header.
pub open spec fn header_octets(h: GtpuHeader) -> Seq<u8> {
    seq![GTPU_FLAGS, h.message_type, (h.length / 256) as u8, (h.length % 256) as u8] + u32_octets(h.teid)
}

/// The header and the payload that a datagram holds. `None` when it is too
/// short for the header or for the length that the header states, or when it
/// is of another version or has optional fields.
pub open spec fn datagram_parts(d: Seq<u8>) -> Option<(GtpuHeader, Seq<u8>)> {
    if d.len() < 8 || d[0] != GTPU_FLAGS || d.len() - 8 < d[2] * 256 + d[3] {
        None
    } else {
        let length = (d[2] * 256 + d[3]) as u16;
        Some(
            (
                GtpuHeader { message_type: d[1], length, teid: octets_u32(d.subrange(4, 8)) },
                d.subrange(8, 8 + length),
            ),
        )
    }
}

/// A user packet in a tunnel.
pub open spec fn gpdu_octets(teid: u32, payload: Seq<u8>) -> Seq<u8> {
    header_octets(GtpuHeader { message_type: GTPU_MSG_GPDU, length: payload.len() as u16, teid }) + payload
}

/// A header and its payload are read back as they were written.
pub proof fn datagram_round_trip(h: GtpuHeader, payload: Seq<u8>)
    requires
        h.length == payload.len(),
    ensures
        datagram_parts(header_octets(h) + payload) == Some((h, payload)),
{
    let d = header_octets(h) + payload;
    assert(d.subrange(4, 8) =~= u32_octets(h.teid));
    u32_round_trip(h.teid);
    assert(d.subrange(8, 8 + h.length) =~= payload);
}

impl GtpuHeader {
    /// The header of a G-PDU.
    pub fn new_gpdu(teid: u32, length: u16) -> (h: Self)
        ensures
            h == (GtpuHeader { message_type: GTPU_MSG_GPDU, length, teid }),
    {
        GtpuHeader { message_type: GTPU_MSG_GPDU, length, teid }
    }

    pub fn to_bytes(&self) -> (b: [u8; 8])
        ensures
            b@ == header_octets(*self),
    {
        let t = u32_to_octets(self.teid);
        let b: [u8; 8] = [
            GTPU_FLAGS,
            self.message_type,
            (self.length / 256) as u8,
            (self.length % 256) as u8,
            t[0],
            t[1],
            t[2],
            t[3],
        ];
        assert(b@ =~= header_octets(*self));
        b
    }

    /// Reads a header. The payload is a part of the datagram, not a copy.
    pub fn parse<'a>(datagram: &'a [u8]) -> (r: Option<(GtpuHeader, &'a [u8])>)
        ensures
            match datagram_parts(datagram@) {
                Some((h, payload)) => r is Some && (r->0).0 == h && (r->0).1@ == payload,
                None => r is None,
            },
    {
        let len: usize = datagram.len();
        if len < 8 || datagram[0] != GTPU_FLAGS {
            return None;
        }
        let length: u16 = datagram[2] as u16 * 256 + datagram[3] as u16;
        if len - 8 < length as usize {
            return None;
        }
        let teid = octets_to_u32(&to_array::<4>(&datagram[4..8]));
        Some((GtpuHeader { message_type: datagram[1], length, teid }, &datagram[8..8 + length as usize]))
    }
}

/// Puts a user packet into a tunnel.
pub fn encapsulate(teid: u32, payload: &[u8]) -> (gpdu: Vec<u8>)
    requires
        payload@.len() <= 0xFFFF,
    ensures
        gpdu@ == gpdu_octets(teid, payload@),
{
    let header = GtpuHeader::new_gpdu(teid, payload.len() as u16);
    let mut gpdu: Vec<u8> = Vec::new();
    append(&mut gpdu, header.to_bytes().as_slice());
    append(&mut gpdu, payload);
    assert(gpdu@ =~= gpdu_octets(teid, payload@));
    gpdu
}

} // verus!
