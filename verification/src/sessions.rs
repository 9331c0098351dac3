//! The user plane: which tunnel a packet leaves by.
//!
//! A session is known by its uplink TEID. Uplink packets are found by that
//! TEID, downlink packets by the address of the UE. A session that is created
//! under an address in use takes the address over.

use std::collections::HashMap;

use vstd::prelude::*;
use vstd::std_specs::hash::*;

use crate::amf::state_machine::{N3Event, N3EventView};
use crate::gtp::{
    datagram_parts, datagram_round_trip, encapsulate, gpdu_octets, GtpuHeader, GTPU_MSG_GPDU,
};
use crate::mme::state_machine::{UpfEvent, UpfEventView};
use crate::octets::{octets_to_u32, octets_u32, to_vec};

verus! {

#[derive(Debug, Clone, Copy)]
pub struct Session {
    pub entity_id: u32,
    pub imsi: u64,
    pub ue_ip: [u8; 4],
    /// Where downlink packets go; all zeros until it is known.
    pub ran_addr: [u8; 4],
    /// The TEID that downlink packets carry; 0 until it is known.
    pub dl_teid: u32,
    /// QoS class: the QCI of a bearer, the QFI of a flow.
    pub qos: u8,
}

#[verifier::ext_equal]
pub struct SessionView {
    pub entity_id: u32,
    pub imsi: u64,
    pub ue_ip: Seq<u8>,
    pub ran_addr: Seq<u8>,
    pub dl_teid: u32,
    pub qos: u8,
}

impl View for Session {
    type V = SessionView;

    open spec fn view(&self) -> SessionView {
        SessionView {
            entity_id: self.entity_id,
            imsi: self.imsi,
            ue_ip: self.ue_ip@,
            ran_addr: self.ran_addr@,
            dl_teid: self.dl_teid,
            qos: self.qos,
        }
    }
}

/// The sessions, by uplink TEID, and who has which address.
pub struct SessionManager {
    sessions: HashMap<u32, Session>,
    addresses: HashMap<u32, u32>,
}

#[verifier::ext_equal]
pub struct SessionsView {
    /// Sessions by uplink TEID.
    pub sessions: Map<u32, SessionView>,
    /// Uplink TEIDs by UE address, the address read as a number.
    pub addresses: Map<u32, u32>,
}

impl View for SessionManager {
    type V = SessionsView;

    closed spec fn view(&self) -> SessionsView {
        SessionsView {
            sessions: self.sessions@.map_values(|s: Session| s@),
            addresses: self.addresses@,
        }
    }
}

impl SessionsView {
    pub open spec fn empty() -> SessionsView {
        SessionsView { sessions: Map::empty(), addresses: Map::empty() }
    }

    pub open spec fn create(self, ul_teid: u32, s: SessionView) -> SessionsView {
        SessionsView {
            sessions: self.sessions.insert(ul_teid, s),
            addresses: self.addresses.insert(octets_u32(s.ue_ip), ul_teid),
        }
    }

    pub open spec fn update(self, ul_teid: u32, dl_teid: u32, ran_addr: Seq<u8>) -> SessionsView {
        if self.sessions.contains_key(ul_teid) {
            SessionsView {
                sessions: self.sessions.insert(
                    ul_teid,
                    SessionView { dl_teid, ran_addr, ..self.sessions[ul_teid] },
                ),
                ..self
            }
        } else {
            self
        }
    }

    pub open spec fn remove(self, ul_teid: u32) -> SessionsView {
        if self.sessions.contains_key(ul_teid) {
            SessionsView {
                sessions: self.sessions.remove(ul_teid),
                addresses: self.addresses.remove(octets_u32(self.sessions[ul_teid].ue_ip)),
            }
        } else {
            self
        }
    }

    /// The session that downlink packets for an address belong to.
    pub open spec fn by_address(self, ue_ip: Seq<u8>) -> Option<SessionView> {
        if self.addresses.contains_key(octets_u32(ue_ip)) {
            self.sessions.get(self.addresses[octets_u32(ue_ip)])
        } else {
            None
        }
    }

    /// What an event of the AMF does.
    pub open spec fn apply_n3(self, e: N3EventView) -> SessionsView {
        match e {
            N3EventView::CreateSession { ul_teid, entity_id, imsi, qfi, ue_ip, gnb_addr, .. } => self.create(
                ul_teid,
                SessionView { entity_id, imsi, ue_ip, ran_addr: gnb_addr, dl_teid: 0, qos: qfi },
            ),
            N3EventView::UpdateBearer { ul_teid, dl_teid, gnb_addr } => self.update(ul_teid, dl_teid, gnb_addr),
            N3EventView::RemoveSession { ul_teid } => self.remove(ul_teid),
        }
    }

    /// What an event of the MME does.
    pub open spec fn apply_upf(self, e: UpfEventView) -> SessionsView {
        match e {
            UpfEventView::CreateSession { ul_teid, entity_id, imsi, qci, ue_ip, enb_addr } => self.create(
                ul_teid,
                SessionView { entity_id, imsi, ue_ip, ran_addr: enb_addr, dl_teid: 0, qos: qci },
            ),
            UpfEventView::UpdateBearer { ul_teid, dl_teid, enb_addr } => self.update(ul_teid, dl_teid, enb_addr),
            UpfEventView::RemoveSession { ul_teid } => self.remove(ul_teid),
        }
    }

    /// What events do, one after the other.
    pub open spec fn apply_all_n3(self, events: Seq<N3EventView>) -> SessionsView
        decreases events.len(),
    {
        if events.len() == 0 {
            self
        } else {
            self.apply_all_n3(events.drop_last()).apply_n3(events.last())
        }
    }

    pub open spec fn apply_all_upf(self, events: Seq<UpfEventView>) -> SessionsView
        decreases events.len(),
    {
        if events.len() == 0 {
            self
        } else {
            self.apply_all_upf(events.drop_last()).apply_upf(events.last())
        }
    }
}

impl SessionManager {
    pub fn new() -> (m: Self)
        ensures
            m@ == SessionsView::empty(),
    {
        let m = SessionManager { sessions: HashMap::new(), addresses: HashMap::new() };
        assert(m@ =~= SessionsView::empty());
        m
    }

    /// Adds a session whose downlink side is not known yet.
    pub fn create_session_with_teid(
        &mut self,
        ul_teid: u32,
        entity_id: u32,
        imsi: u64,
        ue_ip: [u8; 4],
        ran_addr: [u8; 4],
        qos: u8,
    )
        ensures
            final(self)@ == (old(self)@).create(
                ul_teid,
                (SessionView { entity_id, imsi, ue_ip: ue_ip@, ran_addr: ran_addr@, dl_teid: 0, qos }),
            ),
    {
        broadcast use group_hash_axioms;

        self.sessions.insert(ul_teid, Session { entity_id, imsi, ue_ip, ran_addr, dl_teid: 0, qos });
        self.addresses.insert(octets_to_u32(&ue_ip), ul_teid);
        assert(self@ =~= (old(self)@).create(
            ul_teid,
            SessionView { entity_id, imsi, ue_ip: ue_ip@, ran_addr: ran_addr@, dl_teid: 0, qos },
        ));
    }

    /// Sets where downlink packets of a session go. `false` when there is no
    /// such session.
    pub fn update_bearer_info(&mut self, ul_teid: u32, dl_teid: u32, ran_addr: [u8; 4]) -> (found: bool)
        ensures
            found == old(self)@.sessions.contains_key(ul_teid),
            final(self)@ == (old(self)@).update(ul_teid, dl_teid, ran_addr@),
    {
        broadcast use group_hash_axioms;

        let session = match self.sessions.get(&ul_teid) {
            Some(s) => *s,
            None => {
                return false;
            },
        };
        self.sessions.insert(ul_teid, Session { dl_teid, ran_addr, ..session });
        assert(self@ =~= (old(self)@).update(ul_teid, dl_teid, ran_addr@));
        true
    }

    /// Removes a session, and the entry of its address. `false` when there is
    /// no such session.
    pub fn remove_session(&mut self, ul_teid: u32) -> (found: bool)
        ensures
            found == old(self)@.sessions.contains_key(ul_teid),
            final(self)@ == (old(self)@).remove(ul_teid),
    {
        broadcast use group_hash_axioms;

        let session = match self.sessions.get(&ul_teid) {
            Some(s) => *s,
            None => {
                return false;
            },
        };
        self.sessions.remove(&ul_teid);
        self.addresses.remove(&octets_to_u32(&session.ue_ip));
        assert(self@ =~= (old(self)@).remove(ul_teid));
        true
    }

    /// The session of an uplink TEID.
    pub fn lookup_ul(&self, ul_teid: u32) -> (s: Option<Session>)
        ensures
            match s {
                Some(s) => self@.sessions.get(ul_teid) == Some(s@),
                None => self@.sessions.get(ul_teid) is None,
            },
    {
        broadcast use group_hash_axioms;

        match self.sessions.get(&ul_teid) {
            Some(s) => Some(*s),
            None => None,
        }
    }

    /// The session of a UE address.
    pub fn lookup_dl(&self, ue_ip: &[u8; 4]) -> (s: Option<Session>)
        ensures
            match s {
                Some(s) => self@.by_address(ue_ip@) == Some(s@),
                None => self@.by_address(ue_ip@) is None,
            },
    {
        broadcast use group_hash_axioms;

        match self.addresses.get(&octets_to_u32(ue_ip)) {
            Some(ul_teid) => self.lookup_ul(*ul_teid),
            None => None,
        }
    }

    /// Applies an event of the AMF. `false` when it updates a session that
    /// does not exist.
    pub fn apply_n3_event(&mut self, event: &N3Event) -> (known: bool)
        ensures
            final(self)@ == (old(self)@).apply_n3(event@),
            known == match event@ {
                N3EventView::UpdateBearer { ul_teid, .. } => old(self)@.sessions.contains_key(ul_teid),
                _ => true,
            },
    {
        match *event {
            N3Event::CreateSession { ul_teid, entity_id, imsi, qfi, ue_ip, gnb_addr, .. } => {
                self.create_session_with_teid(ul_teid, entity_id, imsi, ue_ip, gnb_addr, qfi);
                true
            },
            N3Event::UpdateBearer { ul_teid, dl_teid, gnb_addr } => self.update_bearer_info(ul_teid, dl_teid, gnb_addr),
            N3Event::RemoveSession { ul_teid } => {
                self.remove_session(ul_teid);
                true
            },
        }
    }

    /// Applies an event of the MME. `false` when it updates a session that
    /// does not exist.
    pub fn apply_upf_event(&mut self, event: &UpfEvent) -> (known: bool)
        ensures
            final(self)@ == (old(self)@).apply_upf(event@),
            known == match event@ {
                UpfEventView::UpdateBearer { ul_teid, .. } => old(self)@.sessions.contains_key(ul_teid),
                _ => true,
            },
    {
        match *event {
            UpfEvent::CreateSession { ul_teid, entity_id, imsi, qci, ue_ip, enb_addr } => {
                self.create_session_with_teid(ul_teid, entity_id, imsi, ue_ip, enb_addr, qci);
                true
            },
            UpfEvent::UpdateBearer { ul_teid, dl_teid, enb_addr } => self.update_bearer_info(
                ul_teid,
                dl_teid,
                enb_addr,
            ),
            UpfEvent::RemoveSession { ul_teid } => {
                self.remove_session(ul_teid);
                true
            },
        }
    }
}

// ── Forwarding ────────────────────────────────────────────────────────────────

/// The user packet of an uplink datagram, and the address of the UE that sent
/// it. `None` when the datagram is no G-PDU of a session.
pub open spec fn uplink_packet(t: SessionsView, datagram: Seq<u8>) -> Option<(Seq<u8>, Seq<u8>)> {
    match datagram_parts(datagram) {
        Some((h, payload)) if h.message_type == GTPU_MSG_GPDU && t.sessions.contains_key(h.teid) => Some(
            (t.sessions[h.teid].ue_ip, payload),
        ),
        _ => None,
    }
}

/// The datagram for a downlink packet, and where it goes. `None` when no
/// session has the address, or when its downlink side is not known yet.
pub open spec fn downlink_packet(t: SessionsView, ue_ip: Seq<u8>, payload: Seq<u8>) -> Option<(Seq<u8>, Seq<u8>)> {
    match t.by_address(ue_ip) {
        Some(s) if s.dl_teid != 0 => Some((s.ran_addr, gpdu_octets(s.dl_teid, payload))),
        _ => None,
    }
}

/// Takes a user packet out of an uplink datagram.
pub fn forward_uplink(sessions: &SessionManager, datagram: &[u8]) -> (r: Option<([u8; 4], Vec<u8>)>)
    ensures
        match uplink_packet(sessions@, datagram@) {
            Some((ue_ip, payload)) => r is Some && (r->0).0@ == ue_ip && (r->0).1@ == payload,
            None => r is None,
        },
        r is Some ==> (r->0).1@.len() <= 0xFFFF,
{
    match GtpuHeader::parse(datagram) {
        Some((h, payload)) => {
            if h.message_type != GTPU_MSG_GPDU {
                return None;
            }
            match sessions.lookup_ul(h.teid) {
                Some(s) => Some((s.ue_ip, to_vec(payload))),
                None => None,
            }
        },
        None => None,
    }
}

/// Puts a user packet into a downlink datagram.
pub fn forward_downlink(sessions: &SessionManager, ue_ip: &[u8; 4], payload: &[u8]) -> (r: Option<([u8; 4], Vec<u8>)>)
    requires
        payload@.len() <= 0xFFFF,
    ensures
        match downlink_packet(sessions@, ue_ip@, payload@) {
            Some((addr, gpdu)) => r is Some && (r->0).0@ == addr && (r->0).1@ == gpdu,
            None => r is None,
        },
{
    match sessions.lookup_dl(ue_ip) {
        Some(s) => if s.dl_teid != 0 {
            Some((s.ran_addr, encapsulate(s.dl_teid, payload)))
        } else {
            None
        },
        None => None,
    }
}

/// What comes back when every uplink packet is sent straight down again.
pub open spec fn echoed(t: SessionsView, datagram: Seq<u8>) -> Option<(Seq<u8>, Seq<u8>)> {
    match uplink_packet(t, datagram) {
        Some((ue_ip, payload)) => downlink_packet(t, ue_ip, payload),
        None => None,
    }
}

/// Sends an uplink packet straight down again.
pub fn echo(sessions: &SessionManager, datagram: &[u8]) -> (r: Option<([u8; 4], Vec<u8>)>)
    ensures
        match echoed(sessions@, datagram@) {
            Some((addr, gpdu)) => r is Some && (r->0).0@ == addr && (r->0).1@ == gpdu,
            None => r is None,
        },
{
    match forward_uplink(sessions, datagram) {
        Some((ue_ip, payload)) => forward_downlink(sessions, &ue_ip, payload.as_slice()),
        None => None,
    }
}

// ── Laws ──────────────────────────────────────────────────────────────────────

/// No two sessions have the same address, and every session is found by its
/// address.
pub open spec fn addresses_are_sound(t: SessionsView) -> bool {
    forall|ul_teid: u32| #[trigger]
        t.sessions.contains_key(ul_teid) ==> t.addresses.get(octets_u32(t.sessions[ul_teid].ue_ip)) == Some(ul_teid)
}

/// A session that is created under an address of its own, updated or removed
/// leaves every other session reachable.
pub proof fn sessions_stay_reachable(t: SessionsView, ul_teid: u32, s: SessionView, dl_teid: u32, ran_addr: Seq<u8>)
    requires
        addresses_are_sound(t),
    ensures
        t.addresses.get(octets_u32(s.ue_ip)) is None && !t.sessions.contains_key(ul_teid) ==> addresses_are_sound(
            t.create(ul_teid, s),
        ),
        addresses_are_sound(t.update(ul_teid, dl_teid, ran_addr)),
        addresses_are_sound(t.remove(ul_teid)),
{
}

/// A user packet that a UE sends up comes back unchanged, to the radio access
/// node and under the TEID that the session was updated with.
pub proof fn echo_round_trip(t: SessionsView, ul_teid: u32, payload: Seq<u8>)
    requires
        t.sessions.contains_key(ul_teid),
        t.addresses.get(octets_u32(t.sessions[ul_teid].ue_ip)) == Some(ul_teid),
        t.sessions[ul_teid].dl_teid != 0,
        payload.len() <= 0xFFFF,
    ensures
        ({
            let s = t.sessions[ul_teid];
            &&& echoed(t, gpdu_octets(ul_teid, payload)) == Some((s.ran_addr, gpdu_octets(s.dl_teid, payload)))
            &&& datagram_parts(gpdu_octets(s.dl_teid, payload)) == Some(
                (
                    GtpuHeader { message_type: GTPU_MSG_GPDU, length: payload.len() as u16, teid: s.dl_teid },
                    payload,
                ),
            )
        }),
{
    let s = t.sessions[ul_teid];
    let length = payload.len() as u16;
    datagram_round_trip(GtpuHeader { message_type: GTPU_MSG_GPDU, length, teid: ul_teid }, payload);
    datagram_round_trip(GtpuHeader { message_type: GTPU_MSG_GPDU, length, teid: s.dl_teid }, payload);
}

/// Nothing is sent for a TEID without a session.
pub proof fn unknown_tunnels_are_dropped(t: SessionsView, teid: u32, payload: Seq<u8>)
    requires
        !t.sessions.contains_key(teid),
        payload.len() <= 0xFFFF,
    ensures
        echoed(t, gpdu_octets(teid, payload)) is None,
{
    datagram_round_trip(
        GtpuHeader { message_type: GTPU_MSG_GPDU, length: payload.len() as u16, teid },
        payload,
    );
}

} // verus!
