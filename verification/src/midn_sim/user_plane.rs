//! That the user plane follows the control plane: every UE with a tunnel is
//! reachable through it, whatever the node is told.

use vstd::prelude::*;

use crate::amf::laws::{every_message_keeps_soundness, lemma_opened_sound, new_amf_is_sound, sound};
use crate::amf::registration::{
    registration_world, session_ip, session_ips_are_separate, starts_registration, takes_teid, DEFAULT_QFI,
};
use crate::amf::state_machine::{
    has_room_for, ngap_step, opened_uplink, plain_has_room, plain_step, AmfView, N3EventView,
};
use crate::ecs::{despawn_removes_one, spawn_is_fresh, zeros, TunnelView, WorldView};
use crate::gtp::gpdu_octets;
use crate::midn_sim::node::{event_has_room, fresh_node, node_step, AmfNodeView};
use crate::nas5gs::codec::nas5gs_pdu;
use crate::ngap::messages::{InitialUeMessageView, NgapMessageView};
use crate::ngap::wire;
use crate::octets::{octets_round_trip, octets_u32};
use crate::sessions::{echo_round_trip, echoed, SessionView, SessionsView};
use crate::teid::allocated_teid_is_new;
use crate::transport::LinkEventView;
use crate::tunnels::teid_of;

verus! {

/// The session of an entity's tunnel is there, agrees with the tunnel, and is
/// found by the entity's address.
pub open spec fn reachable(w: WorldView, s: SessionsView, id: u32) -> bool {
    let t = w.tunnel(id)->0;
    let session = s.sessions[t.ul_teid];
    &&& s.sessions.contains_key(t.ul_teid)
    &&& session.entity_id == id
    &&& session.ue_ip == session_ip(id)
    &&& session.dl_teid == t.dl_teid
    &&& session.ran_addr == t.enb_addr
    &&& s.addresses.get(octets_u32(session_ip(id))) == Some(t.ul_teid)
}

/// Every tunnel is reachable.
pub open spec fn sessions_follow_tunnels(w: WorldView, s: SessionsView) -> bool {
    forall|id: u32| (#[trigger] w.tunnel(id)) is Some ==> reachable(w, s, id)
}

/// What holds of a node between link events.
pub open spec fn connected(node: AmfNodeView) -> bool {
    &&& sound(node.amf)
    &&& sessions_follow_tunnels(node.amf.world, node.sessions)
}

/// All entities but one have the tunnel that they had.
spec fn same_tunnels_but(w: WorldView, v: WorldView, id: u32) -> bool {
    forall|other: u32| other != id ==> #[trigger] v.tunnel(other) == w.tunnel(other)
}

proof fn lemma_addresses(a: u32, b: u32)
    requires
        a != b,
    ensures
        octets_u32(session_ip(a)) != octets_u32(session_ip(b)),
{
    octets_round_trip(session_ip(a));
    octets_round_trip(session_ip(b));
    if session_ip(a) == session_ip(b) {
        session_ips_are_separate(a, b);
    }
}

proof fn lemma_same_tunnels(w: WorldView, v: WorldView, s: SessionsView, id: u32)
    requires
        sessions_follow_tunnels(w, s),
        same_tunnels_but(w, v, id),
        v.tunnel(id) == w.tunnel(id),
    ensures
        sessions_follow_tunnels(v, s),
{
    assert forall|other: u32| (#[trigger] v.tunnel(other)) is Some implies reachable(v, s, other) by {
        assert(v.tunnel(other) == w.tunnel(other));
        assert(reachable(w, s, other));
    }
}

proof fn lemma_new_tunnel(w: WorldView, v: WorldView, s: SessionsView, id: u32, ul_teid: u32, session: SessionView)
    requires
        sessions_follow_tunnels(w, s),
        same_tunnels_but(w, v, id),
        v.tunnel(id) == Some(TunnelView { ul_teid, dl_teid: 0, enb_addr: zeros(4) }),
        forall|other: u32| (#[trigger] teid_of(w, other)) is Some ==> teid_of(w, other) != Some(ul_teid),
        session.entity_id == id,
        session.ue_ip == session_ip(id),
        session.dl_teid == 0,
        session.ran_addr == zeros(4),
    ensures
        sessions_follow_tunnels(v, s.create(ul_teid, session)),
{
    let after = s.create(ul_teid, session);
    assert forall|other: u32| (#[trigger] v.tunnel(other)) is Some implies reachable(v, after, other) by {
        if other != id {
            assert(v.tunnel(other) == w.tunnel(other));
            assert(reachable(w, s, other));
            assert(teid_of(w, other) is Some);
            lemma_addresses(id, other);
        }
    }
}

proof fn lemma_updated_tunnel(w: WorldView, v: WorldView, s: SessionsView, id: u32, dl_teid: u32, addr: Seq<u8>)
    requires
        sessions_follow_tunnels(w, s),
        same_tunnels_but(w, v, id),
        w.tunnel(id) is Some,
        v.tunnel(id) == Some(TunnelView { dl_teid, enb_addr: addr, ..w.tunnel(id)->0 }),
        forall|other: u32| other != id && (#[trigger] teid_of(w, other)) is Some ==> teid_of(w, other) != teid_of(w, id),
    ensures
        sessions_follow_tunnels(v, s.update(w.tunnel(id)->0.ul_teid, dl_teid, addr)),
{
    let after = s.update(w.tunnel(id)->0.ul_teid, dl_teid, addr);
    assert(reachable(w, s, id));
    assert forall|other: u32| (#[trigger] v.tunnel(other)) is Some implies reachable(v, after, other) by {
        if other != id {
            assert(v.tunnel(other) == w.tunnel(other));
            assert(reachable(w, s, other));
            assert(teid_of(w, other) is Some);
        }
    }
}

proof fn lemma_removed_tunnel(w: WorldView, v: WorldView, s: SessionsView, id: u32)
    requires
        sessions_follow_tunnels(w, s),
        same_tunnels_but(w, v, id),
        w.tunnel(id) is Some,
        v.tunnel(id) is None,
        forall|other: u32| other != id && (#[trigger] teid_of(w, other)) is Some ==> teid_of(w, other) != teid_of(w, id),
    ensures
        sessions_follow_tunnels(v, s.remove(w.tunnel(id)->0.ul_teid)),
{
    let after = s.remove(w.tunnel(id)->0.ul_teid);
    assert(reachable(w, s, id));
    assert forall|other: u32| (#[trigger] v.tunnel(other)) is Some implies reachable(v, after, other) by {
        assert(v.tunnel(other) == w.tunnel(other));
        assert(reachable(w, s, other));
        assert(teid_of(w, other) is Some);
        lemma_addresses(id, other);
    }
}

proof fn lemma_no_events(s: SessionsView, events: Seq<N3EventView>)
    ensures
        events.len() == 0 ==> s.apply_all_n3(events) == s,
        events.len() == 1 ==> s.apply_all_n3(events) == s.apply_n3(events[0]),
{
    reveal_with_fuel(SessionsView::apply_all_n3, 2);
}

proof fn lemma_registration_connected(node: AmfNodeView, m: InitialUeMessageView, rand: Seq<u8>)
    requires
        connected(node),
        has_room_for(node.amf, NgapMessageView::InitialUeMessage(m)),
    ensures
        ({
            let step = ngap_step(node.amf, NgapMessageView::InitialUeMessage(m), rand);
            sessions_follow_tunnels(step.amf.world, node.sessions) && step.events.len() == 0
        }),
{
    reveal(ngap_step);
    if starts_registration(m.nas_pdu) {
        let w = node.amf.world;
        let id = w.next_id();
        let v = registration_world(w, m.ran_ue_ngap_id, m.tai);
        spawn_is_fresh(w, id);
        assert forall|other: u32| other != id implies #[trigger] v.tunnel(other) == w.tunnel(other) by {
            spawn_is_fresh(w, other);
        }
        lemma_same_tunnels(w, v, node.sessions, id);
    }
}

proof fn lemma_plain_connected(amf: AmfView, s: SessionsView, ran: u32, id: u32, plain: Seq<u8>, rand: Seq<u8>)
    requires
        sound(amf),
        sessions_follow_tunnels(amf.world, s),
        plain_has_room(amf, id, plain),
    ensures
        ({
            let step = plain_step(amf, ran, id, plain, rand);
            sessions_follow_tunnels(step.amf.world, s.apply_all_n3(step.events))
        }),
{
    let w = amf.world;
    let step = plain_step(amf, ran, id, plain, rand);
    let v = step.amf.world;
    assert(same_tunnels_but(w, v, id));
    lemma_no_events(s, step.events);
    if nas5gs_pdu(plain) is Ok && nas5gs_pdu(plain)->Ok_0 is SecurityModeComplete && takes_teid(
        w,
        id,
        amf.phase_b_upf,
    ) {
        let ul_teid = amf.teids.first();
        let imsi = w.identity(id)->0.imsi;
        let session = SessionView {
            entity_id: id,
            imsi,
            ue_ip: session_ip(id),
            ran_addr: zeros(4),
            dl_teid: 0,
            qos: DEFAULT_QFI,
        };
        allocated_teid_is_new(amf.teids, ul_teid);
        lemma_new_tunnel(w, v, s, id, ul_teid, session);
        assert(s.apply_n3(step.events[0]) == s.create(ul_teid, session));
    } else {
        assert(v.tunnel(id) == w.tunnel(id));
        assert(step.events.len() == 0);
        lemma_same_tunnels(w, v, s, id);
    }
}

/// Every link event keeps every UE with a tunnel reachable.
pub proof fn every_event_keeps_ues_connected(node: AmfNodeView, event: Option<LinkEventView>, rand: Seq<u8>)
    requires
        connected(node),
        event_has_room(node.amf, event),
    ensures
        connected(node_step(node, event, rand).0),
{
    if event is Some && event->0 is Message && wire::message(event->0->Message_0) is Ok {
        let msg = wire::message(event->0->Message_0)->Ok_0;
        let amf = node.amf;
        let w = amf.world;
        let s = node.sessions;
        let step = ngap_step(amf, msg, rand);
        every_message_keeps_soundness(amf, msg, rand);
        lemma_no_events(s, step.events);
        match msg {
            NgapMessageView::InitialUeMessage(m) => {
                lemma_registration_connected(node, m, rand);
            },
            NgapMessageView::UplinkNasTransport(m) => {
                reveal(ngap_step);
                let id = m.amf_ue_ngap_id;
                let (world, plain) = opened_uplink(w, id, m.nas_pdu);
                let opened = AmfView { world, ..amf };
                lemma_same_tunnels(w, world, s, id);
                lemma_opened_sound(amf, id, m.nas_pdu);
                if plain is Some {
                    lemma_plain_connected(opened, s, m.ran_ue_ngap_id, id, plain->0, rand);
                }
            },
            NgapMessageView::InitialContextSetupResponse(m) => {
                reveal(ngap_step);
                let id = m.amf_ue_ngap_id;
                let v = step.amf.world;
                if w.tunnel(id) is Some && m.pdu_sessions_setup.len() > 0 {
                    let first = m.pdu_sessions_setup[0];
                    assert(teid_of(w, id) is Some);
                    lemma_updated_tunnel(w, v, s, id, octets_u32(first.gtp_teid), first.transport_layer_addr);
                }
            },
            NgapMessageView::UeContextReleaseComplete(m) => {
                reveal(ngap_step);
                let id = m.amf_ue_ngap_id;
                let v = step.amf.world;
                despawn_removes_one(w, id, id);
                assert forall|other: u32| other != id implies #[trigger] v.tunnel(other) == w.tunnel(other) by {
                    despawn_removes_one(w, id, other);
                }
                if w.tunnel(id) is Some {
                    assert(teid_of(w, id) is Some);
                    lemma_removed_tunnel(w, v, s, id);
                } else {
                    lemma_same_tunnels(w, v, s, id);
                }
            },
            _ => {
                reveal(ngap_step);
            },
        }
    }
}

/// A new node is connected.
pub proof fn new_node_is_connected(upf_ip: Seq<u8>, n_ues: u32, k: Seq<u8>, opc: Seq<u8>)
    ensures
        connected(fresh_node(upf_ip, n_ues, k, opc)),
{
    new_amf_is_sound();
}

/// A packet that a UE with a complete tunnel sends up comes back unchanged, to
/// the gNodeB and under the TEID that the gNodeB assigned.
pub proof fn packets_come_back(node: AmfNodeView, id: u32, payload: Seq<u8>)
    requires
        connected(node),
        node.amf.world.tunnel(id) is Some,
        node.amf.world.tunnel(id)->0.dl_teid != 0,
        payload.len() <= 0xFFFF,
    ensures
        ({
            let t = node.amf.world.tunnel(id)->0;
            echoed(node.sessions, gpdu_octets(t.ul_teid, payload)) == Some(
                (t.enb_addr, gpdu_octets(t.dl_teid, payload)),
            )
        }),
{
    assert(reachable(node.amf.world, node.sessions, id));
    echo_round_trip(node.sessions, node.amf.world.tunnel(id)->0.ul_teid, payload);
}

} // verus!
