//! That the user plane follows the control plane: the bearer of every UE has
//! its session, whatever the node is told.
//!
//! A bearer has no address of its own, so only the bearer of a lone UE is
//! found by its address.

use vstd::prelude::*;

use crate::ecs::{despawn_removes_one, spawn_is_fresh, zeros, TunnelView, WorldView};
use crate::gtp::gpdu_octets;
use crate::mme::attach::{attach_world, imsi_in, starts_attach, takes_teid, DEFAULT_QCI};
use crate::mme::laws::{every_message_keeps_soundness, lemma_opened_sound, new_mme_is_sound, sound};
use crate::mme::state_machine::{
    has_room_for, opened_uplink, plain_has_room, plain_step, s1ap_step, MmeView, UpfEventView,
};
use crate::mme_sim::node::{event_has_room, fresh_node, node_step, MmeNodeView};
use crate::nas::codec::nas_pdu;
use crate::octets::octets_u32;
use crate::s1ap::messages::{InitialUeMessageView, S1apMessageView};
use crate::s1ap::wire;
use crate::sessions::{echo_round_trip, echoed, SessionView, SessionsView};
use crate::teid::allocated_teid_is_new;
use crate::transport::LinkEventView;
use crate::tunnels::teid_of;

verus! {

/// The session of an entity's tunnel is there and agrees with the tunnel. That
/// of a lone entity is found by its address.
pub open spec fn reachable(w: WorldView, s: SessionsView, id: u32) -> bool {
    let t = w.tunnel(id)->0;
    let session = s.sessions[t.ul_teid];
    &&& s.sessions.contains_key(t.ul_teid)
    &&& session.entity_id == id
    &&& session.ue_ip == zeros(4)
    &&& session.dl_teid == t.dl_teid
    &&& session.ran_addr == t.enb_addr
    &&& w.slots.len() <= 1 ==> s.addresses.get(octets_u32(zeros(4))) == Some(t.ul_teid)
}

/// Every tunnel is reachable.
pub open spec fn sessions_follow_tunnels(w: WorldView, s: SessionsView) -> bool {
    forall|id: u32| (#[trigger] w.tunnel(id)) is Some ==> reachable(w, s, id)
}

/// No UE has been given an address.
pub open spec fn no_addresses(w: WorldView) -> bool {
    forall|id: u32| (#[trigger] w.identity(id)) is Some ==> w.identity(id)->0.ue_ip == zeros(4)
}

/// What holds of a node between link events.
pub open spec fn connected(node: MmeNodeView) -> bool {
    &&& sound(node.mme)
    &&& no_addresses(node.mme.world)
    &&& sessions_follow_tunnels(node.mme.world, node.sessions)
}

/// All entities but one have the tunnel that they had, and none was lost.
spec fn same_tunnels_but(w: WorldView, v: WorldView, id: u32) -> bool {
    &&& w.slots.len() <= v.slots.len()
    &&& forall|other: u32| other != id ==> #[trigger] v.tunnel(other) == w.tunnel(other)
}

proof fn lemma_same_tunnels(w: WorldView, v: WorldView, s: SessionsView, id: u32)
    requires
        sessions_follow_tunnels(w, s),
        same_tunnels_but(w, v, id),
        v.tunnel(id) == w.tunnel(id),
    ensures
        sessions_follow_tunnels(v, s),
{
    assert forall|other: u32| (#[trigger] v.tunnel(other)) is Some implies reachable(v, s, other) by {
        assert(v.tunnel(other) == w.tunnel(other));
        assert(reachable(w, s, other));
    }
}

proof fn lemma_new_tunnel(w: WorldView, v: WorldView, s: SessionsView, id: u32, ul_teid: u32, session: SessionView)
    requires
        sessions_follow_tunnels(w, s),
        same_tunnels_but(w, v, id),
        v.tunnel(id) == Some(TunnelView { ul_teid, dl_teid: 0, enb_addr: zeros(4) }),
        forall|other: u32| (#[trigger] teid_of(w, other)) is Some ==> teid_of(w, other) != Some(ul_teid),
        id < w.slots.len(),
        session.entity_id == id,
        session.ue_ip == zeros(4),
        session.dl_teid == 0,
        session.ran_addr == zeros(4),
    ensures
        sessions_follow_tunnels(v, s.create(ul_teid, session)),
{
    let after = s.create(ul_teid, session);
    assert forall|other: u32| (#[trigger] v.tunnel(other)) is Some implies reachable(v, after, other) by {
        if other != id {
            assert(v.tunnel(other) == w.tunnel(other));
            assert(reachable(w, s, other));
            assert(teid_of(w, other) is Some);
        }
    }
}

proof fn lemma_updated_tunnel(w: WorldView, v: WorldView, s: SessionsView, id: u32, dl_teid: u32, addr: Seq<u8>)
    requires
        sessions_follow_tunnels(w, s),
        same_tunnels_but(w, v, id),
        w.tunnel(id) is Some,
        v.tunnel(id) == Some(TunnelView { dl_teid, enb_addr: addr, ..w.tunnel(id)->0 }),
        forall|other: u32| other != id && (#[trigger] teid_of(w, other)) is Some ==> teid_of(w, other) != teid_of(w, id),
    ensures
        sessions_follow_tunnels(v, s.update(w.tunnel(id)->0.ul_teid, dl_teid, addr)),
{
    let after = s.update(w.tunnel(id)->0.ul_teid, dl_teid, addr);
    assert(reachable(w, s, id));
    assert forall|other: u32| (#[trigger] v.tunnel(other)) is Some implies reachable(v, after, other) by {
        if other != id {
            assert(v.tunnel(other) == w.tunnel(other));
            assert(reachable(w, s, other));
            assert(teid_of(w, other) is Some);
        }
    }
}

proof fn lemma_removed_tunnel(w: WorldView, v: WorldView, s: SessionsView, id: u32)
    requires
        sessions_follow_tunnels(w, s),
        same_tunnels_but(w, v, id),
        w.tunnel(id) is Some,
        v.tunnel(id) is None,
        v.slots.len() == w.slots.len(),
        forall|other: u32| other != id && (#[trigger] teid_of(w, other)) is Some ==> teid_of(w, other) != teid_of(w, id),
    ensures
        sessions_follow_tunnels(v, s.remove(w.tunnel(id)->0.ul_teid)),
{
    let after = s.remove(w.tunnel(id)->0.ul_teid);
    assert(reachable(w, s, id));
    assert forall|other: u32| (#[trigger] v.tunnel(other)) is Some implies reachable(v, after, other) by {
        assert(v.tunnel(other) == w.tunnel(other));
        assert(reachable(w, s, other));
        assert(teid_of(w, other) is Some);
    }
}

proof fn lemma_no_events(s: SessionsView, events: Seq<UpfEventView>)
    ensures
        events.len() == 0 ==> s.apply_all_upf(events) == s,
        events.len() == 1 ==> s.apply_all_upf(events) == s.apply_upf(events[0]),
{
    reveal_with_fuel(SessionsView::apply_all_upf, 2);
}

proof fn lemma_attach_connected(node: MmeNodeView, m: InitialUeMessageView, rand: Seq<u8>)
    requires
        connected(node),
        has_room_for(node.mme, S1apMessageView::InitialUeMessage(m)),
    ensures
        ({
            let step = s1ap_step(node.mme, S1apMessageView::InitialUeMessage(m), rand);
            &&& sessions_follow_tunnels(step.mme.world, node.sessions)
            &&& no_addresses(step.mme.world)
            &&& step.events.len() == 0
        }),
{
    reveal(s1ap_step);
    if starts_attach(node.mme.hss, m.nas_pdu) {
        let w = node.mme.world;
        let id = w.next_id();
        let imsi = imsi_in(m.nas_pdu)->0;
        let v = attach_world(w, node.mme.hss[imsi], imsi, m.enb_ue_s1ap_id, m.tai, rand);
        spawn_is_fresh(w, id);
        assert forall|other: u32| other != id implies #[trigger] v.tunnel(other) == w.tunnel(other) by {
            spawn_is_fresh(w, other);
        }
        assert forall|other: u32| (#[trigger] v.identity(other)) is Some implies v.identity(other)->0.ue_ip == zeros(
            4,
        ) by {
            if other != id {
                spawn_is_fresh(w, other);
                assert(v.identity(other) == w.identity(other));
            }
        }
        lemma_same_tunnels(w, v, node.sessions, id);
    }
}

proof fn lemma_plain_connected(mme: MmeView, s: SessionsView, enb: u32, id: u32, plain: Seq<u8>)
    requires
        sound(mme),
        no_addresses(mme.world),
        sessions_follow_tunnels(mme.world, s),
        plain_has_room(mme, id, plain),
    ensures
        ({
            let step = plain_step(mme, enb, id, plain);
            sessions_follow_tunnels(step.mme.world, s.apply_all_upf(step.events)) && no_addresses(step.mme.world)
        }),
{
    let w = mme.world;
    let step = plain_step(mme, enb, id, plain);
    let v = step.mme.world;
    assert(same_tunnels_but(w, v, id));
    assert forall|other: u32| #[trigger] v.identity(other) == w.identity(other) by {}
    lemma_no_events(s, step.events);
    if nas_pdu(plain) is Ok && nas_pdu(plain)->Ok_0 is SecurityModeComplete && takes_teid(w, id, mme.phase3_upf) {
        let ul_teid = mme.teids.first();
        let imsi = w.identity(id)->0.imsi;
        let session = SessionView {
            entity_id: id,
            imsi,
            ue_ip: zeros(4),
            ran_addr: zeros(4),
            dl_teid: 0,
            qos: DEFAULT_QCI,
        };
        allocated_teid_is_new(mme.teids, ul_teid);
        lemma_new_tunnel(w, v, s, id, ul_teid, session);
        assert(s.apply_upf(step.events[0]) == s.create(ul_teid, session));
    } else {
        assert(v.tunnel(id) == w.tunnel(id));
        assert(step.events.len() == 0);
        lemma_same_tunnels(w, v, s, id);
    }
}

/// Every link event keeps the bearer of every UE reachable.
pub proof fn every_event_keeps_ues_connected(node: MmeNodeView, event: Option<LinkEventView>, rand: Seq<u8>)
    requires
        connected(node),
        event_has_room(node.mme, event),
    ensures
        connected(node_step(node, event, rand).0),
{
    if event is Some && event->0 is Message && wire::message(event->0->Message_0) is Ok {
        let msg = wire::message(event->0->Message_0)->Ok_0;
        let mme = node.mme;
        let w = mme.world;
        let s = node.sessions;
        let step = s1ap_step(mme, msg, rand);
        let v = step.mme.world;
        every_message_keeps_soundness(mme, msg, rand);
        lemma_no_events(s, step.events);
        match msg {
            S1apMessageView::InitialUeMessage(m) => {
                lemma_attach_connected(node, m, rand);
            },
            S1apMessageView::UplinkNasTransport(m) => {
                reveal(s1ap_step);
                let id = m.mme_ue_s1ap_id;
                let (world, plain) = opened_uplink(w, id, m.nas_pdu);
                let opened = MmeView { world, ..mme };
                assert forall|other: u32| #[trigger] world.identity(other) == w.identity(other) by {}
                lemma_same_tunnels(w, world, s, id);
                lemma_opened_sound(mme, id, m.nas_pdu);
                if plain is Some {
                    lemma_plain_connected(opened, s, m.enb_ue_s1ap_id, id, plain->0);
                }
            },
            S1apMessageView::InitialContextSetupResponse(m) => {
                reveal(s1ap_step);
                let id = m.mme_ue_s1ap_id;
                assert forall|other: u32| #[trigger] v.identity(other) == w.identity(other) by {}
                if w.tunnel(id) is Some && m.e_rabs_setup.len() > 0 {
                    let first = m.e_rabs_setup[0];
                    assert(teid_of(w, id) is Some);
                    lemma_updated_tunnel(w, v, s, id, octets_u32(first.gtp_teid), first.transport_layer_addr);
                }
            },
            S1apMessageView::UeContextReleaseComplete { mme_ue_s1ap_id: id, .. } => {
                reveal(s1ap_step);
                despawn_removes_one(w, id, id);
                assert forall|other: u32| other != id implies #[trigger] v.tunnel(other) == w.tunnel(other) by {
                    despawn_removes_one(w, id, other);
                }
                assert forall|other: u32| (#[trigger] v.identity(other)) is Some implies v.identity(other)
                    == w.identity(other) by {
                    despawn_removes_one(w, id, other);
                }
                if w.tunnel(id) is Some {
                    assert(teid_of(w, id) is Some);
                    lemma_removed_tunnel(w, v, s, id);
                } else {
                    lemma_same_tunnels(w, v, s, id);
                }
            },
            _ => {
                reveal(s1ap_step);
            },
        }
    }
}

/// A new node is connected.
pub proof fn new_node_is_connected(upf_ip: Seq<u8>, k: Seq<u8>, opc: Seq<u8>)
    ensures
        connected(fresh_node(upf_ip, k, opc)),
{
    new_mme_is_sound();
}

/// A packet that a lone UE with a complete tunnel sends up comes back
/// unchanged, to the eNodeB and under the TEID that the eNodeB assigned.
pub proof fn packets_come_back(node: MmeNodeView, id: u32, payload: Seq<u8>)
    requires
        connected(node),
        node.mme.world.slots.len() <= 1,
        node.mme.world.tunnel(id) is Some,
        node.mme.world.tunnel(id)->0.dl_teid != 0,
        payload.len() <= 0xFFFF,
    ensures
        ({
            let t = node.mme.world.tunnel(id)->0;
            echoed(node.sessions, gpdu_octets(t.ul_teid, payload)) == Some(
                (t.enb_addr, gpdu_octets(t.dl_teid, payload)),
            )
        }),
{
    assert(reachable(node.mme.world, node.sessions, id));
    echo_round_trip(node.sessions, node.mme.world.tunnel(id)->0.ul_teid, payload);
}

} // verus!
