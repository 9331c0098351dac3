//! Which entity has which uplink TEID, and that no two share one.

use vstd::prelude::*;

use crate::ecs::WorldView;
use crate::teid::{allocated_teid_is_new, released_teid_is_reused, TeidView};

verus! {

/// The TEID of an entity's tunnel.
pub open spec fn teid_of(w: WorldView, id: u32) -> Option<u32> {
    match w.tunnel(id) {
        Some(t) => Some(t.ul_teid),
        None => None,
    }
}

/// Every tunnel has an outstanding TEID, and no two tunnels share one.
pub open spec fn tunnels_are_sound(w: WorldView, teids: TeidView) -> bool {
    &&& forall|id: u32| (#[trigger] teid_of(w, id)) is Some ==> teids.outstanding(teid_of(w, id)->0)
    &&& forall|a: u32, b: u32|
        (#[trigger] teid_of(w, a)) is Some && (#[trigger] teid_of(w, b)) is Some && a != b ==> teid_of(w, a) != teid_of(
            w,
            b,
        )
}

/// All entities but one have the TEID that they had.
pub open spec fn same_teids_but(w: WorldView, v: WorldView, id: u32) -> bool {
    forall|other: u32| other != id ==> #[trigger] teid_of(v, other) == teid_of(w, other)
}

/// Where no TEID changes hands, tunnels stay sound.
pub proof fn unchanged_tunnels_stay_sound(w: WorldView, v: WorldView, id: u32, teids: TeidView)
    requires
        tunnels_are_sound(w, teids),
        same_teids_but(w, v, id),
        teid_of(v, id) == teid_of(w, id),
    ensures
        tunnels_are_sound(v, teids),
{
    assert forall|other: u32| #[trigger] teid_of(v, other) == teid_of(w, other) by {}
}

/// Where an entity is given a new TEID, tunnels stay sound.
pub proof fn new_tunnel_stays_sound(w: WorldView, v: WorldView, id: u32, teids: TeidView)
    requires
        tunnels_are_sound(w, teids),
        teids.wf(),
        teids.available(),
        same_teids_but(w, v, id),
        teid_of(v, id) == Some(teids.first()),
    ensures
        tunnels_are_sound(v, teids.taken()),
        teids.taken().wf(),
{
    allocated_teid_is_new(teids, teids.first());
    assert forall|other: u32| (#[trigger] teid_of(v, other)) is Some implies teids.taken().outstanding(
        teid_of(v, other)->0,
    ) by {
        if other != id {
            assert(teid_of(v, other) == teid_of(w, other));
            allocated_teid_is_new(teids, teid_of(w, other)->0);
        }
    }
    assert forall|a: u32, b: u32|
        (#[trigger] teid_of(v, a)) is Some && (#[trigger] teid_of(v, b)) is Some && a != b implies teid_of(v, a)
        != teid_of(v, b) by {
        if a != id {
            assert(teid_of(v, a) == teid_of(w, a));
        }
        if b != id {
            assert(teid_of(v, b) == teid_of(w, b));
        }
    }
}

/// Where an entity's TEID is given back, tunnels stay sound.
pub proof fn released_tunnel_stays_sound(w: WorldView, v: WorldView, id: u32, teids: TeidView)
    requires
        tunnels_are_sound(w, teids),
        teids.wf(),
        same_teids_but(w, v, id),
        teid_of(w, id) is Some,
        teid_of(v, id) is None,
    ensures
        tunnels_are_sound(v, teids.release(teid_of(w, id)->0)),
        teids.release(teid_of(w, id)->0).wf(),
        !teids.release(teid_of(w, id)->0).outstanding(teid_of(w, id)->0),
{
    let t = teid_of(w, id)->0;
    released_teid_is_reused(teids, t, t);
    assert forall|other: u32| (#[trigger] teid_of(v, other)) is Some implies teids.release(t).outstanding(
        teid_of(v, other)->0,
    ) by {
        assert(other != id);
        assert(teid_of(v, other) == teid_of(w, other));
        released_teid_is_reused(teids, t, teid_of(w, other)->0);
    }
    assert forall|a: u32, b: u32|
        (#[trigger] teid_of(v, a)) is Some && (#[trigger] teid_of(v, b)) is Some && a != b implies teid_of(v, a)
        != teid_of(v, b) by {
        assert(a != id && b != id);
        assert(teid_of(v, a) == teid_of(w, a) && teid_of(v, b) == teid_of(w, b));
    }
}

} // verus!
