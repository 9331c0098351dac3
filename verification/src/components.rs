//! Laws of the components of an entity.

use vstd::prelude::*;

use crate::ecs::{
    authenticated_count, live_count, zeros, AkaView, AuthState, EntityView, IdentityView, SecurityView, TunnelView, WorldView,
};
use crate::nas::security::NasSecurityContextView;

verus! {

/// A component that is given to a live entity is what the entity holds then.
/// Its other components, the other entities and the free identifiers stay as
/// they were. Nothing is given to an entity that is not live.
pub proof fn components_are_separate(
    w: WorldView,
    id: u32,
    identity: IdentityView,
    auth: AuthState,
    security: SecurityView,
    nas: NasSecurityContextView,
    tunnel: TunnelView,
    aka: AkaView,
)
    ensures
        ({
            let e = w.entity(id)->0;
            &&& w.is_live(id) ==> {
                &&& w.with_identity(id, identity).entity(id) == Some(EntityView { identity: Some(identity), ..e })
                &&& w.with_auth(id, auth).entity(id) == Some(EntityView { auth, ..e })
                &&& w.with_security(id, security).entity(id) == Some(EntityView { security: Some(security), ..e })
                &&& w.with_nas_security(id, nas).entity(id) == Some(EntityView { nas_security: Some(nas), ..e })
                &&& w.with_tunnel(id, tunnel).entity(id) == Some(EntityView { tunnel: Some(tunnel), ..e })
                &&& w.with_security5g(id, aka).entity(id) == Some(EntityView { security5g: Some(aka), ..e })
                &&& w.with_nas_security5g(id, nas).entity(id) == Some(EntityView { nas_security5g: Some(nas), ..e })
                &&& w.identity(id) == e.identity && w.security(id) == e.security && w.nas_security(id)
                    == e.nas_security && w.tunnel(id) == e.tunnel && w.security5g(id) == e.security5g
                    && w.nas_security5g(id) == e.nas_security5g
            }
            &&& !w.is_live(id) ==> {
                &&& w.with_identity(id, identity) == w && w.with_auth(id, auth) == w && w.with_security(id, security)
                    == w && w.with_nas_security(id, nas) == w && w.with_tunnel(id, tunnel) == w && w.with_security5g(
                    id,
                    aka,
                ) == w && w.with_nas_security5g(id, nas) == w
                &&& w.identity(id) is None && w.security(id) is None && w.nas_security(id) is None && w.tunnel(
                    id,
                ) is None && w.security5g(id) is None && w.nas_security5g(id) is None
            }
        }),
        forall|other: u32|
            #![trigger w.entity(other)]
            other != id ==> {
                &&& w.with_identity(id, identity).entity(other) == w.entity(other)
                &&& w.with_auth(id, auth).entity(other) == w.entity(other)
                &&& w.with_security(id, security).entity(other) == w.entity(other)
                &&& w.with_nas_security(id, nas).entity(other) == w.entity(other)
                &&& w.with_tunnel(id, tunnel).entity(other) == w.entity(other)
                &&& w.with_security5g(id, aka).entity(other) == w.entity(other)
                &&& w.with_nas_security5g(id, nas).entity(other) == w.entity(other)
            },
        w.with_identity(id, identity).free == w.free && w.with_auth(id, auth).free == w.free && w.with_security(
            id,
            security,
        ).free == w.free && w.with_nas_security(id, nas).free == w.free && w.with_tunnel(id, tunnel).free == w.free
            && w.with_security5g(id, aka).free == w.free && w.with_nas_security5g(id, nas).free == w.free,
{
}

/// Identifiers count up from 0 while none is free; one that was freed is the
/// next to be given out, and while it is given out nothing else changes hands.
pub proof fn identifiers_are_reused(w: WorldView, id: u32)
    requires
        w.wf(),
    ensures
        WorldView::empty().next_id() == 0,
        w.free.len() == 0 && !w.full() ==> w.spawn().slots.len() == w.next_id() + 1 && w.spawn().free.len() == 0,
        w.is_live(id) ==> w.despawn(id).next_id() == id && w.despawn(id).spawn().free == w.free,
        w.is_live(id) ==> w.despawn(id).spawn().entity(id) == Some(EntityView::fresh()),
        !w.is_live(id) ==> w.despawn(id) == w,
        ({
            let e = EntityView::fresh();
            &&& e.identity is None && e.security is None && e.nas_security is None && e.tunnel is None
            &&& e.security5g is None && e.nas_security5g is None && e.auth == AuthState::Unauthenticated
        }),
{
    if w.is_live(id) {
        assert(w.despawn(id).spawn().free =~= w.free);
    }
}

/// The entities that are counted are those that are live, and of them those
/// that are authenticated.
pub proof fn counts_are_exact(slots: Seq<Option<EntityView>>)
    ensures
        live_count(slots) == slots.filter(|o: Option<EntityView>| o is Some).len(),
        authenticated_count(slots) == slots.filter(
            |o: Option<EntityView>| o is Some && o->0.auth == AuthState::Authenticated,
        ).len(),
    decreases slots.len(),
{
    reveal(Seq::filter);
    if slots.len() > 0 {
        counts_are_exact(slots.drop_last());
    }
}

/// What is cleared is zero in every octet, and nothing else changes: the
/// challenge once it is answered, the keys once they have served, all of them
/// when an entity goes. A context that was never used is all zero.
pub proof fn key_material_is_wiped(s: SecurityView, a: AkaView, c: NasSecurityContextView, e: EntityView, i: int)
    requires
        0 <= i < 16,
    ensures
        ({
            let n = s.challenge_cleared();
            &&& n.pending_rand.len() == 16 && n.pending_xres.len() == 8
            &&& n.pending_rand[i] == 0 && (i < 8 ==> n.pending_xres[i] == 0)
            &&& n == SecurityView { pending_rand: n.pending_rand, pending_xres: n.pending_xres, ..s }
        }),
        ({
            let n = s.keys_cleared();
            &&& n.ck.len() == 16 && n.ik.len() == 16 && n.ak.len() == 6
            &&& n.ck[i] == 0 && n.ik[i] == 0 && (i < 6 ==> n.ak[i] == 0)
            &&& n == SecurityView { ck: n.ck, ik: n.ik, ak: n.ak, ..s }
        }),
        SecurityView::empty() == (SecurityView {
            plmn: seq![0u8, 0, 0],
            sqn_used: seq![0u8, 0, 0, 0, 0, 0],
            ..s.challenge_cleared().keys_cleared()
        }),
        AkaView::empty() == (AkaView {
            plmn: seq![0u8, 0, 0],
            sqn_used: seq![0u8, 0, 0, 0, 0, 0],
            ..a.challenge_cleared().keys_cleared()
        }),
        ({
            let n = a.challenge_cleared();
            &&& n.pending_rand.len() == 16 && n.pending_xres_star.len() == 16
            &&& n.pending_rand[i] == 0 && n.pending_xres_star[i] == 0
            &&& n == AkaView { pending_rand: n.pending_rand, pending_xres_star: n.pending_xres_star, ..a }
        }),
        ({
            let n = a.keys_cleared();
            &&& n.ck.len() == 16 && n.ik.len() == 16 && n.ak.len() == 6
            &&& n.ck[i] == 0 && n.ik[i] == 0 && (i < 6 ==> n.ak[i] == 0)
            &&& n == AkaView { ck: n.ck, ik: n.ik, ak: n.ak, ..a }
        }),
        ({
            let n = c.zeroized();
            &&& n.k_nas_enc.len() == 16 && n.k_nas_int.len() == 16
            &&& n.k_nas_enc[i] == 0 && n.k_nas_int[i] == 0 && n.ul_count == 0 && n.dl_count == 0
            &&& n.eea == c.eea && n.eia == c.eia
        }),
        ({
            let n = e.wiped();
            &&& n.identity == e.identity && n.auth == e.auth && n.tunnel == e.tunnel
            &&& n.security is Some <==> e.security is Some
            &&& n.security is Some ==> n.security->0 == e.security->0.keys_cleared().challenge_cleared()
            &&& n.nas_security is Some <==> e.nas_security is Some
            &&& n.nas_security is Some ==> n.nas_security->0 == e.nas_security->0.zeroized()
            &&& n.security5g is Some <==> e.security5g is Some
            &&& n.security5g is Some ==> n.security5g->0 == e.security5g->0.keys_cleared().challenge_cleared()
            &&& n.nas_security5g is Some <==> e.nas_security5g is Some
            &&& n.nas_security5g is Some ==> n.nas_security5g->0 == e.nas_security5g->0.zeroized()
        }),
{
    assert(zeros(3) =~= seq![0u8, 0, 0]);
    assert(zeros(6) =~= seq![0u8, 0, 0, 0, 0, 0]);
}

} // verus!
