//! Subscriber state, as entities with components.
//!
//! A [`World`] holds one entity for each UE context. An entity identifier is
//! an index; the identifier of a despawned entity is given out again. Every
//! live entity has an authentication state; the other components are
//! optional. What is written to an entity that is not live is dropped.

use std::collections::HashMap;

use vstd::prelude::*;
use vstd::std_specs::hash::*;

use crate::crypto::zeroize_octets;
use crate::nas::security::{NasSecurityContext, NasSecurityContextView};
use crate::nas5gs::security::Nas5gsSecurityContext;

verus! {

// ── Components ────────────────────────────────────────────────────────────────

/// Who the UE is, and how the radio access network knows it.
#[derive(Debug, Clone, Copy)]
pub struct IdentityComponent {
    /// 0 until the identity is known.
    pub imsi: u64,
    /// The identifier that the eNodeB or gNodeB assigned.
    pub enb_ue_s1ap_id: u32,
    pub ue_ip: [u8; 4],
}

#[derive(Debug, Clone, Copy, PartialEq, Eq, Structural)]
pub enum AuthFailReason {
    ResMismatch,
}

#[derive(Debug, Clone, Copy, PartialEq, Eq, Structural)]
pub enum AuthState {
    Unauthenticated,
    ChallengeIssued,
    Authenticated,
    Failed(AuthFailReason),
}

/// LTE key material of a UE between the challenge and the derivation of
/// Kasme.
#[derive(Clone, Copy)]
pub struct SecurityContext {
    pub pending_rand: [u8; 16],
    pub pending_xres: [u8; 8],
    pub ck: [u8; 16],
    pub ik: [u8; 16],
    pub ak: [u8; 6],
    pub plmn: [u8; 3],
    pub sqn_used: [u8; 6],
}

/// 5G-AKA material of a UE between the challenge and the derivation of KAMF.
#[derive(Clone, Copy)]
pub struct Nas5gsAkaContext {
    pub pending_rand: [u8; 16],
    pub pending_xres_star: [u8; 16],
    pub ck: [u8; 16],
    pub ik: [u8; 16],
    pub ak: [u8; 6],
    /// The serving network, from the tracking area of the first message.
    pub plmn: [u8; 3],
    pub sqn_used: [u8; 6],
}

/// The user plane tunnel of a UE.
#[derive(Debug, Clone, Copy)]
pub struct TunnelComponent {
    /// The TEID that uplink packets carry.
    pub ul_teid: u32,
    /// The TEID that downlink packets carry; 0 until the radio access network
    /// has assigned one.
    pub dl_teid: u32,
    pub enb_addr: [u8; 4],
}

#[verifier::ext_equal]
pub struct IdentityView {
    pub imsi: u64,
    pub enb_ue_s1ap_id: u32,
    pub ue_ip: Seq<u8>,
}

#[verifier::ext_equal]
pub struct SecurityView {
    pub pending_rand: Seq<u8>,
    pub pending_xres: Seq<u8>,
    pub ck: Seq<u8>,
    pub ik: Seq<u8>,
    pub ak: Seq<u8>,
    pub plmn: Seq<u8>,
    pub sqn_used: Seq<u8>,
}

#[verifier::ext_equal]
pub struct AkaView {
    pub pending_rand: Seq<u8>,
    pub pending_xres_star: Seq<u8>,
    pub ck: Seq<u8>,
    pub ik: Seq<u8>,
    pub ak: Seq<u8>,
    pub plmn: Seq<u8>,
    pub sqn_used: Seq<u8>,
}

#[verifier::ext_equal]
pub struct TunnelView {
    pub ul_teid: u32,
    pub dl_teid: u32,
    pub enb_addr: Seq<u8>,
}

impl View for IdentityComponent {
    type V = IdentityView;

    open spec fn view(&self) -> IdentityView {
        IdentityView { imsi: self.imsi, enb_ue_s1ap_id: self.enb_ue_s1ap_id, ue_ip: self.ue_ip@ }
    }
}

impl View for SecurityContext {
    type V = SecurityView;

    open spec fn view(&self) -> SecurityView {
        SecurityView {
            pending_rand: self.pending_rand@,
            pending_xres: self.pending_xres@,
            ck: self.ck@,
            ik: self.ik@,
            ak: self.ak@,
            plmn: self.plmn@,
            sqn_used: self.sqn_used@,
        }
    }
}

impl View for Nas5gsAkaContext {
    type V = AkaView;

    open spec fn view(&self) -> AkaView {
        AkaView {
            pending_rand: self.pending_rand@,
            pending_xres_star: self.pending_xres_star@,
            ck: self.ck@,
            ik: self.ik@,
            ak: self.ak@,
            plmn: self.plmn@,
            sqn_used: self.sqn_used@,
        }
    }
}

impl View for TunnelComponent {
    type V = TunnelView;

    open spec fn view(&self) -> TunnelView {
        TunnelView { ul_teid: self.ul_teid, dl_teid: self.dl_teid, enb_addr: self.enb_addr@ }
    }
}

/// `n` zero octets.
pub open spec fn zeros(n: nat) -> Seq<u8> {
    Seq::new(n, |i: int| 0u8)
}

impl SecurityView {
    pub open spec fn empty() -> SecurityView {
        SecurityView {
            pending_rand: zeros(16),
            pending_xres: zeros(8),
            ck: zeros(16),
            ik: zeros(16),
            ak: zeros(6),
            plmn: zeros(3),
            sqn_used: zeros(6),
        }
    }

    pub open spec fn challenge_cleared(self) -> SecurityView {
        SecurityView { pending_rand: zeros(16), pending_xres: zeros(8), ..self }
    }

    pub open spec fn keys_cleared(self) -> SecurityView {
        SecurityView { ck: zeros(16), ik: zeros(16), ak: zeros(6), ..self }
    }
}

impl SecurityContext {
    pub fn new_empty() -> (c: Self)
        ensures
            c@ == SecurityView::empty(),
    {
        SecurityContext {
            pending_rand: [0; 16],
            pending_xres: [0; 8],
            ck: [0; 16],
            ik: [0; 16],
            ak: [0; 6],
            plmn: [0; 3],
            sqn_used: [0; 6],
        }
    }

    /// Wipes the challenge and the expected response.
    pub fn clear_pending_challenge(&mut self)
        ensures
            final(self)@ == (old(self)@).challenge_cleared(),
    {
        zeroize_octets(&mut self.pending_rand);
        zeroize_octets(&mut self.pending_xres);
    }

    /// Wipes what is not needed once Kasme is derived.
    pub fn clear_post_kasme(&mut self)
        ensures
            final(self)@ == (old(self)@).keys_cleared(),
    {
        zeroize_octets(&mut self.ck);
        zeroize_octets(&mut self.ik);
        zeroize_octets(&mut self.ak);
    }
}

impl AkaView {
    pub open spec fn empty() -> AkaView {
        AkaView {
            pending_rand: zeros(16),
            pending_xres_star: zeros(16),
            ck: zeros(16),
            ik: zeros(16),
            ak: zeros(6),
            plmn: zeros(3),
            sqn_used: zeros(6),
        }
    }

    pub open spec fn challenge_cleared(self) -> AkaView {
        AkaView { pending_rand: zeros(16), pending_xres_star: zeros(16), ..self }
    }

    pub open spec fn keys_cleared(self) -> AkaView {
        AkaView { ck: zeros(16), ik: zeros(16), ak: zeros(6), ..self }
    }
}

impl Nas5gsAkaContext {
    pub fn new_empty() -> (c: Self)
        ensures
            c@ == AkaView::empty(),
    {
        Nas5gsAkaContext {
            pending_rand: [0; 16],
            pending_xres_star: [0; 16],
            ck: [0; 16],
            ik: [0; 16],
            ak: [0; 6],
            plmn: [0; 3],
            sqn_used: [0; 6],
        }
    }

    /// Wipes the challenge and the expected response.
    pub fn clear_pending_challenge(&mut self)
        ensures
            final(self)@ == (old(self)@).challenge_cleared(),
    {
        zeroize_octets(&mut self.pending_rand);
        zeroize_octets(&mut self.pending_xres_star);
    }

    /// Wipes what is not needed once KAMF is derived.
    pub fn clear_post_kamf(&mut self)
        ensures
            final(self)@ == (old(self)@).keys_cleared(),
    {
        zeroize_octets(&mut self.ck);
        zeroize_octets(&mut self.ik);
        zeroize_octets(&mut self.ak);
    }
}

// ── Entities ──────────────────────────────────────────────────────────────────

struct Entity {
    identity: Option<IdentityComponent>,
    auth: AuthState,
    security: Option<SecurityContext>,
    nas_security: Option<NasSecurityContext>,
    tunnel: Option<TunnelComponent>,
    security5g: Option<Nas5gsAkaContext>,
    nas_security5g: Option<Nas5gsSecurityContext>,
}

#[verifier::ext_equal]
pub struct EntityView {
    pub identity: Option<IdentityView>,
    pub auth: AuthState,
    pub security: Option<SecurityView>,
    pub nas_security: Option<NasSecurityContextView>,
    pub tunnel: Option<TunnelView>,
    pub security5g: Option<AkaView>,
    pub nas_security5g: Option<NasSecurityContextView>,
}

/// The view of an optional component.
pub open spec fn opt_view<T: View>(o: Option<T>) -> Option<T::V> {
    match o {
        Some(x) => Some(x@),
        None => None,
    }
}

impl View for Entity {
    type V = EntityView;

    closed spec fn view(&self) -> EntityView {
        EntityView {
            identity: opt_view(self.identity),
            auth: self.auth,
            security: opt_view(self.security),
            nas_security: opt_view(self.nas_security),
            tunnel: opt_view(self.tunnel),
            security5g: opt_view(self.security5g),
            nas_security5g: opt_view(self.nas_security5g),
        }
    }
}

impl EntityView {
    /// A freshly spawned entity.
    pub open spec fn fresh() -> EntityView {
        EntityView {
            identity: None,
            auth: AuthState::Unauthenticated,
            security: None,
            nas_security: None,
            tunnel: None,
            security5g: None,
            nas_security5g: None,
        }
    }

    /// The entity without its key material: challenges, expected responses,
    /// keys and COUNTs are zero. All else is as it was.
    pub open spec fn wiped(self) -> EntityView {
        EntityView {
            security: match self.security {
                Some(c) => Some(c.challenge_cleared().keys_cleared()),
                None => None,
            },
            nas_security: match self.nas_security {
                Some(c) => Some(c.zeroized()),
                None => None,
            },
            security5g: match self.security5g {
                Some(c) => Some(c.challenge_cleared().keys_cleared()),
                None => None,
            },
            nas_security5g: match self.nas_security5g {
                Some(c) => Some(c.zeroized()),
                None => None,
            },
            ..self
        }
    }
}

impl Entity {
    fn fresh() -> (e: Self)
        ensures
            e@ == EntityView::fresh(),
    {
        Entity {
            identity: None,
            auth: AuthState::Unauthenticated,
            security: None,
            nas_security: None,
            tunnel: None,
            security5g: None,
            nas_security5g: None,
        }
    }
}

// ── World ─────────────────────────────────────────────────────────────────────

/// All entities. A slot without an entity is listed in `free`.
pub struct World {
    slots: Vec<Option<Entity>>,
    free: Vec<u32>,
}

#[verifier::ext_equal]
pub struct WorldView {
    pub slots: Seq<Option<EntityView>>,
    pub free: Seq<u32>,
}

impl View for World {
    type V = WorldView;

    closed spec fn view(&self) -> WorldView {
        WorldView { slots: self.slots@.map_values(|o: Option<Entity>| opt_view(o)), free: self.free@ }
    }
}

impl WorldView {
    pub open spec fn empty() -> WorldView {
        WorldView { slots: Seq::empty(), free: Seq::empty() }
    }

    /// Every free identifier is that of an empty slot and listed once, every
    /// empty slot is free, and every slot has an identifier.
    pub open spec fn wf(self) -> bool {
        &&& self.slots.len() <= u32::MAX
        &&& self.free.no_duplicates()
        &&& forall|i: int|
            0 <= i < self.free.len() ==> (#[trigger] self.free[i]) < self.slots.len() && self.slots[self.free[i] as int]
                is None
        &&& forall|id: u32| id < self.slots.len() && (#[trigger] self.slots[id as int]) is None ==> self.free.contains(id)
    }

    /// No identifier is left to give out.
    pub open spec fn full(self) -> bool {
        self.free.len() == 0 && self.slots.len() >= u32::MAX
    }

    /// The entity of an identifier, if it is live.
    pub open spec fn entity(self, id: u32) -> Option<EntityView> {
        if id < self.slots.len() {
            self.slots[id as int]
        } else {
            None
        }
    }

    pub open spec fn is_live(self, id: u32) -> bool {
        self.entity(id) is Some
    }

    /// A live entity replaced.
    pub open spec fn put(self, id: u32, e: EntityView) -> WorldView {
        WorldView { slots: self.slots.update(id as int, Some(e)), ..self }
    }

    /// The identifier that the next entity gets: the one freed last, else a
    /// new one.
    pub open spec fn next_id(self) -> u32 {
        if self.free.len() > 0 {
            self.free.last()
        } else {
            self.slots.len() as u32
        }
    }

    pub open spec fn spawn(self) -> WorldView {
        if self.free.len() > 0 {
            WorldView {
                slots: self.slots.update(self.free.last() as int, Some(EntityView::fresh())),
                free: self.free.drop_last(),
            }
        } else {
            WorldView { slots: self.slots.push(Some(EntityView::fresh())), ..self }
        }
    }

    pub open spec fn despawn(self, id: u32) -> WorldView {
        if self.is_live(id) {
            WorldView { slots: self.slots.update(id as int, None), free: self.free.push(id) }
        } else {
            self
        }
    }

    pub open spec fn with_identity(self, id: u32, c: IdentityView) -> WorldView {
        match self.entity(id) {
            Some(e) => self.put(id, EntityView { identity: Some(c), ..e }),
            None => self,
        }
    }

    pub open spec fn with_auth(self, id: u32, auth: AuthState) -> WorldView {
        match self.entity(id) {
            Some(e) => self.put(id, EntityView { auth, ..e }),
            None => self,
        }
    }

    pub open spec fn with_security(self, id: u32, c: SecurityView) -> WorldView {
        match self.entity(id) {
            Some(e) => self.put(id, EntityView { security: Some(c), ..e }),
            None => self,
        }
    }

    pub open spec fn with_nas_security(self, id: u32, c: NasSecurityContextView) -> WorldView {
        match self.entity(id) {
            Some(e) => self.put(id, EntityView { nas_security: Some(c), ..e }),
            None => self,
        }
    }

    pub open spec fn with_tunnel(self, id: u32, c: TunnelView) -> WorldView {
        match self.entity(id) {
            Some(e) => self.put(id, EntityView { tunnel: Some(c), ..e }),
            None => self,
        }
    }

    pub open spec fn with_security5g(self, id: u32, c: AkaView) -> WorldView {
        match self.entity(id) {
            Some(e) => self.put(id, EntityView { security5g: Some(c), ..e }),
            None => self,
        }
    }

    pub open spec fn with_nas_security5g(self, id: u32, c: NasSecurityContextView) -> WorldView {
        match self.entity(id) {
            Some(e) => self.put(id, EntityView { nas_security5g: Some(c), ..e }),
            None => self,
        }
    }

    pub open spec fn identity(self, id: u32) -> Option<IdentityView> {
        match self.entity(id) {
            Some(e) => e.identity,
            None => None,
        }
    }

    pub open spec fn security(self, id: u32) -> Option<SecurityView> {
        match self.entity(id) {
            Some(e) => e.security,
            None => None,
        }
    }

    pub open spec fn nas_security(self, id: u32) -> Option<NasSecurityContextView> {
        match self.entity(id) {
            Some(e) => e.nas_security,
            None => None,
        }
    }

    pub open spec fn tunnel(self, id: u32) -> Option<TunnelView> {
        match self.entity(id) {
            Some(e) => e.tunnel,
            None => None,
        }
    }

    pub open spec fn security5g(self, id: u32) -> Option<AkaView> {
        match self.entity(id) {
            Some(e) => e.security5g,
            None => None,
        }
    }

    pub open spec fn nas_security5g(self, id: u32) -> Option<NasSecurityContextView> {
        match self.entity(id) {
            Some(e) => e.nas_security5g,
            None => None,
        }
    }
}

/// How many slots hold an entity.
pub open spec fn live_count(slots: Seq<Option<EntityView>>) -> nat
    decreases slots.len(),
{
    if slots.len() == 0 {
        0
    } else {
        live_count(slots.drop_last()) + if slots.last() is Some {
            1nat
        } else {
            0nat
        }
    }
}

/// How many slots hold an authenticated entity.
pub open spec fn authenticated_count(slots: Seq<Option<EntityView>>) -> nat
    decreases slots.len(),
{
    if slots.len() == 0 {
        0
    } else {
        authenticated_count(slots.drop_last()) + if slots.last() is Some && slots.last()->0.auth
            == AuthState::Authenticated {
            1nat
        } else {
            0nat
        }
    }
}

impl World {
    pub fn new() -> (w: Self)
        ensures
            w@ == WorldView::empty(),
            w@.wf(),
    {
        let w = World { slots: Vec::new(), free: Vec::new() };
        assert(w@ =~= WorldView::empty());
        w
    }

    /// An empty world with space for `n` entities.
    pub fn with_capacity(n: usize) -> (w: Self)
        ensures
            w@ == WorldView::empty(),
            w@.wf(),
    {
        let w = World { slots: Vec::with_capacity(n), free: Vec::new() };
        assert(w@ =~= WorldView::empty());
        w
    }

    /// Whether no identifier is left to give out.
    pub fn is_full(&self) -> (b: bool)
        ensures
            b == self@.full(),
    {
        self.free.len() == 0 && self.slots.len() >= u32::MAX as usize
    }

    /// Creates an entity and returns its identifier.
    pub fn spawn(&mut self) -> (id: u32)
        requires
            old(self)@.wf(),
            !old(self)@.full(),
        ensures
            id == (old(self)@).next_id(),
            final(self)@ == (old(self)@).spawn(),
            final(self)@.wf(),
    {
        let ghost before = self@;
        proof {
            spawn_keeps_wf(before);
        }
        match self.free.pop() {
            Some(id) => {
                self.slots.set(id as usize, Some(Entity::fresh()));
                assert(self@ =~= before.spawn());
                id
            },
            None => {
                let id: u32 = self.slots.len() as u32;
                self.slots.push(Some(Entity::fresh()));
                assert(self@ =~= before.spawn());
                id
            },
        }
    }

    /// Removes an entity with all its components, key material wiped.
    pub fn despawn(&mut self, id: u32)
        requires
            old(self)@.wf(),
        ensures
            final(self)@ == (old(self)@).despawn(id),
            final(self)@.wf(),
    {
        let ghost before = self@;
        proof {
            despawn_keeps_wf(before, id);
        }
        let i: usize = id as usize;
        if i < self.slots.len() {
            if let Some(e) = &mut self.slots[i] {
                e.wipe();
                self.slots.set(i, None);
                self.free.push(id);
                assert(self@ =~= before.despawn(id));
            }
        }
    }

    pub fn is_live(&self, id: u32) -> (b: bool)
        ensures
            b == self@.is_live(id),
    {
        let i: usize = id as usize;
        i < self.slots.len() && self.slots[i].is_some()
    }

    fn entity(&self, id: u32) -> (e: Option<&Entity>)
        ensures
            match e {
                Some(e) => self@.entity(id) == Some(e@),
                None => self@.entity(id) is None,
            },
    {
        let i: usize = id as usize;
        if i < self.slots.len() {
            self.slots[i].as_ref()
        } else {
            None
        }
    }
}

impl Entity {
    /// Overwrites the key material of all components with zeros.
    fn wipe(&mut self)
        ensures
            final(self)@ == (old(self)@).wiped(),
    {
        if let Some(c) = &mut self.security {
            c.clear_pending_challenge();
            c.clear_post_kasme();
        }
        if let Some(c) = &mut self.nas_security {
            c.zeroize();
        }
        if let Some(c) = &mut self.security5g {
            c.clear_pending_challenge();
            c.clear_post_kamf();
        }
        if let Some(c) = &mut self.nas_security5g {
            c.ctx.zeroize();
        }
    }
}

impl World {
    fn entity_mut(&mut self, id: u32) -> (e: Option<&mut Entity>)
        ensures
            match e {
                Some(m) => (old(self)@).entity(id) == Some(m@) && final(self)@ == (old(self)@).put(id, final(m)@),
                None => (old(self)@).entity(id) is None && final(self)@ == old(self)@,
            },
    {
        let i: usize = id as usize;
        if i < self.slots.len() {
            match &mut self.slots[i] {
                Some(e) => Some(e),
                None => None,
            }
        } else {
            None
        }
    }

    pub fn auth_state(&self, id: u32) -> (s: Option<AuthState>)
        ensures
            s == match self@.entity(id) {
                Some(e) => Some(e.auth),
                None => None,
            },
    {
        match self.entity(id) {
            Some(e) => Some(e.auth),
            None => None,
        }
    }

    pub fn set_auth_state(&mut self, id: u32, s: AuthState)
        requires
            old(self)@.wf(),
        ensures
            final(self)@ == (old(self)@).with_auth(id, s),
            final(self)@.wf(),
    {
        proof {
            put_keeps_wf(self@, id);
        }
        if let Some(e) = self.entity_mut(id) {
            e.auth = s;
        }
    }

    pub fn is_authenticated(&self, id: u32) -> (b: bool)
        ensures
            b == (self@.is_live(id) && self@.entity(id)->0.auth == AuthState::Authenticated),
    {
        match self.entity(id) {
            Some(e) => match e.auth {
                AuthState::Authenticated => true,
                _ => false,
            },
            None => false,
        }
    }

    pub fn identity(&self, id: u32) -> (c: Option<&IdentityComponent>)
        ensures
            match c {
                Some(c) => self@.identity(id) == Some(c@),
                None => self@.identity(id) is None,
            },
    {
        match self.entity(id) {
            Some(e) => e.identity.as_ref(),
            None => None,
        }
    }

    pub fn insert_identity(&mut self, id: u32, c: IdentityComponent)
        requires
            old(self)@.wf(),
        ensures
            final(self)@ == (old(self)@).with_identity(id, c@),
            final(self)@.wf(),
    {
        proof {
            put_keeps_wf(self@, id);
        }
        if let Some(e) = self.entity_mut(id) {
            e.identity = Some(c);
        }
    }

    pub fn security(&self, id: u32) -> (c: Option<&SecurityContext>)
        ensures
            match c {
                Some(c) => self@.security(id) == Some(c@),
                None => self@.security(id) is None,
            },
    {
        match self.entity(id) {
            Some(e) => e.security.as_ref(),
            None => None,
        }
    }

    pub fn insert_security(&mut self, id: u32, c: SecurityContext)
        requires
            old(self)@.wf(),
        ensures
            final(self)@ == (old(self)@).with_security(id, c@),
            final(self)@.wf(),
    {
        proof {
            put_keeps_wf(self@, id);
        }
        if let Some(e) = self.entity_mut(id) {
            e.security = Some(c);
        }
    }

    /// A component in place. What the caller leaves in it is the component
    /// then.
    pub fn security_mut(&mut self, id: u32) -> (c: Option<&mut SecurityContext>)
        requires
            old(self)@.wf(),
        ensures
            match c {
                Some(m) => (old(self)@).security(id) == Some(m@) && final(self)@ == (old(self)@).with_security(id, final(m)@),
                None => (old(self)@).security(id) is None && final(self)@ == old(self)@,
            },
            final(self)@.wf(),
    {
        proof {
            put_keeps_wf(self@, id);
        }
        match self.entity_mut(id) {
            Some(e) => e.security.as_mut(),
            None => None,
        }
    }

    pub fn nas_security(&self, id: u32) -> (c: Option<&NasSecurityContext>)
        ensures
            match c {
                Some(c) => self@.nas_security(id) == Some(c@),
                None => self@.nas_security(id) is None,
            },
    {
        match self.entity(id) {
            Some(e) => e.nas_security.as_ref(),
            None => None,
        }
    }

    pub fn set_nas_security(&mut self, id: u32, c: NasSecurityContext)
        requires
            old(self)@.wf(),
        ensures
            final(self)@ == (old(self)@).with_nas_security(id, c@),
            final(self)@.wf(),
    {
        proof {
            put_keeps_wf(self@, id);
        }
        if let Some(e) = self.entity_mut(id) {
            e.nas_security = Some(c);
        }
    }

    /// A component in place. What the caller leaves in it is the component
    /// then.
    pub fn nas_security_mut(&mut self, id: u32) -> (c: Option<&mut NasSecurityContext>)
        requires
            old(self)@.wf(),
        ensures
            match c {
                Some(m) => (old(self)@).nas_security(id) == Some(m@) && final(self)@ == (old(self)@).with_nas_security(id, final(m)@),
                None => (old(self)@).nas_security(id) is None && final(self)@ == old(self)@,
            },
            final(self)@.wf(),
    {
        proof {
            put_keeps_wf(self@, id);
        }
        match self.entity_mut(id) {
            Some(e) => e.nas_security.as_mut(),
            None => None,
        }
    }

    pub fn tunnel(&self, id: u32) -> (c: Option<&TunnelComponent>)
        ensures
            match c {
                Some(c) => self@.tunnel(id) == Some(c@),
                None => self@.tunnel(id) is None,
            },
    {
        match self.entity(id) {
            Some(e) => e.tunnel.as_ref(),
            None => None,
        }
    }

    pub fn set_tunnel(&mut self, id: u32, c: TunnelComponent)
        requires
            old(self)@.wf(),
        ensures
            final(self)@ == (old(self)@).with_tunnel(id, c@),
            final(self)@.wf(),
    {
        proof {
            put_keeps_wf(self@, id);
        }
        if let Some(e) = self.entity_mut(id) {
            e.tunnel = Some(c);
        }
    }

    /// A component in place. What the caller leaves in it is the component
    /// then.
    pub fn tunnel_mut(&mut self, id: u32) -> (c: Option<&mut TunnelComponent>)
        requires
            old(self)@.wf(),
        ensures
            match c {
                Some(m) => (old(self)@).tunnel(id) == Some(m@) && final(self)@ == (old(self)@).with_tunnel(id, final(m)@),
                None => (old(self)@).tunnel(id) is None && final(self)@ == old(self)@,
            },
            final(self)@.wf(),
    {
        proof {
            put_keeps_wf(self@, id);
        }
        match self.entity_mut(id) {
            Some(e) => e.tunnel.as_mut(),
            None => None,
        }
    }

    pub fn security5g(&self, id: u32) -> (c: Option<&Nas5gsAkaContext>)
        ensures
            match c {
                Some(c) => self@.security5g(id) == Some(c@),
                None => self@.security5g(id) is None,
            },
    {
        match self.entity(id) {
            Some(e) => e.security5g.as_ref(),
            None => None,
        }
    }

    pub fn insert_security5g(&mut self, id: u32, c: Nas5gsAkaContext)
        requires
            old(self)@.wf(),
        ensures
            final(self)@ == (old(self)@).with_security5g(id, c@),
            final(self)@.wf(),
    {
        proof {
            put_keeps_wf(self@, id);
        }
        if let Some(e) = self.entity_mut(id) {
            e.security5g = Some(c);
        }
    }

    /// A component in place. What the caller leaves in it is the component
    /// then.
    pub fn security5g_mut(&mut self, id: u32) -> (c: Option<&mut Nas5gsAkaContext>)
        requires
            old(self)@.wf(),
        ensures
            match c {
                Some(m) => (old(self)@).security5g(id) == Some(m@) && final(self)@ == (old(self)@).with_security5g(id, final(m)@),
                None => (old(self)@).security5g(id) is None && final(self)@ == old(self)@,
            },
            final(self)@.wf(),
    {
        proof {
            put_keeps_wf(self@, id);
        }
        match self.entity_mut(id) {
            Some(e) => e.security5g.as_mut(),
            None => None,
        }
    }

    pub fn nas_security5g(&self, id: u32) -> (c: Option<&Nas5gsSecurityContext>)
        ensures
            match c {
                Some(c) => self@.nas_security5g(id) == Some(c@),
                None => self@.nas_security5g(id) is None,
            },
    {
        match self.entity(id) {
            Some(e) => e.nas_security5g.as_ref(),
            None => None,
        }
    }

    pub fn set_nas_security5g(&mut self, id: u32, c: Nas5gsSecurityContext)
        requires
            old(self)@.wf(),
        ensures
            final(self)@ == (old(self)@).with_nas_security5g(id, c@),
            final(self)@.wf(),
    {
        proof {
            put_keeps_wf(self@, id);
        }
        if let Some(e) = self.entity_mut(id) {
            e.nas_security5g = Some(c);
        }
    }

    /// A component in place. What the caller leaves in it is the component
    /// then.
    pub fn nas_security5g_mut(&mut self, id: u32) -> (c: Option<&mut Nas5gsSecurityContext>)
        requires
            old(self)@.wf(),
        ensures
            match c {
                Some(m) => (old(self)@).nas_security5g(id) == Some(m@) && final(self)@ == (old(self)@).with_nas_security5g(id, final(m)@),
                None => (old(self)@).nas_security5g(id) is None && final(self)@ == old(self)@,
            },
            final(self)@.wf(),
    {
        proof {
            put_keeps_wf(self@, id);
        }
        match self.entity_mut(id) {
            Some(e) => e.nas_security5g.as_mut(),
            None => None,
        }
    }

    /// How many entities are live.
    pub fn subscriber_count(&self) -> (n: usize)
        ensures
            n == live_count(self@.slots),
    {
        let mut n: usize = 0;
        let mut i: usize = 0;
        assert(self@.slots.take(0) =~= Seq::empty());
        while i < self.slots.len()
            invariant
                i <= self.slots@.len() == self@.slots.len(),
                n <= i,
                n == live_count(self@.slots.take(i as int)),
            decreases self.slots@.len() - i,
        {
            assert(self@.slots.take(i + 1).drop_last() =~= self@.slots.take(i as int));
            if self.slots[i].is_some() {
                n += 1;
            }
            i += 1;
        }
        assert(self@.slots.take(i as int) =~= self@.slots);
        n
    }

    /// How many entities are authenticated.
    pub fn authenticated_count(&self) -> (n: usize)
        ensures
            n == authenticated_count(self@.slots),
    {
        let mut n: usize = 0;
        let mut i: usize = 0;
        assert(self@.slots.take(0) =~= Seq::empty());
        while i < self.slots.len()
            invariant
                i <= self.slots@.len() == self@.slots.len(),
                n <= i,
                n == authenticated_count(self@.slots.take(i as int)),
            decreases self.slots@.len() - i,
        {
            assert(self@.slots.take(i + 1).drop_last() =~= self@.slots.take(i as int));
            if let Some(e) = &self.slots[i] {
                if let AuthState::Authenticated = e.auth {
                    n += 1;
                }
            }
            i += 1;
        }
        assert(self@.slots.take(i as int) =~= self@.slots);
        n
    }
}

proof fn spawn_keeps_wf(w: WorldView)
    requires
        w.wf(),
        !w.full(),
    ensures
        w.spawn().wf(),
{
    let s = w.spawn();
    if w.free.len() > 0 {
        assert forall|id: u32| id < s.slots.len() && (#[trigger] s.slots[id as int]) is None implies s.free.contains(
            id,
        ) by {
            assert(w.slots[id as int] is None);
            let k = w.free.index_of(id);
            assert(w.free[k] == id && k < w.free.len() - 1);
            assert(s.free[k] == id);
        }
    } else {
        assert forall|id: u32| id < s.slots.len() && (#[trigger] s.slots[id as int]) is None implies s.free.contains(
            id,
        ) by {
            assert(w.slots[id as int] is None);
        }
    }
}

proof fn despawn_keeps_wf(w: WorldView, id: u32)
    requires
        w.wf(),
    ensures
        w.despawn(id).wf(),
{
    let s = w.despawn(id);
    if w.is_live(id) {
        assert forall|j: u32| j < s.slots.len() && (#[trigger] s.slots[j as int]) is None implies s.free.contains(
            j,
        ) by {
            if j == id {
                assert(s.free[w.free.len() as int] == id);
            } else {
                assert(w.slots[j as int] is None);
                let k = w.free.index_of(j);
                assert(s.free[k] == j);
            }
        }
    }
}

/// Changing a component keeps the world well formed.
pub proof fn put_keeps_wf(w: WorldView, id: u32)
    requires
        w.wf(),
    ensures
        forall|e: EntityView| w.is_live(id) ==> (#[trigger] w.put(id, e)).wf(),
{
    assert forall|e: EntityView| w.is_live(id) implies (#[trigger] w.put(id, e)).wf() by {
        let s = w.put(id, e);
        assert forall|j: u32| j < s.slots.len() && (#[trigger] s.slots[j as int]) is None implies s.free.contains(
            j,
        ) by {
            assert(w.slots[j as int] is None);
        }
    }
}

/// The address of a UE has four octets.
pub proof fn lemma_address_len(w: World)
    ensures
        forall|id: u32| (#[trigger] w@.identity(id)) is Some ==> w@.identity(id)->0.ue_ip.len() == 4,
{
}

// ── Laws ──────────────────────────────────────────────────────────────────────

proof fn lemma_count_update(slots: Seq<Option<EntityView>>, i: int, e: Option<EntityView>)
    requires
        0 <= i < slots.len(),
    ensures
        live_count(slots.update(i, e)) == live_count(slots) + (if e is Some {
            1int
        } else {
            0
        }) - (if slots[i] is Some {
            1int
        } else {
            0
        }),
    decreases slots.len(),
{
    let u = slots.update(i, e);
    if i == slots.len() - 1 {
        assert(u.drop_last() =~= slots.drop_last());
    } else {
        assert(u.drop_last() =~= slots.drop_last().update(i, e));
        lemma_count_update(slots.drop_last(), i, e);
    }
}

/// A spawned entity is new: its identifier was not live, no other entity
/// changes, and there is one entity more.
pub proof fn spawn_is_fresh(w: WorldView, other: u32)
    requires
        w.wf(),
        !w.full(),
    ensures
        !w.is_live(w.next_id()),
        w.spawn().wf(),
        w.spawn().entity(w.next_id()) == Some(EntityView::fresh()),
        other != w.next_id() ==> w.spawn().entity(other) == w.entity(other),
        live_count(w.spawn().slots) == live_count(w.slots) + 1,
{
    spawn_keeps_wf(w);
    if w.free.len() > 0 {
        lemma_count_update(w.slots, w.free.last() as int, Some(EntityView::fresh()));
    } else {
        assert(w.spawn().slots.drop_last() =~= w.slots);
    }
}

/// Despawning removes one entity and leaves the others alone; where there is
/// no such entity nothing changes.
pub proof fn despawn_removes_one(w: WorldView, id: u32, other: u32)
    requires
        w.wf(),
    ensures
        w.despawn(id).wf(),
        !w.despawn(id).is_live(id),
        other != id ==> w.despawn(id).entity(other) == w.entity(other),
        w.is_live(id) ==> live_count(w.despawn(id).slots) == live_count(w.slots) - 1,
        !w.is_live(id) ==> w.despawn(id) == w,
        w.is_live(id) ==> w.despawn(id).next_id() == id,
{
    despawn_keeps_wf(w, id);
    if w.is_live(id) {
        lemma_count_update(w.slots, id as int, None);
    }
}

// ── IMSI registry ─────────────────────────────────────────────────────────────

/// Which entity an IMSI belongs to.
pub struct ImsiRegistry {
    entities: HashMap<u64, u32>,
}

impl View for ImsiRegistry {
    type V = Map<u64, u32>;

    closed spec fn view(&self) -> Map<u64, u32> {
        self.entities@
    }
}

impl ImsiRegistry {
    pub fn new() -> (r: Self)
        ensures
            r@ == Map::<u64, u32>::empty(),
    {
        ImsiRegistry { entities: HashMap::new() }
    }

    /// Records the entity of an IMSI; an earlier one is replaced.
    pub fn register(&mut self, imsi: u64, entity: u32)
        ensures
            final(self)@ == (old(self)@).insert(imsi, entity),
    {
        broadcast use group_hash_axioms;

        self.entities.insert(imsi, entity);
    }

    /// Forgets an IMSI.
    pub fn deregister(&mut self, imsi: u64)
        ensures
            final(self)@ == (old(self)@).remove(imsi),
    {
        broadcast use group_hash_axioms;

        self.entities.remove(&imsi);
    }

    pub fn lookup(&self, imsi: u64) -> (entity: Option<u32>)
        ensures
            entity == (self@).get(imsi),
    {
        broadcast use group_hash_axioms;

        match self.entities.get(&imsi) {
            Some(entity) => Some(*entity),
            None => None,
        }
    }
}

} // verus!
