//! Allocation of uplink tunnel endpoint identifiers (TEIDs).

use vstd::prelude::*;

verus! {

/// A counter, and the TEIDs that were given back.
pub struct TeidAllocator {
    base: u32,
    next: u32,
    free: Vec<u32>,
}

#[verifier::ext_equal]
pub struct TeidView {
    /// The first TEID ever given out.
    pub base: u32,
    /// The TEID after the last one taken from the counter.
    pub next: u32,
    /// TEIDs to give out again, the last one first.
    pub free: Seq<u32>,
}

impl View for TeidAllocator {
    type V = TeidView;

    closed spec fn view(&self) -> TeidView {
        TeidView { base: self.base, next: self.next, free: self.free@ }
    }
}

impl TeidView {
    pub open spec fn fresh(base: u32) -> TeidView {
        TeidView { base, next: base, free: Seq::empty() }
    }

    /// Whether there is a TEID to give out.
    pub open spec fn available(self) -> bool {
        self.free.len() > 0 || self.next < u32::MAX
    }

    /// The TEID that is given out next.
    pub open spec fn first(self) -> u32 {
        if self.free.len() > 0 {
            self.free.last()
        } else {
            self.next
        }
    }

    pub open spec fn taken(self) -> TeidView {
        if self.free.len() > 0 {
            TeidView { free: self.free.drop_last(), ..self }
        } else {
            TeidView { next: (self.next + 1) as u32, ..self }
        }
    }

    pub open spec fn release(self, teid: u32) -> TeidView {
        TeidView { free: self.free.push(teid), ..self }
    }

    /// Given out, and not given back since.
    pub open spec fn outstanding(self, teid: u32) -> bool {
        self.base <= teid < self.next && !self.free.contains(teid)
    }

    /// What was given back had been given out, and is listed once.
    pub open spec fn wf(self) -> bool {
        &&& self.base <= self.next
        &&& self.free.no_duplicates()
        &&& forall|i: int| 0 <= i < self.free.len() ==> self.base <= #[trigger] self.free[i] < self.next
    }
}

/// A TEID is never given out while it is outstanding: two tunnels do not
/// share one. Allocation makes exactly this TEID outstanding.
pub proof fn allocated_teid_is_new(t: TeidView, other: u32)
    requires
        t.wf(),
        t.available(),
    ensures
        !t.outstanding(t.first()),
        t.taken().wf(),
        t.taken().outstanding(t.first()),
        other != t.first() ==> t.taken().outstanding(other) == t.outstanding(other),
{
    let a = t.taken();
    if t.free.len() > 0 {
        let last = t.free.len() - 1;
        assert(t.free[last] == t.first());
        assert(t.free.contains(t.first()));
        assert forall|i: int| 0 <= i < a.free.len() implies a.free[i] != t.first() by {
            assert(a.free[i] == t.free[i]);
        }
        if other != t.first() && t.free.contains(other) {
            let k = t.free.index_of(other);
            assert(a.free[k] == other);
        }
        if a.free.contains(other) {
            let k = a.free.index_of(other);
            assert(t.free[k] == other);
        }
    } else {
        assert(!t.free.contains(t.next));
    }
}

/// Giving back an outstanding TEID keeps the allocator well formed, and makes
/// this TEID the next one to be given out.
pub proof fn released_teid_is_reused(t: TeidView, teid: u32, other: u32)
    requires
        t.wf(),
        t.outstanding(teid),
    ensures
        t.release(teid).wf(),
        !t.release(teid).outstanding(teid),
        t.release(teid).available(),
        t.release(teid).first() == teid,
        t.release(teid).taken() == t,
        other != teid ==> t.release(teid).outstanding(other) == t.outstanding(other),
{
    let r = t.release(teid);
    assert(r.free[t.free.len() as int] == teid);
    assert(r.free.contains(teid));
    assert(r.free.drop_last() =~= t.free);
    if t.free.contains(other) {
        let k = t.free.index_of(other);
        assert(r.free[k] == other);
    }
    if other != teid && r.free.contains(other) {
        let k = r.free.index_of(other);
        assert(t.free[k] == other);
    }
}

impl TeidAllocator {
    /// An allocator that gives out TEIDs from `base` on.
    pub fn new(base: u32) -> (t: Self)
        ensures
            t@ == TeidView::fresh(base),
            t@.wf(),
    {
        let t = TeidAllocator { base, next: base, free: Vec::new() };
        assert(t@ =~= TeidView::fresh(base));
        t
    }

    /// Whether there is a TEID to give out.
    pub fn is_available(&self) -> (b: bool)
        ensures
            b == self@.available(),
    {
        self.free.len() > 0 || self.next < u32::MAX
    }

    /// Gives out a TEID: the one given back last, else a new one.
    pub fn allocate(&mut self) -> (teid: u32)
        requires
            old(self)@.available(),
        ensures
            teid == (old(self)@).first(),
            final(self)@ == (old(self)@).taken(),
    {
        match self.free.pop() {
            Some(teid) => teid,
            None => {
                let teid: u32 = self.next;
                self.next = teid + 1;
                teid
            },
        }
    }

    /// Takes a TEID back.
    pub fn release(&mut self, teid: u32)
        ensures
            final(self)@ == (old(self)@).release(teid),
    {
        self.free.push(teid);
    }

    /// How many TEIDs were given back and wait to be given out again.
    pub fn free_count(&self) -> (n: usize)
        ensures
            n == self@.free.len(),
    {
        self.free.len()
    }
}

} // verus!
