use vstd::prelude::*;

use crate::components::{Components, EntityId};
use crate::constants::MAX_ENTITIES;

verus! {

/// One entity slot: the components, and whether the entity is alive.
/// Despawning clears the flag but keeps the slot, so indices stay
/// stable and stale handles simply look up as "not found".
#[derive(Clone, Copy, Debug)]
pub struct Slot {
    pub alive: bool,
    pub comps: Components,
}

/// The entity-component store: a growable table of slots. An
/// `EntityId` is a slot index; indices are never reused.
#[derive(Debug)]
pub struct World {
    pub slots: Vec<Slot>,
}

/// Whether `e` names a live entity of `slots`.
pub open spec fn live(slots: Seq<Slot>, e: EntityId) -> bool {
    e.idx < slots.len() && slots[e.idx as int].alive
}

/// How many of these slots hold a live entity.
pub open spec fn live_count_spec(slots: Seq<Slot>) -> nat
    decreases slots.len(),
{
    if slots.len() == 0 {
        0
    } else {
        live_count_spec(slots.drop_last()) + if slots.last().alive {
            1nat
        } else {
            0nat
        }
    }
}

/// Whether every live entity's components are within the fixed-point
/// bounds and the table is small enough for per-tick sums to stay in
/// `i64`. Every simulation system requires and preserves this.
pub open spec fn world_in_range(slots: Seq<Slot>) -> bool {
    &&& slots.len() <= MAX_ENTITIES
    &&& forall|i: int|
        0 <= i < slots.len() && slots[i].alive ==> crate::components::comps_in_range(
            #[trigger] slots[i].comps,
        )
}

impl World {
    pub fn new() -> (w: World)
        ensures
            w.slots@ == Seq::<Slot>::empty(),
    {
        World { slots: Vec::new() }
    }

    /// Creates a live entity with the given components and hands back
    /// its fresh index.
    pub fn spawn(&mut self, c: Components) -> (e: EntityId)
        requires
            old(self).slots@.len() < u32::MAX,
        ensures
            final(self).slots@ == old(self).slots@.push(Slot { alive: true, comps: c }),
            e.idx == old(self).slots@.len(),
            live(final(self).slots@, e),
    {
        let idx = self.slots.len() as u32;
        self.slots.push(Slot { alive: true, comps: c });
        EntityId { idx }
    }

    /// Marks the entity dead; its index will never resolve again.
    /// A stale or unknown handle changes nothing.
    pub fn despawn(&mut self, e: EntityId)
        ensures
            live(old(self).slots@, e) ==> final(self).slots@ == old(self).slots@.update(
                e.idx as int,
                Slot { alive: false, comps: old(self).slots@[e.idx as int].comps },
            ),
            !live(old(self).slots@, e) ==> final(self).slots@ == old(self).slots@,
    {
        let n = self.slots.len();
        if (e.idx as usize) < n {
            if self.slots[e.idx as usize].alive {
                let comps = self.slots[e.idx as usize].comps;
                self.slots[e.idx as usize] = Slot { alive: false, comps };
            }
        }
    }

    /// Whether the handle names a live entity.
    pub fn contains(&self, e: EntityId) -> (b: bool)
        ensures
            b == live(self.slots@, e),
    {
        (e.idx as usize) < self.slots.len() && self.slots[e.idx as usize].alive
    }

    /// The components of a live entity; `None` for dead or unknown
    /// handles.
    pub fn get(&self, e: EntityId) -> (r: Option<Components>)
        ensures
            live(self.slots@, e) ==> r == Some(self.slots@[e.idx as int].comps),
            !live(self.slots@, e) ==> r is None,
    {
        if (e.idx as usize) < self.slots.len() && self.slots[e.idx as usize].alive {
            Some(self.slots[e.idx as usize].comps)
        } else {
            None
        }
    }

    /// Replaces a live entity's components wholesale; reports whether
    /// the entity existed. Mutation handlers use this to attach and
    /// detach components.
    pub fn set(&mut self, e: EntityId, c: Components) -> (b: bool)
        ensures
            b == live(old(self).slots@, e),
            live(old(self).slots@, e) ==> final(self).slots@ == old(self).slots@.update(
                e.idx as int,
                Slot { alive: true, comps: c },
            ),
            !live(old(self).slots@, e) ==> final(self).slots@ == old(self).slots@,
    {
        if (e.idx as usize) < self.slots.len() && self.slots[e.idx as usize].alive {
            self.slots[e.idx as usize] = Slot { alive: true, comps: c };
            true
        } else {
            false
        }
    }

    /// How many slots the table holds, dead ones included.
    pub fn len(&self) -> (n: usize)
        ensures
            n == self.slots@.len(),
    {
        self.slots.len()
    }

    /// How many live entities the table holds.
    pub fn live_count(&self) -> (n: usize)
        ensures
            n == live_count_spec(self.slots@),
            n <= self.slots@.len(),
    {
        let mut n: usize = 0;
        let mut i: usize = 0;
        while i < self.slots.len()
            invariant
                i <= self.slots@.len(),
                n <= i,
                n == live_count_spec(self.slots@.take(i as int)),
            decreases self.slots@.len() - i,
        {
            proof {
                assert(self.slots@.take(i as int + 1).drop_last() =~= self.slots@.take(i as int));
            }
            if self.slots[i].alive {
                n = n + 1;
            }
            i = i + 1;
        }
        proof {
            assert(self.slots@.take(self.slots@.len() as int) =~= self.slots@);
        }
        n
    }
}

} // verus!
