use vstd::prelude::*;

use crate::components::{Creature, Energy};

verus! {

/// The entity store: slot `i` holds entity `i`, or `None` once it was destroyed.
pub struct World {
    pub slots: Vec<Option<Creature>>,
}

/// Whether `c` holds energy, speed and reproduction threshold once it is a
/// prepared herbivore or predator.
pub open spec fn stocked(c: Creature) -> bool {
    c.prepared && !(c.category is FoodPellet) ==> c.energy is Some && c.speed is Some && c.reproduction_energy is Some
}

/// Whether every live entity of `s` is stocked.
pub open spec fn all_stocked(s: Seq<Option<Creature>>) -> bool {
    forall|i: int| 0 <= i < s.len() && (#[trigger] s[i]) is Some ==> stocked(s[i]->Some_0)
}

/// What the energy-decay rule leaves of one entity: destroyed at zero,
/// otherwise one unit poorer; an entity without energy is untouched.
pub open spec fn decayed(c: Creature) -> Option<Creature> {
    match c.energy {
        Some(e) => if e.0 == 0 {
            None
        } else {
            Some(Creature { energy: Some(Energy((e.0 - 1) as u32)), ..c })
        },
        None => Some(c),
    }
}

/// The energy-decay rule applied to a slot.
pub open spec fn decayed_slot(s: Option<Creature>) -> Option<Creature> {
    match s {
        Some(c) => decayed(c),
        None => None,
    }
}


/// The store after the energy-decay rule.
pub open spec fn decayed_all(s: Seq<Option<Creature>>) -> Seq<Option<Creature>> {
    Seq::new(s.len(), |i: int| decayed_slot(s[i]))
}

impl World {
    /// Every prepared herbivore and predator holds energy, speed and
    /// reproduction threshold.
    pub open spec fn wf(&self) -> bool {
        all_stocked(self.slots@)
    }

    /// An empty world.
    pub fn new() -> (r: World)
        ensures
            r.slots@ == Seq::<Option<Creature>>::empty(),
    {
        World { slots: Vec::new() }
    }

    /// Adds `c` as a new entity and returns its identifier.
    pub fn spawn(&mut self, c: Creature) -> (id: usize)
        requires
            old(self).slots@.len() < usize::MAX,
        ensures
            id == old(self).slots@.len(),
            final(self).slots@ == old(self).slots@.push(Some(c)),
            old(self).wf() && stocked(c) ==> final(self).wf(),
    {
        let id = self.slots.len();
        self.slots.push(Some(c));
        assert(forall|i: int| 0 <= i < id ==> self.slots@[i] == old(self).slots@[i]);
        id
    }

    /// The entity with identifier `id`, if it is alive.
    pub fn get(&self, id: usize) -> (r: Option<Creature>)
        ensures
            r == (if id < self.slots@.len() { self.slots@[id as int] } else { None }),
    {
        if id < self.slots.len() {
            self.slots[id]
        } else {
            None
        }
    }

    /// The energy-decay rule: every entity whose energy is zero is destroyed,
    /// every other entity with energy loses one unit.
    pub fn consume_energy(&mut self)
        ensures
            final(self).slots@.len() == old(self).slots@.len(),
            forall|i: int|
                0 <= i < old(self).slots@.len() ==> #[trigger] final(self).slots@[i]
                    == decayed_slot(old(self).slots@[i]),
            final(self).slots@ == decayed_all(old(self).slots@),
            old(self).wf() ==> final(self).wf(),
    {
        let n = self.slots.len();
        let mut i: usize = 0;
        while i < n
            invariant
                n == self.slots@.len(),
                self.slots@.len() == old(self).slots@.len(),
                i <= n,
                forall|j: int| 0 <= j < i ==> #[trigger] self.slots@[j] == decayed_slot(old(self).slots@[j]),
                forall|j: int| i <= j < n ==> #[trigger] self.slots@[j] == old(self).slots@[j],
            decreases n - i,
        {
            let slot = self.slots[i];
            if let Some(c) = slot {
                if let Some(e) = c.energy {
                    if e.0 == 0 {
                        self.slots.set(i, None);
                    } else {
                        self.slots.set(i, Some(Creature { energy: Some(Energy(e.0 - 1)), ..c }));
                    }
                }
            }
            i += 1;
        }
        assert(self.slots@ =~= decayed_all(old(self).slots@));
        proof {
            lemma_decay_keeps_stock(old(self).slots@);
        }
    }

}

/// Decay never raises energy: an entity with energy either is destroyed,
/// which happens only at zero, or keeps energy no greater than before, and
/// reaches zero only from one.
pub proof fn lemma_decay_never_raises(c: Creature)
    requires
        c.energy is Some,
    ensures
        decayed(c) is None ==> c.energy->Some_0.0 == 0,
        decayed(c) matches Some(d) ==> d.energy is Some && d.energy->Some_0.0 <= c.energy->Some_0.0 && (d.energy->Some_0.0
            == 0 ==> c.energy->Some_0.0 == 1),
{
}

/// Decay destroys an entity exactly when it enters with zero energy.
pub proof fn lemma_decay_destroys_at_zero(c: Creature)
    requires
        c.energy is Some,
    ensures
        decayed(c) is None <==> c.energy->Some_0.0 == 0,
{
}

/// Decay keeps every live entity stocked.
pub proof fn lemma_decay_keeps_stock(s: Seq<Option<Creature>>)
    ensures
        all_stocked(s) ==> all_stocked(decayed_all(s)),
{
    if all_stocked(s) {
        assert forall|i: int| 0 <= i < decayed_all(s).len() && (#[trigger] decayed_all(s)[i]) is Some implies stocked(
            decayed_all(s)[i]->Some_0,
        ) by {
            assert(s[i] is Some);
        }
    }
}

} // verus!
