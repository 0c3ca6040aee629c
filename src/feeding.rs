use vstd::prelude::*;

use crate::components::{Category, Creature, Eater, Energy};
use crate::world::{all_stocked, stocked, World};

verus! {

/// Whether slot `j` holds a live entity that eats what `kind` names.
pub open spec fn eats(s: Seq<Option<Creature>>, j: int, kind: Eater) -> bool {
    0 <= j < s.len() && s[j] is Some && s[j]->Some_0.eater == Some(kind)
}

/// Whether slot `i` holds a live entity that an eater of `kind` consumes:
/// a food pellet for a pellet eater, a critter for a critter eater.
pub open spec fn is_prey(s: Seq<Option<Creature>>, i: int, kind: Eater) -> bool {
    0 <= i < s.len() && s[i] is Some && match kind {
        Eater::Pellets(_) => s[i]->Some_0.category is FoodPellet,
        Eater::Critters(_) => s[i]->Some_0.critter is Some,
    }
}

/// Energy gained per consumed entity: 1 for a pellet, 10 for a critter.
pub open spec fn credit(kind: Eater) -> nat {
    match kind {
        Eater::Pellets(_) => 1,
        Eater::Critters(_) => 10,
    }
}

/// How many of the entries of `touching` name prey of `kind`.
pub open spec fn prey_count(s: Seq<Option<Creature>>, touching: Seq<usize>, kind: Eater) -> nat
    decreases touching.len(),
{
    if touching.len() == 0 {
        0
    } else {
        prey_count(s, touching.drop_last(), kind) + if is_prey(s, touching.last() as int, kind) {
            1nat
        } else {
            0nat
        }
    }
}

/// `e` raised by `amount`, saturating at the largest `u32`.
pub open spec fn raised(e: u32, amount: nat) -> u32 {
    if e + amount > u32::MAX {
        u32::MAX
    } else {
        (e + amount) as u32
    }
}

/// An eater credited for `n` consumed entities, where it carries energy.
pub open spec fn credited(c: Creature, n: nat, kind: Eater) -> Creature {
    match c.energy {
        Some(e) => Creature { energy: Some(Energy(raised(e.0, credit(kind) * n))), ..c },
        None => c,
    }
}

/// Whether some eater of `kind` touches the prey in slot `i`.
pub open spec fn consumed(s: Seq<Option<Creature>>, contacts: Seq<Vec<usize>>, i: int, kind: Eater) -> bool {
    is_prey(s, i, kind) && exists|j: int, k: int|
        eats(s, j, kind) && 0 <= k < contacts[j]@.len() && #[trigger] contacts[j]@[k] == i
}

/// What a consumption pass leaves in slot `i`: consumed prey is destroyed;
/// an eater gains the credit of every prey it touches.
pub open spec fn after_meal(s: Seq<Option<Creature>>, contacts: Seq<Vec<usize>>, i: int, kind: Eater) -> Option<Creature> {
    if consumed(s, contacts, i, kind) {
        None
    } else if eats(s, i, kind) {
        Some(credited(s[i]->Some_0, prey_count(s, contacts[i]@, kind), kind))
    } else {
        s[i]
    }
}

/// Consumption found up to eater `j`, entry `k` of a pass.
spec fn consumed_before(
    s: Seq<Option<Creature>>,
    contacts: Seq<Vec<usize>>,
    i: int,
    kind: Eater,
    j: int,
    k: int,
) -> bool {
    is_prey(s, i, kind) && exists|j2: int, k2: int|
        eats(s, j2, kind) && 0 <= k2 < contacts[j2]@.len() && #[trigger] contacts[j2]@[k2] == i && (j2
            < j || (j2 == j && k2 < k))
}

/// The store after a consumption rule for `kind`.
pub open spec fn eaten(s: Seq<Option<Creature>>, contacts: Seq<Vec<usize>>, kind: Eater) -> Seq<Option<Creature>> {
    Seq::new(s.len(), |i: int| after_meal(s, contacts, i, kind))
}

proof fn lemma_no_prey_counted(s: Seq<Option<Creature>>, touching: Seq<usize>, kind: Eater)
    requires
        forall|k: int| 0 <= k < touching.len() ==> !is_prey(s, #[trigger] touching[k] as int, kind),
    ensures
        prey_count(s, touching, kind) == 0,
    decreases touching.len(),
{
    if touching.len() > 0 {
        lemma_no_prey_counted(s, touching.drop_last(), kind);
    }
}

/// An eater touching exactly one prey gains the credit of that prey, and
/// the prey is destroyed; an eater touching no prey is unchanged (in both
/// cases the eater itself not being eaten).
pub proof fn lemma_meal_credits(s: Seq<Option<Creature>>, contacts: Seq<Vec<usize>>, j: int, kind: Eater)
    requires
        contacts.len() == s.len(),
        eats(s, j, kind),
        !consumed(s, contacts, j, kind),
    ensures
        contacts[j]@.len() == 1 && is_prey(s, contacts[j]@[0] as int, kind) ==> {
            &&& after_meal(s, contacts, contacts[j]@[0] as int, kind) is None
            &&& (s[j]->Some_0.energy is Some && s[j]->Some_0.energy->Some_0.0 + credit(kind) <= u32::MAX) ==> after_meal(s, contacts, j, kind)
                == Some(Creature { energy: Some(Energy((s[j]->Some_0.energy->Some_0.0 + credit(kind)) as u32)), ..s[j]->Some_0 })
        },
        (forall|k: int| 0 <= k < contacts[j]@.len() ==> !is_prey(s, #[trigger] contacts[j]@[k] as int, kind))
            ==> after_meal(s, contacts, j, kind) == s[j],
{
    let touching = contacts[j]@;
    if touching.len() == 1 && is_prey(s, touching[0] as int, kind) {
        let p = touching[0] as int;
        assert(contacts[j]@[0] == p);
        assert(consumed(s, contacts, p, kind));
        assert(touching.drop_last() =~= Seq::<usize>::empty());
        assert(prey_count(s, touching.drop_last(), kind) == 0);
        assert(prey_count(s, touching, kind) == 1);
    }
    if forall|k: int| 0 <= k < touching.len() ==> !is_prey(s, #[trigger] touching[k] as int, kind) {
        lemma_no_prey_counted(s, touching, kind);
        assert(credit(kind) * 0 == 0);
    }
}

/// Eating keeps every live entity stocked.
pub proof fn lemma_meal_keeps_stock(s: Seq<Option<Creature>>, contacts: Seq<Vec<usize>>, kind: Eater)
    ensures
        all_stocked(s) ==> all_stocked(eaten(s, contacts, kind)),
{
    if all_stocked(s) {
        let e = eaten(s, contacts, kind);
        assert forall|i: int| 0 <= i < e.len() && (#[trigger] e[i]) is Some implies stocked(e[i]->Some_0) by {
            assert(s[i] is Some);
        }
    }
}

impl World {
    /// Whether entity `id` is prey of `kind`.
    pub fn is_prey(&self, id: usize, kind: Eater) -> (r: bool)
        ensures
            r == is_prey(self.slots@, id as int, kind),
    {
        if id >= self.slots.len() {
            return false;
        }
        match self.slots[id] {
            Some(c) => match kind {
                Eater::Pellets(_) => matches!(c.category, Category::FoodPellet(_)),
                Eater::Critters(_) => c.critter.is_some(),
            },
            None => false,
        }
    }

    /// The energy of an eater that held `e` after it consumed the prey in
    /// `touching`.
    fn meal_energy(&self, e: u32, touching: &Vec<usize>, kind: Eater) -> (r: u32)
        ensures
            r == raised(e, credit(kind) * prey_count(self.slots@, touching@, kind)),
    {
        let gain: u32 = match kind {
            Eater::Pellets(_) => 1,
            Eater::Critters(_) => 10,
        };
        let mut acc = e;
        let mut k: usize = 0;
        while k < touching.len()
            invariant
                k <= touching@.len(),
                gain == credit(kind),
                acc == raised(e, credit(kind) * prey_count(self.slots@, touching@.subrange(0, k as int), kind)),
            decreases touching@.len() - k,
        {
            let ghost before = prey_count(self.slots@, touching@.subrange(0, k as int), kind);
            assert(touching@.subrange(0, k + 1).drop_last() == touching@.subrange(0, k as int));
            if self.is_prey(touching[k], kind) {
                acc = acc.saturating_add(gain);
                assert(credit(kind) * (before + 1) == credit(kind) * before + credit(kind)) by (nonlinear_arith);
            }
            k += 1;
        }
        assert(touching@.subrange(0, touching@.len() as int) == touching@);
        acc
    }

    /// A consumption rule: each eater of `kind` consumes every prey of `kind`
    /// in the set of entities it touches (`contacts[j]` for entity `j`, each
    /// entity listed at most once), and gains energy for each, as seen before
    /// anything is destroyed.
    pub fn eat(&mut self, contacts: &Vec<Vec<usize>>, kind: Eater)
        requires
            contacts@.len() == old(self).slots@.len(),
            forall|j: int| 0 <= j < contacts@.len() ==> (#[trigger] contacts@[j])@.no_duplicates(),
        ensures
            final(self).slots@.len() == old(self).slots@.len(),
            forall|i: int|
                0 <= i < old(self).slots@.len() ==> #[trigger] final(self).slots@[i]
                    == after_meal(old(self).slots@, contacts@, i, kind),
            final(self).slots@ == eaten(old(self).slots@, contacts@, kind),
            old(self).wf() ==> final(self).wf(),
    {
        let n = self.slots.len();
        let mut next: Vec<Option<Creature>> = Vec::new();
        let mut i: usize = 0;
        while i < n
            invariant
                n == self.slots@.len(),
                contacts@.len() == n,
                i <= n,
                next@.len() == i,
                forall|j: int| 0 <= j < i ==> #[trigger] next@[j] == (if eats(self.slots@, j, kind) {
                    Some(credited(self.slots@[j]->Some_0, prey_count(self.slots@, contacts@[j]@, kind), kind))
                } else {
                    self.slots@[j]
                }),
            decreases n - i,
        {
            let slot = self.slots[i];
            match slot {
                Some(c) => {
                    if c.eater == Some(kind) {
                        match c.energy {
                            Some(e) => {
                                let e2 = self.meal_energy(e.0, &contacts[i], kind);
                                next.push(Some(Creature { energy: Some(Energy(e2)), ..c }));
                            },
                            None => next.push(Some(c)),
                        }
                    } else {
                        next.push(Some(c));
                    }
                },
                None => next.push(None),
            }
            i += 1;
        }
        let ghost credited_slots = next@;
        let mut j: usize = 0;
        while j < n
            invariant
                n == self.slots@.len(),
                contacts@.len() == n,
                j <= n,
                next@.len() == n,
                forall|t: int| 0 <= t < n ==> #[trigger] next@[t] == (if consumed_before(self.slots@, contacts@, t, kind, j as int, 0) {
                    None
                } else {
                    credited_slots[t]
                }),
            decreases n - j,
        {
            let eats_here = match self.slots[j] {
                Some(c) => c.eater == Some(kind),
                None => false,
            };
            if eats_here {
                let touching = &contacts[j];
                let mut k: usize = 0;
                while k < touching.len()
                    invariant
                        n == self.slots@.len(),
                        contacts@.len() == n,
                        j < n,
                        touching@ == contacts@[j as int]@,
                        eats(self.slots@, j as int, kind),
                        k <= touching@.len(),
                        next@.len() == n,
                        forall|t: int| 0 <= t < n ==> #[trigger] next@[t] == (if consumed_before(self.slots@, contacts@, t, kind, j as int, k as int) {
                            None
                        } else {
                            credited_slots[t]
                        }),
                    decreases touching@.len() - k,
                {
                    let target = touching[k];
                    if self.is_prey(target, kind) {
                        next.set(target, None);
                    }
                    assert forall|t: int| 0 <= t < n implies #[trigger] next@[t] == (if consumed_before(self.slots@, contacts@, t, kind, j as int, k + 1) {
                        None
                    } else {
                        credited_slots[t]
                    }) by {
                        if t == target && is_prey(self.slots@, t, kind) {
                            assert(contacts@[j as int]@[k as int] == t);
                        }
                        if consumed_before(self.slots@, contacts@, t, kind, j as int, k + 1) {
                            let (j2, k2) = choose|j2: int, k2: int|
                                eats(self.slots@, j2, kind) && 0 <= k2 < contacts@[j2]@.len() && #[trigger] contacts@[j2]@[k2] == t && (j2
                                    < j || (j2 == j && k2 < k + 1));
                            if !(j2 == j && k2 == k) {
                                assert(consumed_before(self.slots@, contacts@, t, kind, j as int, k as int));
                            }
                        }
                    }
                    k += 1;
                }
                assert forall|t: int| 0 <= t < n implies #[trigger] consumed_before(self.slots@, contacts@, t, kind, j + 1, 0)
                    == consumed_before(self.slots@, contacts@, t, kind, j as int, touching@.len() as int) by {
                    if consumed_before(self.slots@, contacts@, t, kind, j + 1, 0) {
                        let (j2, k2) = choose|j2: int, k2: int|
                            eats(self.slots@, j2, kind) && 0 <= k2 < contacts@[j2]@.len() && #[trigger] contacts@[j2]@[k2] == t && (j2
                                < j + 1 || (j2 == j + 1 && k2 < 0));
                        assert(consumed_before(self.slots@, contacts@, t, kind, j as int, touching@.len() as int));
                    }
                }
            } else {
                assert forall|t: int| 0 <= t < n implies #[trigger] consumed_before(self.slots@, contacts@, t, kind, j + 1, 0)
                    == consumed_before(self.slots@, contacts@, t, kind, j as int, 0) by {
                    if consumed_before(self.slots@, contacts@, t, kind, j + 1, 0) {
                        let (j2, k2) = choose|j2: int, k2: int|
                            eats(self.slots@, j2, kind) && 0 <= k2 < contacts@[j2]@.len() && #[trigger] contacts@[j2]@[k2] == t && (j2
                                < j + 1 || (j2 == j + 1 && k2 < 0));
                        assert(j2 != j);
                        assert(consumed_before(self.slots@, contacts@, t, kind, j as int, 0));
                    }
                }
            }
            j += 1;
        }
        assert forall|t: int| 0 <= t < n implies #[trigger] consumed_before(self.slots@, contacts@, t, kind, n as int, 0)
            == consumed(self.slots@, contacts@, t, kind) by {
            if consumed(self.slots@, contacts@, t, kind) {
                let (j2, k2) = choose|j2: int, k2: int|
                    eats(self.slots@, j2, kind) && 0 <= k2 < contacts@[j2]@.len() && #[trigger] contacts@[j2]@[k2] == t;
                assert(consumed_before(self.slots@, contacts@, t, kind, n as int, 0));
            }
        }
        self.slots = next;
        assert(self.slots@ =~= eaten(old(self).slots@, contacts@, kind));
        proof {
            lemma_meal_keeps_stock(old(self).slots@, contacts@, kind);
        }
    }
}

} // verus!
