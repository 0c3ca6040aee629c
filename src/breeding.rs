use vstd::prelude::*;

use crate::components::{Category, Creature, Energy, ReproductionEnergy, Speed};
use crate::random::draw;
use crate::world::{all_stocked, stocked, World};

verus! {

/// Whether `c` belongs to `category` and holds more energy than one and a half
/// times its reproduction threshold.
pub open spec fn ready_to_breed(c: Creature, category: Category) -> bool {
    &&& c.category == category
    &&& c.energy is Some
    &&& c.speed is Some
    &&& c.reproduction_energy is Some
    &&& 2000 * c.energy->Some_0.0 > 3 * c.reproduction_energy->Some_0.0
}

/// The whole units of a reproduction threshold given in thousandths.
pub open spec fn threshold_units(c: Creature) -> u32 {
    (c.reproduction_energy->Some_0.0 / 1000) as u32
}

/// `v` moved by `delta`, floored at zero and capped at the largest `u32`.
pub open spec fn perturbed(v: u32, delta: int) -> u32 {
    if v + delta < 0 {
        0
    } else if v + delta > u32::MAX {
        u32::MAX
    } else {
        (v + delta) as u32
    }
}

/// A parent after it reproduced: poorer by its threshold's whole units.
pub open spec fn after_breeding(c: Creature) -> Creature {
    Creature { energy: Some(Energy((c.energy->Some_0.0 - threshold_units(c)) as u32)), ..c }
}

/// The offspring of `c`: same category and place, the threshold's whole
/// units as energy, speed and threshold moved by the given deltas.
pub open spec fn offspring_of(c: Creature, speed_delta: int, threshold_delta: int) -> Creature {
    Creature {
        category: c.category,
        critter: None,
        eater: None,
        energy: Some(Energy(threshold_units(c))),
        speed: Some(Speed(perturbed(c.speed->Some_0.0, speed_delta))),
        reproduction_energy: Some(ReproductionEnergy(perturbed(c.reproduction_energy->Some_0.0, threshold_delta))),
        position: c.position,
        prepared: false,
    }
}

/// Whether slot `i` holds a parent that reproduces in a pass for `category`.
pub open spec fn breeds(s: Seq<Option<Creature>>, i: int, category: Category) -> bool {
    0 <= i < s.len() && s[i] is Some && ready_to_breed(s[i]->Some_0, category)
}

/// How many of the first `n` slots reproduce in a pass for `category`.
pub open spec fn breeders(s: Seq<Option<Creature>>, n: int, category: Category) -> nat
    decreases n,
{
    if n <= 0 {
        0
    } else {
        breeders(s, n - 1, category) + if breeds(s, n - 1, category) {
            1nat
        } else {
            0nat
        }
    }
}

/// A mutation delta, in thousandths: within one unit either way.
pub open spec fn is_delta(d: int) -> bool {
    -1000 <= d < 1000
}

/// What the reproduction rule for `category` may make of `before`: every
/// parent ready to breed is poorer by its threshold's whole units, and its
/// offspring, with deltas drawn within one unit, is appended in parent order.
pub open spec fn breed_outcome(before: Seq<Option<Creature>>, after: Seq<Option<Creature>>, category: Category) -> bool {
    &&& after.len() == before.len() + breeders(before, before.len() as int, category)
    &&& forall|i: int|
        0 <= i < before.len() ==> #[trigger] after[i] == (if breeds(before, i, category) {
            Some(after_breeding(before[i]->Some_0))
        } else {
            before[i]
        })
    &&& forall|i: int|
        #![trigger breeds(before, i, category)]
        breeds(before, i, category) ==> exists|sd: int, rd: int|
            is_delta(sd) && is_delta(rd) && after[(before.len() + breeders(before, i, category)) as int]
                == Some(offspring_of(before[i]->Some_0, sd, rd))
    &&& forall|k: int|
        before.len() <= k < after.len() ==> (#[trigger] after[k]) is Some && !after[k]->Some_0.prepared
}

/// The offspring of `parent`, with speed and threshold moved by the given
/// deltas (in thousandths).
pub fn breed(parent: Creature, speed_delta: i64, threshold_delta: i64) -> (r: Creature)
    requires
        parent.speed is Some,
        parent.reproduction_energy is Some,
        is_delta(speed_delta as int),
        is_delta(threshold_delta as int),
    ensures
        r == offspring_of(parent, speed_delta as int, threshold_delta as int),
{
    let sp = parent.speed.unwrap().0;
    let re = parent.reproduction_energy.unwrap().0;
    Creature {
        category: parent.category,
        critter: None,
        eater: None,
        energy: Some(Energy(re / 1000)),
        speed: Some(Speed(perturb(sp, speed_delta))),
        reproduction_energy: Some(ReproductionEnergy(perturb(re, threshold_delta))),
        position: parent.position,
        prepared: false,
    }
}

/// `v` moved by `delta`, floored at zero and capped at the largest `u32`.
pub fn perturb(v: u32, delta: i64) -> (r: u32)
    requires
        is_delta(delta as int),
    ensures
        r == perturbed(v, delta as int),
{
    let moved = v as i64 + delta;
    if moved < 0 {
        0
    } else if moved > u32::MAX as i64 {
        u32::MAX
    } else {
        moved as u32
    }
}

/// At most every slot reproduces.
pub proof fn lemma_breeders_at_most(s: Seq<Option<Creature>>, n: int, category: Category)
    requires
        0 <= n,
    ensures
        breeders(s, n, category) <= n,
    decreases n,
{
    if n > 0 {
        lemma_breeders_at_most(s, n - 1, category);
    }
}

proof fn lemma_breeders_monotone(s: Seq<Option<Creature>>, a: int, b: int, category: Category)
    requires
        a <= b,
    ensures
        breeders(s, a, category) <= breeders(s, b, category),
    decreases b - a,
{
    if a < b {
        lemma_breeders_monotone(s, a, b - 1, category);
    }
}

/// Reproduction moves energy without creating any: a parent holding `E`
/// with threshold `R` keeps `E - floor(R)`, its offspring starts with
/// `floor(R)`; a parent with `E <= 1.5 R` does not reproduce.
pub proof fn lemma_breeding_conserves_energy(c: Creature, category: Category, speed_delta: int, threshold_delta: int)
    requires
        c.category == category,
        c.energy is Some,
        c.speed is Some,
        c.reproduction_energy is Some,
    ensures
        ready_to_breed(c, category) ==> {
            &&& after_breeding(c).energy->Some_0.0 == c.energy->Some_0.0 - c.reproduction_energy->Some_0.0 / 1000
            &&& offspring_of(c, speed_delta, threshold_delta).energy->Some_0.0 == c.reproduction_energy->Some_0.0 / 1000
            &&& after_breeding(c).energy->Some_0.0 + offspring_of(c, speed_delta, threshold_delta).energy->Some_0.0
                == c.energy->Some_0.0
            &&& offspring_of(c, speed_delta, threshold_delta).category == c.category
        },
        2000 * c.energy->Some_0.0 <= 3 * c.reproduction_energy->Some_0.0 ==> !ready_to_breed(c, category),
{
}

/// Reproduction keeps every live entity stocked: parents keep their fields
/// and offspring are not prepared yet.
pub proof fn lemma_breeding_keeps_stock(before: Seq<Option<Creature>>, after: Seq<Option<Creature>>, category: Category)
    requires
        breed_outcome(before, after, category),
    ensures
        all_stocked(before) ==> all_stocked(after),
{
    if all_stocked(before) {
        assert forall|i: int| 0 <= i < after.len() && (#[trigger] after[i]) is Some implies stocked(after[i]->Some_0) by {
            if i < before.len() {
                assert(before[i] is Some);
            }
        }
    }
}

/// Reproduction, seen from one parent `p` holding energy `E` with threshold
/// `R`: when `E > 1.5 R` the parent keeps `E - floor(R)` and its offspring,
/// of the same category, starts with `floor(R)`; otherwise the parent is
/// unchanged and has no offspring.
pub proof fn lemma_parent_gives_threshold(before: Seq<Option<Creature>>, after: Seq<Option<Creature>>, category: Category, p: int)
    requires
        breed_outcome(before, after, category),
        0 <= p < before.len(),
        before[p] is Some,
        before[p]->Some_0.category == category,
        before[p]->Some_0.energy is Some,
        before[p]->Some_0.speed is Some,
        before[p]->Some_0.reproduction_energy is Some,
    ensures
        ({
            let c = before[p]->Some_0;
            let e = c.energy->Some_0.0 as int;
            let r = c.reproduction_energy->Some_0.0 as int;
            let child = (before.len() + breeders(before, p, category)) as int;
            &&& 2000 * e > 3 * r ==> {
                &&& breeds(before, p, category)
                &&& before.len() <= child < after.len()
                &&& after[p]->Some_0.energy == Some(Energy((e - r / 1000) as u32))
                &&& after[child]->Some_0.energy == Some(Energy((r / 1000) as u32))
                &&& after[child]->Some_0.category == category
                &&& after[p]->Some_0.energy->Some_0.0 + after[child]->Some_0.energy->Some_0.0 == e
            }
            &&& 2000 * e <= 3 * r ==> !breeds(before, p, category) && after[p] == before[p]
        }),
{
    if breeds(before, p, category) {
        lemma_breeders_below(before, p, category);
        let (sd, rd) = choose|sd: int, rd: int|
            is_delta(sd) && is_delta(rd) && after[(before.len() + breeders(before, p, category)) as int]
                == Some(offspring_of(before[p]->Some_0, sd, rd));
    }
}

proof fn lemma_breeders_below(s: Seq<Option<Creature>>, p: int, category: Category)
    requires
        0 <= p < s.len(),
        breeds(s, p, category),
    ensures
        breeders(s, p, category) < breeders(s, s.len() as int, category),
{
    lemma_breeders_monotone(s, p + 1, s.len() as int, category);
}

impl World {
    /// The reproduction rule for `category`: every entity of the category
    /// whose energy exceeds one and a half times its threshold gives the
    /// threshold's whole units to a new entity of the same category, spawned
    /// at its place with speed and threshold each moved by a random delta.
    /// Offspring are appended in the order of their parents.
    pub fn reproduce(&mut self, category: Category)
        requires
            old(self).slots@.len() * 2 < usize::MAX,
        ensures
            breed_outcome(old(self).slots@, final(self).slots@, category),
            old(self).wf() ==> final(self).wf(),
    {
        let n = self.slots.len();
        let ghost s0 = self.slots@;
        let mut i: usize = 0;
        while i < n
            invariant
                n == s0.len(),
                n * 2 < usize::MAX,
                i <= n,
                breeders(s0, i as int, category) <= i,
                self.slots@.len() == n + breeders(s0, i as int, category),
                forall|j: int| 0 <= j < i ==> #[trigger] self.slots@[j] == (if breeds(s0, j, category) {
                    Some(after_breeding(s0[j]->Some_0))
                } else {
                    s0[j]
                }),
                forall|j: int| i <= j < n ==> #[trigger] self.slots@[j] == s0[j],
                forall|k: int|
                    n <= k < self.slots@.len() ==> (#[trigger] self.slots@[k]) is Some && !self.slots@[k]->Some_0.prepared,
                forall|j: int|
                    #![trigger breeds(s0, j, category)]
                    0 <= j < i && breeds(s0, j, category) ==> exists|sd: int, rd: int|
                        is_delta(sd) && is_delta(rd) && self.slots@[(n + breeders(s0, j, category)) as int]
                            == Some(offspring_of(s0[j]->Some_0, sd, rd)),
            decreases n - i,
        {
            let slot = self.slots[i];
            let ghost before = self.slots@;
            if let Some(c) = slot {
                if let (Some(e), Some(sp), Some(re)) = (c.energy, c.speed, c.reproduction_energy) {
                    if c.category == category && 2000 * (e.0 as u64) > 3 * (re.0 as u64) {
                        let speed_delta = draw(0, 2000) as i64 - 1000;
                        let threshold_delta = draw(0, 2000) as i64 - 1000;
                        let child = breed(c, speed_delta, threshold_delta);
                        let units = re.0 / 1000;
                        self.slots.set(i, Some(Creature { energy: Some(Energy(e.0 - units)), ..c }));
                        self.slots.push(Some(child));
                        assert(forall|k: int| n <= k < before.len() ==> self.slots@[k] == before[k]);
                        assert forall|j: int|
                            #![trigger breeds(s0, j, category)]
                            0 <= j < i && breeds(s0, j, category) implies exists|sd: int, rd: int|
                                is_delta(sd) && is_delta(rd) && self.slots@[(n + breeders(s0, j, category)) as int]
                                    == Some(offspring_of(s0[j]->Some_0, sd, rd)) by {
                            let (sd, rd) = choose|sd: int, rd: int|
                                is_delta(sd) && is_delta(rd) && before[(n + breeders(s0, j, category)) as int]
                                    == Some(offspring_of(s0[j]->Some_0, sd, rd));
                            lemma_breeders_monotone(s0, j + 1, i as int, category);
                            assert(self.slots@[(n + breeders(s0, j, category)) as int] == before[(n + breeders(s0, j, category)) as int]);
                        }
                        assert(self.slots@[(n + breeders(s0, i as int, category)) as int] == Some(
                            offspring_of(s0[i as int]->Some_0, speed_delta as int, threshold_delta as int),
                        ));
                    }
                }
            }
            i += 1;
        }
        proof {
            lemma_breeding_keeps_stock(s0, self.slots@, category);
        }
    }
}

} // verus!
