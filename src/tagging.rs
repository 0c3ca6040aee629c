use vstd::prelude::*;

use crate::components::{
    Category, Creature, Critter, CritterEater, Eater, Energy, PelletEater, ReproductionEnergy, Speed,
};
use crate::random::draw;
use crate::world::{all_stocked, stocked, World};

verus! {

/// Energy given to a newly tagged creature that has none.
pub const DEFAULT_ENERGY: u32 = 10;

/// A default speed draw: within 0.5 to 2.0, in thousandths.
pub open spec fn is_speed_draw(v: int) -> bool {
    500 <= v < 2000
}

/// A default threshold draw: within 1.0 to 20.0, in thousandths.
pub open spec fn is_threshold_draw(v: int) -> bool {
    1000 <= v < 20000
}

/// A newly tagged entity after the spawn-on-tag rule: a creature gets its
/// category's bundle (herbivores are critters that eat pellets, predators eat
/// critters) and, only where absent, energy 10 and the drawn speed and
/// threshold. An entity that was already prepared is left as it is.
pub open spec fn prepared_with(c: Creature, speed: u32, threshold: u32) -> Creature {
    if c.prepared {
        c
    } else {
        match c.category {
            Category::FoodPellet(_) => Creature { prepared: true, ..c },
            _ => Creature {
                critter: if c.category is Herbivore { Some(Critter) } else { c.critter },
                eater: if c.category is Herbivore {
                    Some(Eater::Pellets(PelletEater))
                } else {
                    Some(Eater::Critters(CritterEater))
                },
                energy: if c.energy is Some { c.energy } else { Some(Energy(DEFAULT_ENERGY)) },
                speed: if c.speed is Some { c.speed } else { Some(Speed(speed)) },
                reproduction_energy: if c.reproduction_energy is Some {
                    c.reproduction_energy
                } else {
                    Some(ReproductionEnergy(threshold))
                },
                prepared: true,
                ..c
            },
        }
    }
}

/// Whether slot `i` holds an entity of `category` that the spawn-on-tag rule
/// has not seen yet.
pub open spec fn newly_tagged(s: Seq<Option<Creature>>, i: int, category: Category) -> bool {
    0 <= i < s.len() && s[i] is Some && s[i]->Some_0.category == category && !s[i]->Some_0.prepared
}

/// What the spawn-on-tag rule for `category` may make of `before`: every
/// newly tagged entity of the category prepared with drawn defaults, every
/// other slot untouched.
pub open spec fn tag_outcome(before: Seq<Option<Creature>>, after: Seq<Option<Creature>>, category: Category) -> bool {
    &&& after.len() == before.len()
    &&& forall|i: int|
        0 <= i < before.len() && !newly_tagged(before, i, category) ==> #[trigger] after[i] == before[i]
    &&& forall|i: int|
        #![trigger newly_tagged(before, i, category)]
        newly_tagged(before, i, category) ==> exists|sd: u32, rd: u32|
            is_speed_draw(sd as int) && is_threshold_draw(rd as int) && after[i] == Some(prepared_with(before[i]->Some_0, sd, rd))
}

/// `c` after the spawn-on-tag rule, with `speed` and `threshold` as the
/// defaults of those fields where they are missing.
pub fn prepare(c: Creature, speed: u32, threshold: u32) -> (r: Creature)
    ensures
        r == prepared_with(c, speed, threshold),
{
    if c.prepared {
        return c;
    }
    match c.category {
        Category::FoodPellet(_) => Creature { prepared: true, ..c },
        Category::Herbivore(_) => Creature {
            critter: Some(Critter),
            eater: Some(Eater::Pellets(PelletEater)),
            energy: Some(c.energy.unwrap_or(Energy(DEFAULT_ENERGY))),
            speed: Some(c.speed.unwrap_or(Speed(speed))),
            reproduction_energy: Some(c.reproduction_energy.unwrap_or(ReproductionEnergy(threshold))),
            prepared: true,
            ..c
        },
        Category::Preditor(_) => Creature {
            eater: Some(Eater::Critters(CritterEater)),
            energy: Some(c.energy.unwrap_or(Energy(DEFAULT_ENERGY))),
            speed: Some(c.speed.unwrap_or(Speed(speed))),
            reproduction_energy: Some(c.reproduction_energy.unwrap_or(ReproductionEnergy(threshold))),
            prepared: true,
            ..c
        },
    }
}

/// Running the spawn-on-tag rule twice changes nothing the second time: no
/// field set by the first run is overwritten, whatever the draws.
pub proof fn lemma_tagging_idempotent(
    s0: Seq<Option<Creature>>,
    s1: Seq<Option<Creature>>,
    s2: Seq<Option<Creature>>,
    category: Category,
)
    requires
        tag_outcome(s0, s1, category),
        tag_outcome(s1, s2, category),
    ensures
        s2 == s1,
{
    assert forall|i: int| 0 <= i < s1.len() implies !newly_tagged(s1, i, category) by {
        if newly_tagged(s0, i, category) {
            let (sd, rd) = choose|sd: u32, rd: u32|
                is_speed_draw(sd as int) && is_threshold_draw(rd as int) && s1[i] == Some(prepared_with(s0[i]->Some_0, sd, rd));
        }
    }
    assert(s2 =~= s1);
}

/// The defaults never overwrite a field that is already set, and preparing a
/// prepared entity again leaves it as it is.
pub proof fn lemma_defaults_keep_fields(c: Creature, speed: u32, threshold: u32, speed2: u32, threshold2: u32)
    ensures
        c.energy is Some ==> prepared_with(c, speed, threshold).energy == c.energy,
        c.speed is Some ==> prepared_with(c, speed, threshold).speed == c.speed,
        c.reproduction_energy is Some ==> prepared_with(c, speed, threshold).reproduction_energy == c.reproduction_energy,
        prepared_with(prepared_with(c, speed, threshold), speed2, threshold2) == prepared_with(c, speed, threshold),
{
}

/// The spawn-on-tag rule keeps every live entity stocked: each creature it
/// prepares gets all three fields.
pub proof fn lemma_tagging_keeps_stock(before: Seq<Option<Creature>>, after: Seq<Option<Creature>>, category: Category)
    requires
        tag_outcome(before, after, category),
    ensures
        all_stocked(before) ==> all_stocked(after),
{
    if all_stocked(before) {
        assert forall|i: int| 0 <= i < after.len() && (#[trigger] after[i]) is Some implies stocked(after[i]->Some_0) by {
            if newly_tagged(before, i, category) {
                let (sd, rd) = choose|sd: u32, rd: u32|
                    is_speed_draw(sd as int) && is_threshold_draw(rd as int) && after[i] == Some(prepared_with(before[i]->Some_0, sd, rd));
            } else {
                assert(after[i] == before[i]);
            }
        }
    }
}

impl World {
    /// The spawn-on-tag rule for `category`: every newly tagged entity of the
    /// category gets its bundle and the defaults of its missing fields, with
    /// speed and threshold drawn at random; no field already set changes.
    pub fn prepare_tagged(&mut self, category: Category)
        ensures
            tag_outcome(old(self).slots@, final(self).slots@, category),
            old(self).wf() ==> final(self).wf(),
    {
        let n = self.slots.len();
        let ghost s0 = self.slots@;
        let mut i: usize = 0;
        while i < n
            invariant
                n == s0.len(),
                self.slots@.len() == n,
                i <= n,
                forall|j: int| 0 <= j < n && (i <= j || !newly_tagged(s0, j, category))
                    ==> #[trigger] self.slots@[j] == s0[j],
                forall|j: int|
                    #![trigger newly_tagged(s0, j, category)]
                    0 <= j < i && newly_tagged(s0, j, category) ==> exists|sd: u32, rd: u32|
                        is_speed_draw(sd as int) && is_threshold_draw(rd as int) && self.slots@[j]
                            == Some(prepared_with(s0[j]->Some_0, sd, rd)),
            decreases n - i,
        {
            if let Some(c) = self.slots[i] {
                if c.category == category && !c.prepared {
                    let speed = draw(500, 2000);
                    let threshold = draw(1000, 20000);
                    let p = prepare(c, speed, threshold);
                    self.slots.set(i, Some(p));
                    assert(self.slots@[i as int] == Some(prepared_with(s0[i as int]->Some_0, speed, threshold)));
                }
            }
            i += 1;
        }
        proof {
            lemma_tagging_keeps_stock(s0, self.slots@, category);
        }
    }
}

} // verus!
