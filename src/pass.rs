use vstd::prelude::*;

use crate::components::{Category, CritterEater, Creature, Eater, FoodPellet, Herbivore, PelletEater, Position, Preditor};
use crate::movement::{move_outcome, MoveIntent};
use crate::schedule::{due_after, schedule_after, Due, Schedule};
use crate::seeding::{rain_outcome, FloorPlate, PELLET_CAP};
use crate::breeding::{breed_outcome, lemma_breeders_at_most};
use crate::feeding::eaten;
use crate::tagging::tag_outcome;
use crate::world::{decayed_all, World};

verus! {

/// What one scheduling pass reports: the rules that were due, and the
/// movement intents for herbivores and predators, indexed by entity (both
/// empty when movement was not due).
pub struct PassReport {
    pub due: Due,
    pub herbivore_intents: Vec<Option<MoveIntent>>,
    pub preditor_intents: Vec<Option<MoveIntent>>,
}

/// The steps of a pass, `s[0]` the store before it and `s[9]` after it: the
/// spawn-on-tag rules for herbivores, predators and pellets; pellet eating,
/// then critter eating, on the collision sets `contacts`; movement (toward
/// `nearest_food` for herbivores, `nearest_herbivore` for predators), energy
/// decay, reproduction of herbivores then predators, and replenishment, each
/// only when due.
pub open spec fn pass_steps(
    s: Seq<Seq<Option<Creature>>>,
    herbivore_intents: Seq<Option<MoveIntent>>,
    preditor_intents: Seq<Option<MoveIntent>>,
    contacts: Seq<Vec<usize>>,
    nearest_food: Seq<Option<Position>>,
    nearest_herbivore: Seq<Option<Position>>,
    plates: Seq<FloorPlate>,
    due: Due,
) -> bool {
    &&& s.len() == 10
    &&& tag_outcome(s[0], s[1], Category::Herbivore(Herbivore))
    &&& tag_outcome(s[1], s[2], Category::Preditor(Preditor))
    &&& tag_outcome(s[2], s[3], Category::FoodPellet(FoodPellet))
    &&& s[4] == eaten(s[3], contacts, Eater::Pellets(PelletEater))
    &&& s[5] == eaten(s[4], contacts, Eater::Critters(CritterEater))
    &&& if due.movement {
        &&& move_outcome(s[5], nearest_food, Category::Herbivore(Herbivore), herbivore_intents)
        &&& move_outcome(s[5], nearest_herbivore, Category::Preditor(Preditor), preditor_intents)
    } else {
        herbivore_intents.len() == 0 && preditor_intents.len() == 0
    }
    &&& s[6] == if due.decay { decayed_all(s[5]) } else { s[5] }
    &&& if due.reproduction {
        &&& breed_outcome(s[6], s[7], Category::Herbivore(Herbivore))
        &&& breed_outcome(s[7], s[8], Category::Preditor(Preditor))
    } else {
        s[7] == s[6] && s[8] == s[6]
    }
    &&& if due.rain { rain_outcome(s[8], s[9], plates, PELLET_CAP as nat) } else { s[9] == s[8] }
}

impl World {
    /// One scheduling pass: advances `schedule` by `delta_ms` and runs, in
    /// order, the spawn-on-tag rules, both consumption rules, and each
    /// timer-gated rule that is due (movement, decay, reproduction,
    /// replenishment). `contacts`, `nearest_food` and `nearest_herbivore` are
    /// indexed by entity, as the collision feed and the spatial index saw the
    /// store before the pass.
    pub fn run_pass(
        &mut self,
        schedule: &mut Schedule,
        delta_ms: u64,
        contacts: &Vec<Vec<usize>>,
        nearest_food: &Vec<Option<Position>>,
        nearest_herbivore: &Vec<Option<Position>>,
        plates: &Vec<FloorPlate>,
    ) -> (r: PassReport)
        requires
            old(schedule).wf(),
            contacts@.len() == old(self).slots@.len(),
            forall|j: int| 0 <= j < contacts@.len() ==> (#[trigger] contacts@[j])@.no_duplicates(),
            nearest_food@.len() == old(self).slots@.len(),
            nearest_herbivore@.len() == old(self).slots@.len(),
            old(self).slots@.len() * 4 + 1 < usize::MAX,
            plates@.len() <= u32::MAX,
            forall|k: int| 0 <= k < plates@.len() ==> (#[trigger] plates@[k]).wf(),
        ensures
            final(schedule).wf(),
            *final(schedule) == schedule_after(*old(schedule), delta_ms),
            r.due == due_after(*old(schedule), delta_ms),
            old(self).wf() ==> final(self).wf(),
            exists|s: Seq<Seq<Option<Creature>>>|
                s.len() == 10 && s[0] == old(self).slots@ && s[9] == final(self).slots@ && #[trigger] pass_steps(
                    s,
                    r.herbivore_intents@,
                    r.preditor_intents@,
                    contacts@,
                    nearest_food@,
                    nearest_herbivore@,
                    plates@,
                    r.due,
                ),
    {
        let due = schedule.tick(delta_ms);
        let ghost s0 = self.slots@;
        self.prepare_tagged(Category::Herbivore(Herbivore));
        let ghost s1 = self.slots@;
        self.prepare_tagged(Category::Preditor(Preditor));
        let ghost s2 = self.slots@;
        self.prepare_tagged(Category::FoodPellet(FoodPellet));
        let ghost s3 = self.slots@;
        self.eat(contacts, Eater::Pellets(PelletEater));
        let ghost s4 = self.slots@;
        self.eat(contacts, Eater::Critters(CritterEater));
        let ghost s5 = self.slots@;
        let mut herbivore_intents: Vec<Option<MoveIntent>> = Vec::new();
        let mut preditor_intents: Vec<Option<MoveIntent>> = Vec::new();
        if due.movement {
            herbivore_intents = self.movement(Category::Herbivore(Herbivore), nearest_food);
            preditor_intents = self.movement(Category::Preditor(Preditor), nearest_herbivore);
        }
        if due.decay {
            self.consume_energy();
        }
        let ghost s6 = self.slots@;
        if due.reproduction {
            self.reproduce(Category::Herbivore(Herbivore));
            proof {
                lemma_breeders_at_most(s6, s6.len() as int, Category::Herbivore(Herbivore));
            }
        }
        let ghost s7 = self.slots@;
        if due.reproduction {
            self.reproduce(Category::Preditor(Preditor));
            proof {
                lemma_breeders_at_most(s7, s7.len() as int, Category::Preditor(Preditor));
            }
        }
        let ghost s8 = self.slots@;
        if due.rain {
            self.food_pellet_rain(plates, PELLET_CAP);
        }
        let ghost s9 = self.slots@;
        let ghost steps = seq![s0, s1, s2, s3, s4, s5, s6, s7, s8, s9];
        assert(steps[0] == s0 && steps[9] == s9);
        let r = PassReport { due, herbivore_intents, preditor_intents };
        assert(s0 == old(self).slots@);
        assert(pass_steps(steps, r.herbivore_intents@, r.preditor_intents@, contacts@, nearest_food@, nearest_herbivore@, plates@, r.due));
        r
    }
}

} // verus!
