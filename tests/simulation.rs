use critters::components::{
    Category, Creature, Critter, CritterEater, Eater, Energy, FoodPellet, Herbivore, PelletEater, Position,
    Preditor, ReproductionEnergy, Speed,
};
use critters::controls::{player_intent, PlayerAction};
use critters::movement::{steer, MoveIntent, Walk};
use critters::pass::PassReport;
use critters::schedule::{Schedule, Timer};
use critters::seeding::{spawn_level, Aabb, FloorPlate, PELLET_CAP};
use critters::breeding::{breed, perturb};
use critters::tagging::prepare;
use critters::world::World;

fn at(x: i32, y: i32, z: i32) -> Position {
    Position { x, y, z }
}

fn herbivore(energy: u32, speed: u32, threshold: u32) -> Creature {
    let c = Creature::tagged(Category::Herbivore(Herbivore), at(0, 2000, 0));
    Creature {
        critter: Some(Critter),
        eater: Some(Eater::Pellets(PelletEater)),
        energy: Some(Energy(energy)),
        speed: Some(Speed(speed)),
        reproduction_energy: Some(ReproductionEnergy(threshold)),
        prepared: true,
        ..c
    }
}

fn preditor(energy: u32) -> Creature {
    let c = Creature::tagged(Category::Preditor(Preditor), at(0, 2000, 0));
    Creature {
        eater: Some(Eater::Critters(CritterEater)),
        energy: Some(Energy(energy)),
        speed: Some(Speed(1000)),
        reproduction_energy: Some(ReproductionEnergy(5000)),
        prepared: true,
        ..c
    }
}

fn pellet() -> Creature {
    Creature::tagged(Category::FoodPellet(FoodPellet), at(1000, 2000, 1000))
}

fn energy_of(w: &World, id: usize) -> Option<u32> {
    w.get(id).and_then(|c| c.energy).map(|e| e.0)
}

#[test]
fn decay_decrements_then_destroys_at_zero() {
    let mut w = World::new();
    let a = w.spawn(herbivore(1, 1000, 5000));
    let b = w.spawn(herbivore(0, 1000, 5000));
    let c = w.spawn(herbivore(7, 1000, 5000));
    w.consume_energy();
    assert_eq!(energy_of(&w, a), Some(0));
    assert!(w.get(b).is_none());
    assert_eq!(energy_of(&w, c), Some(6));
    w.consume_energy();
    assert!(w.get(a).is_none());
    assert_eq!(energy_of(&w, c), Some(5));
}

#[test]
fn decay_leaves_entities_without_energy() {
    let mut w = World::new();
    let p = w.spawn(pellet());
    w.consume_energy();
    assert_eq!(w.get(p), Some(pellet()));
}

#[test]
fn eating_one_pellet_credits_one() {
    let mut w = World::new();
    let h = w.spawn(herbivore(4, 1000, 5000));
    let p = w.spawn(pellet());
    let contacts = vec![vec![p], vec![h]];
    w.eat(&contacts, Eater::Pellets(PelletEater));
    assert_eq!(energy_of(&w, h), Some(5));
    assert!(w.get(p).is_none());
}

#[test]
fn eating_one_critter_credits_ten() {
    let mut w = World::new();
    let wolf = w.spawn(preditor(3));
    let h = w.spawn(herbivore(4, 1000, 5000));
    let contacts = vec![vec![h], vec![wolf]];
    w.eat(&contacts, Eater::Critters(CritterEater));
    assert_eq!(energy_of(&w, wolf), Some(13));
    assert!(w.get(h).is_none());
}

#[test]
fn eater_touching_nothing_edible_is_unchanged() {
    let mut w = World::new();
    let h = w.spawn(herbivore(4, 1000, 5000));
    let other = w.spawn(herbivore(6, 1000, 5000));
    let lonely = w.spawn(herbivore(2, 1000, 5000));
    let contacts = vec![vec![other], vec![h], vec![]];
    let before = w.slots.clone();
    w.eat(&contacts, Eater::Pellets(PelletEater));
    assert_eq!(w.slots, before);
    assert_eq!(energy_of(&w, lonely), Some(2));
}

#[test]
fn every_touched_pellet_is_eaten_and_credited() {
    let mut w = World::new();
    let h = w.spawn(herbivore(0, 1000, 5000));
    let p1 = w.spawn(pellet());
    let p2 = w.spawn(pellet());
    let p3 = w.spawn(pellet());
    let contacts = vec![vec![p1, p2, p3], vec![], vec![], vec![]];
    w.eat(&contacts, Eater::Pellets(PelletEater));
    assert_eq!(energy_of(&w, h), Some(3));
    assert!(w.get(p1).is_none() && w.get(p2).is_none() && w.get(p3).is_none());
}

#[test]
fn two_eaters_sharing_a_pellet_are_both_credited() {
    let mut w = World::new();
    let a = w.spawn(herbivore(1, 1000, 5000));
    let b = w.spawn(herbivore(2, 1000, 5000));
    let p = w.spawn(pellet());
    let contacts = vec![vec![p], vec![p], vec![a, b]];
    w.eat(&contacts, Eater::Pellets(PelletEater));
    assert_eq!(energy_of(&w, a), Some(2));
    assert_eq!(energy_of(&w, b), Some(3));
    assert!(w.get(p).is_none());
}

#[test]
fn eating_saturates_energy() {
    let mut w = World::new();
    let wolf = w.spawn(preditor(u32::MAX - 5));
    let h = w.spawn(herbivore(4, 1000, 5000));
    let contacts = vec![vec![h], vec![]];
    w.eat(&contacts, Eater::Critters(CritterEater));
    assert_eq!(energy_of(&w, wolf), Some(u32::MAX));
}

#[test]
fn eater_without_energy_still_eats() {
    let mut w = World::new();
    let h = w.spawn(Creature { energy: None, ..herbivore(0, 1000, 5000) });
    let p = w.spawn(pellet());
    let contacts = vec![vec![p], vec![]];
    w.eat(&contacts, Eater::Pellets(PelletEater));
    assert!(w.get(p).is_none());
    assert_eq!(energy_of(&w, h), None);
}

#[test]
fn reproduction_moves_threshold_units_to_offspring() {
    let mut w = World::new();
    let parent = w.spawn(Creature { position: at(5, 6, 7), ..herbivore(10, 1000, 5000) });
    w.reproduce(Category::Herbivore(Herbivore));
    assert_eq!(w.slots.len(), 2);
    assert_eq!(energy_of(&w, parent), Some(5));
    let child = w.get(1).unwrap();
    assert_eq!(child.category, Category::Herbivore(Herbivore));
    assert_eq!(child.energy, Some(Energy(5)));
    assert_eq!(child.position, at(5, 6, 7));
    assert!(!child.prepared);
    let speed = child.speed.unwrap().0;
    assert!(speed < 2000);
    let threshold = child.reproduction_energy.unwrap().0;
    assert!(4000 <= threshold && threshold < 6000);
}

#[test]
fn reproduction_truncates_fractional_threshold() {
    let mut w = World::new();
    let parent = w.spawn(herbivore(20, 1000, 7900));
    w.reproduce(Category::Herbivore(Herbivore));
    assert_eq!(energy_of(&w, parent), Some(13));
    assert_eq!(energy_of(&w, 1), Some(7));
}

#[test]
fn no_reproduction_at_one_and_a_half_times_threshold() {
    let mut w = World::new();
    w.spawn(herbivore(15, 1000, 10000));
    w.spawn(herbivore(3, 1000, 2000));
    w.reproduce(Category::Herbivore(Herbivore));
    assert_eq!(w.slots.len(), 2);
    assert_eq!(energy_of(&w, 0), Some(15));
    assert_eq!(energy_of(&w, 1), Some(3));
}

#[test]
fn reproduction_applies_only_to_its_category() {
    let mut w = World::new();
    w.spawn(preditor(100));
    w.spawn(herbivore(100, 1000, 5000));
    w.reproduce(Category::Herbivore(Herbivore));
    assert_eq!(w.slots.len(), 3);
    assert_eq!(energy_of(&w, 0), Some(100));
    assert_eq!(energy_of(&w, 1), Some(95));
    assert_eq!(w.get(2).unwrap().category, Category::Herbivore(Herbivore));
    w.reproduce(Category::Preditor(Preditor));
    assert_eq!(w.slots.len(), 4);
    assert_eq!(energy_of(&w, 0), Some(95));
    assert_eq!(w.get(3).unwrap().category, Category::Preditor(Preditor));
}

#[test]
fn breed_perturbs_and_floors_at_zero() {
    let parent = herbivore(10, 300, 5000);
    let child = breed(parent, -1000, 999);
    assert_eq!(child.speed, Some(Speed(0)));
    assert_eq!(child.reproduction_energy, Some(ReproductionEnergy(5999)));
    assert_eq!(child.energy, Some(Energy(5)));
    assert_eq!(child.eater, None);
    assert_eq!(perturb(u32::MAX, 999), u32::MAX);
    assert_eq!(perturb(1500, -200), 1300);
}

#[test]
fn tagging_fills_defaults_once() {
    let mut w = World::new();
    let h = w.spawn(Creature::tagged(Category::Herbivore(Herbivore), at(0, 0, 0)));
    let p = w.spawn(Creature::tagged(Category::Preditor(Preditor), at(0, 0, 0)));
    w.prepare_tagged(Category::Herbivore(Herbivore));
    let c = w.get(h).unwrap();
    assert!(c.prepared);
    assert_eq!(c.energy, Some(Energy(10)));
    assert_eq!(c.eater, Some(Eater::Pellets(PelletEater)));
    assert_eq!(c.critter, Some(Critter));
    let s = c.speed.unwrap().0;
    assert!(500 <= s && s < 2000);
    let r = c.reproduction_energy.unwrap().0;
    assert!(1000 <= r && r < 20000);
    assert!(!w.get(p).unwrap().prepared);
    let first = w.slots.clone();
    w.prepare_tagged(Category::Herbivore(Herbivore));
    assert_eq!(w.slots, first);
}

#[test]
fn tagging_keeps_existing_fields() {
    let mut w = World::new();
    let base = Creature::tagged(Category::Preditor(Preditor), at(0, 0, 0));
    let id = w.spawn(Creature { energy: Some(Energy(42)), speed: Some(Speed(7)), ..base });
    w.prepare_tagged(Category::Preditor(Preditor));
    let c = w.get(id).unwrap();
    assert_eq!(c.energy, Some(Energy(42)));
    assert_eq!(c.speed, Some(Speed(7)));
    assert_eq!(c.eater, Some(Eater::Critters(CritterEater)));
    assert_eq!(c.critter, None);
    assert!(c.reproduction_energy.is_some());
}

#[test]
fn prepare_is_exact_and_idempotent() {
    let c = Creature::tagged(Category::Herbivore(Herbivore), at(1, 2, 3));
    let once = prepare(c, 800, 12000);
    assert_eq!(once.speed, Some(Speed(800)));
    assert_eq!(once.reproduction_energy, Some(ReproductionEnergy(12000)));
    assert_eq!(once.energy, Some(Energy(10)));
    assert_eq!(prepare(once, 1900, 1500), once);
    let food = prepare(pellet(), 800, 12000);
    assert!(food.prepared);
    assert_eq!(food.eater, None);
    assert_eq!(food.energy, None);
}

#[test]
fn steering_heads_for_the_nearest_target() {
    let r = steer(at(100, 0, 200), Some(at(400, 9000, -100)), Speed(1500), (7, 8), 100);
    assert_eq!(
        r,
        MoveIntent { walk: Walk { heading_x: 300, heading_z: -300, speed: 7500, float_height: 1500 }, jump: None }
    );
    let r = steer(at(0, 0, 0), None, Speed(1000), (-250, 999), 900);
    assert_eq!(
        r,
        MoveIntent { walk: Walk { heading_x: -250, heading_z: 999, speed: 5000, float_height: 1500 }, jump: Some(4000) }
    );
}

#[test]
fn target_at_the_same_horizontal_place_heads_along_x() {
    let r = steer(at(700, 0, -300), Some(at(700, 5000, -300)), Speed(2000), (-5, -6), 0);
    assert_eq!(
        r,
        MoveIntent { walk: Walk { heading_x: 1, heading_z: 0, speed: 10000, float_height: 1500 }, jump: None }
    );
}

#[test]
fn movement_intents_follow_the_spatial_index() {
    let mut w = World::new();
    let h = w.spawn(Creature { position: at(0, 0, 0), ..herbivore(5, 2000, 5000) });
    let p = w.spawn(pellet());
    let wolf = w.spawn(preditor(5));
    let nearest = vec![Some(at(3000, 0, -4000)), None, Some(at(0, 0, 0))];
    let intents = w.movement(Category::Herbivore(Herbivore), &nearest);
    assert_eq!(intents.len(), 3);
    let i = intents[h].unwrap();
    assert_eq!(i.walk.heading_x, 3000);
    assert_eq!(i.walk.heading_z, -4000);
    assert_eq!(i.walk.speed, 10000);
    assert_eq!(i.walk.float_height, 1500);
    assert!(i.jump.is_none() || i.jump == Some(4000));
    assert!(intents[p].is_none());
    assert!(intents[wolf].is_none());
}

#[test]
fn random_headings_vary() {
    let mut w = World::new();
    for _ in 0..50 {
        w.spawn(herbivore(5, 1000, 5000));
    }
    let nearest = vec![None; 50];
    let intents = w.movement(Category::Herbivore(Herbivore), &nearest);
    let first = intents[0].unwrap().walk;
    let mut varied = false;
    for i in &intents {
        let walk = i.unwrap().walk;
        assert!(-1000 <= walk.heading_x && walk.heading_x < 1000);
        assert!(-1000 <= walk.heading_z && walk.heading_z < 1000);
        if walk != first {
            varied = true;
        }
    }
    assert!(varied);
}

#[test]
fn level_seeds_populations_in_the_square() {
    let mut w = World::new();
    spawn_level(&mut w);
    assert_eq!(w.slots.len(), 233);
    let mut herbivores = 0;
    let mut preditors = 0;
    let mut pellets = 0;
    let mut xs = Vec::new();
    for s in &w.slots {
        let c = s.unwrap();
        match c.category {
            Category::Herbivore(_) => herbivores += 1,
            Category::Preditor(_) => preditors += 1,
            Category::FoodPellet(_) => pellets += 1,
        }
        assert!(-80000 <= c.position.x && c.position.x < 80000);
        assert!(-80000 <= c.position.z && c.position.z < 80000);
        assert_eq!(c.position.y, 2000);
        assert!(!c.prepared && c.energy.is_none());
        xs.push(c.position.x);
    }
    assert_eq!((herbivores, preditors, pellets), (30, 3, 200));
    assert!(xs.iter().any(|x| *x != xs[0]));
    assert_eq!(w.pellet_count(), 200);
}

fn plate(half: i32) -> FloorPlate {
    FloorPlate {
        translation: at(1000, 0, -1000),
        bounds: Some(Aabb { center: at(10, 500, 20), half_x: half, half_z: half }),
    }
}

#[test]
fn rain_drops_one_pellet_over_a_plate() {
    let mut w = World::new();
    w.food_pellet_rain(&vec![plate(0)], PELLET_CAP);
    assert_eq!(w.slots.len(), 1);
    let c = w.get(0).unwrap();
    assert_eq!(c, Creature::tagged(Category::FoodPellet(FoodPellet), at(1010, 20500, -980)));
    w.food_pellet_rain(&vec![plate(3000)], PELLET_CAP);
    let c = w.get(1).unwrap();
    assert!(-1990 <= c.position.x && c.position.x < 4010);
    assert!(-3980 <= c.position.z && c.position.z < 2020);
}

#[test]
fn rain_without_plates_or_bounds_does_nothing() {
    let mut w = World::new();
    w.food_pellet_rain(&vec![], PELLET_CAP);
    assert_eq!(w.slots.len(), 0);
    w.food_pellet_rain(&vec![FloorPlate { translation: at(0, 0, 0), bounds: None }], PELLET_CAP);
    assert_eq!(w.slots.len(), 0);
}

#[test]
fn rain_stops_above_the_cap() {
    let mut w = World::new();
    for _ in 0..4 {
        w.spawn(pellet());
    }
    w.food_pellet_rain(&vec![plate(100)], 3);
    assert_eq!(w.pellet_count(), 4);
    let mut w = World::new();
    for _ in 0..50 {
        w.food_pellet_rain(&vec![plate(100)], 5);
        assert!(w.pellet_count() <= 6);
    }
    assert_eq!(w.pellet_count(), 6);
}

#[test]
fn timer_fires_on_completed_intervals() {
    let mut t = Timer::new(500);
    assert!(!t.tick(200));
    assert_eq!(t.elapsed_ms, 200);
    assert!(t.tick(300));
    assert_eq!(t.elapsed_ms, 0);
    assert!(t.tick(1200));
    assert_eq!(t.elapsed_ms, 200);
    let mut s = Schedule::standard();
    let due = s.tick(10);
    assert!(due.rain && !due.movement && !due.decay && !due.reproduction);
    let due = s.tick(990);
    assert!(due.movement && due.reproduction && !due.decay);
    let due = s.tick(1000);
    assert!(due.decay);
    let mut fast = Schedule::new(1000);
    assert!(fast.tick(1000).decay);
}

#[test]
fn player_inputs_make_an_intent() {
    let r = player_intent(&vec![PlayerAction::Up, PlayerAction::Left, PlayerAction::Jump]);
    assert_eq!(
        r,
        MoveIntent { walk: Walk { heading_x: -1, heading_z: -1, speed: 10000, float_height: 1300 }, jump: Some(4000) }
    );
    let r = player_intent(&vec![PlayerAction::Up, PlayerAction::Down, PlayerAction::Right]);
    assert_eq!(r.walk.heading_x, 1);
    assert_eq!(r.walk.heading_z, 0);
    assert_eq!(r.jump, None);
    assert_eq!(player_intent(&vec![]).walk.heading_x, 0);
}

#[test]
fn lone_herbivore_runs_down_its_energy() {
    let mut w = World::new();
    let h = w.spawn(herbivore(10, 1000, 5000));
    let intents = w.movement(Category::Herbivore(Herbivore), &vec![None]);
    let walk = intents[h].unwrap().walk;
    assert!(-1000 <= walk.heading_x && walk.heading_x < 1000);
    assert!(-1000 <= walk.heading_z && walk.heading_z < 1000);
    assert_eq!(walk.speed, 5000);
    for step in 1..=15u32 {
        w.consume_energy();
        if step <= 10 {
            assert_eq!(energy_of(&w, h), Some(10 - step));
        } else {
            assert!(w.get(h).is_none());
        }
    }
    assert_eq!(w.slots.len(), 1);
}

#[test]
fn a_pass_runs_the_due_rules_in_order() {
    let mut w = World::new();
    let h = w.spawn(Creature::tagged(Category::Herbivore(Herbivore), at(0, 2000, 0)));
    let p = w.spawn(Creature::tagged(Category::FoodPellet(FoodPellet), at(3000, 2000, 4000)));
    let mut schedule = Schedule::standard();
    let report: PassReport = w.run_pass(
        &mut schedule,
        500,
        &vec![vec![p], vec![h]],
        &vec![Some(at(3000, 2000, 4000)), None],
        &vec![None, None],
        &vec![],
    );
    assert!(report.due.movement && report.due.rain && !report.due.decay && !report.due.reproduction);
    assert_eq!(w.slots.len(), 2);
    assert!(w.get(p).is_none());
    let c = w.get(h).unwrap();
    assert!(c.prepared);
    assert_eq!(c.energy, Some(Energy(11)));
    let walk = report.herbivore_intents[h].unwrap().walk;
    assert_eq!((walk.heading_x, walk.heading_z), (3000, 4000));
    assert_eq!(report.preditor_intents, vec![None, None]);

    let report = w.run_pass(&mut schedule, 1500, &vec![vec![], vec![]], &vec![None, None], &vec![None, None], &vec![]);
    assert!(report.due.movement && report.due.decay && report.due.reproduction);
    let threshold = c.reproduction_energy.unwrap().0;
    if 2000 * 10 > 3 * threshold {
        assert_eq!(w.slots.len(), 3);
        assert_eq!(energy_of(&w, h), Some(10 - threshold / 1000));
        assert_eq!(energy_of(&w, 2), Some(threshold / 1000));
    } else {
        assert_eq!(w.slots.len(), 2);
        assert_eq!(energy_of(&w, h), Some(10));
    }
}

#[test]
fn a_pass_with_nothing_due_only_tags_and_eats() {
    let mut w = World::new();
    let wolf = w.spawn(Creature::tagged(Category::Preditor(Preditor), at(0, 0, 0)));
    let h = w.spawn(herbivore(4, 1000, 5000));
    let mut schedule = Schedule::new(1000);
    let report = w.run_pass(&mut schedule, 5, &vec![vec![h], vec![]], &vec![None, None], &vec![None, None], &vec![]);
    assert!(!report.due.movement && !report.due.rain && !report.due.decay && !report.due.reproduction);
    assert!(report.herbivore_intents.is_empty() && report.preditor_intents.is_empty());
    assert_eq!(energy_of(&w, wolf), Some(20));
    assert!(w.get(h).is_none());
    assert_eq!(schedule.rain.elapsed_ms, 5);
}

#[test]
fn a_drop_over_a_plate_without_bounds_does_nothing() {
    let plates = vec![plate(100), FloorPlate { translation: at(0, 0, 0), bounds: None }];
    let mut w = World::new();
    w.drop_pellet(&plates, PELLET_CAP, 1, 0, 0);
    assert_eq!(w.slots.len(), 0);
    w.drop_pellet(&plates, PELLET_CAP, 2, 0, 0);
    assert_eq!(w.slots.len(), 0);
    w.drop_pellet(&plates, PELLET_CAP, 0, -100, 99);
    assert_eq!(w.slots.len(), 1);
    assert_eq!(w.get(0), Some(Creature::tagged(Category::FoodPellet(FoodPellet), at(910, 20500, -881))));
}

#[test]
fn a_drop_above_the_cap_does_nothing() {
    let mut w = World::new();
    w.spawn(pellet());
    w.spawn(pellet());
    w.drop_pellet(&vec![plate(100)], 1, 0, 5, 5);
    assert_eq!(w.slots.len(), 2);
    w.drop_pellet(&vec![plate(100)], 2, 0, 5, 5);
    assert_eq!(w.slots.len(), 3);
    assert_eq!(w.pellet_count(), 3);
}

#[test]
fn the_standard_schedule_starts_at_zero() {
    let s = Schedule::standard();
    assert_eq!((s.movement.interval_ms, s.movement.elapsed_ms), (500, 0));
    assert_eq!((s.decay.interval_ms, s.decay.elapsed_ms), (2000, 0));
    assert_eq!((s.reproduction.interval_ms, s.reproduction.elapsed_ms), (1000, 0));
    assert_eq!((s.rain.interval_ms, s.rain.elapsed_ms), (10, 0));
}
