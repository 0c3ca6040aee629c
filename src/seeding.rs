use vstd::prelude::*;

use crate::components::{fresh, Category, Creature, FoodPellet, Herbivore, Position, Preditor};
use crate::random::draw;
use crate::world::{all_stocked, stocked, World};

verus! {

/// Herbivores placed when a level is built.
pub const INITIAL_HERBIVORES: usize = 30;

/// Predators placed when a level is built.
pub const INITIAL_PREDITORS: usize = 3;

/// Food pellets placed when a level is built.
pub const INITIAL_PELLETS: usize = 200;

/// Half the side of the square, centred on the origin, where a level's
/// first entities are placed, in millimetres.
pub const SEED_HALF_SIDE: i32 = 80000;

/// Height at which a level's first entities are placed, in millimetres.
pub const SEED_HEIGHT: i32 = 2000;

/// Height above a floor plate's bounds at which pellets are dropped, in millimetres.
pub const DROP_HEIGHT: i32 = 20000;

/// The pellet count above which replenishment stops.
pub const PELLET_CAP: usize = 1000;

/// The largest coordinate or half extent a floor plate may have, so that a
/// drop position fits in millimetres.
pub const PLATE_LIMIT: i32 = 0x1000_0000;

/// An axis-aligned bounding volume: a centre and horizontal half extents,
/// in millimetres.
#[derive(Clone, Copy, Debug, PartialEq, Eq, Structural)]
pub struct Aabb {
    pub center: Position,
    pub half_x: i32,
    pub half_z: i32,
}

/// A floor region where pellets rain: its placement in the world and the
/// first bounding volume found among its descendants, if any.
#[derive(Clone, Copy, Debug, PartialEq, Eq, Structural)]
pub struct FloorPlate {
    pub translation: Position,
    pub bounds: Option<Aabb>,
}

/// Whether every coordinate of `p` lies within the plate limit.
pub open spec fn bounded(p: Position) -> bool {
    -PLATE_LIMIT <= p.x <= PLATE_LIMIT && -PLATE_LIMIT <= p.y <= PLATE_LIMIT && -PLATE_LIMIT <= p.z <= PLATE_LIMIT
}

impl FloorPlate {
    /// Coordinates and half extents lie within the plate limit, and half
    /// extents are not negative.
    pub open spec fn wf(self) -> bool {
        &&& bounded(self.translation)
        &&& match self.bounds {
            Some(b) => bounded(b.center) && 0 <= b.half_x <= PLATE_LIMIT && 0 <= b.half_z <= PLATE_LIMIT,
            None => true,
        }
    }
}

/// Whether `p` is a place where a level's first entities may stand.
pub open spec fn in_seed_square(p: Position) -> bool {
    -SEED_HALF_SIDE <= p.x < SEED_HALF_SIDE && -SEED_HALF_SIDE <= p.z < SEED_HALF_SIDE && p.y == SEED_HEIGHT
}

/// Whether `s` holds a freshly tagged entity of `category` placed within the
/// seeding square.
pub open spec fn seeded_as(s: Option<Creature>, category: Category) -> bool {
    &&& s is Some
    &&& s == Some(fresh(category, s->Some_0.position))
    &&& in_seed_square(s->Some_0.position)
}

/// An offset drawn within `-half..half`; a zero half extent leaves the centre.
pub open spec fn within_half(v: int, half: int) -> bool {
    if half == 0 {
        v == 0
    } else {
        -half <= v < half
    }
}

/// Whether `p` is a place where a pellet may drop over `plate`.
pub open spec fn in_drop_area(p: Position, plate: FloorPlate) -> bool {
    &&& plate.bounds is Some
    &&& {
        let b = plate.bounds->Some_0;
        &&& within_half(p.x - plate.translation.x - b.center.x, b.half_x as int)
        &&& within_half(p.z - plate.translation.z - b.center.z, b.half_z as int)
        &&& p.y == plate.translation.y + b.center.y + DROP_HEIGHT
    }
}

/// Where a pellet dropped over `plate` lands, `dx` and `dz` away from the
/// centre of the plate's bounds.
pub open spec fn drop_point(plate: FloorPlate, dx: int, dz: int) -> Position {
    let b = plate.bounds->Some_0;
    Position {
        x: (plate.translation.x + b.center.x + dx) as i32,
        y: (plate.translation.y + b.center.y + DROP_HEIGHT) as i32,
        z: (plate.translation.z + b.center.z + dz) as i32,
    }
}

/// Whether `dx` and `dz` lie within the half extents of the plate's bounds,
/// where it has bounds.
pub open spec fn offsets_fit(plate: FloorPlate, dx: int, dz: int) -> bool {
    plate.bounds is Some ==> within_half(dx, plate.bounds->Some_0.half_x as int) && within_half(
        dz,
        plate.bounds->Some_0.half_z as int,
    )
}

/// The store after a drop over plate `pick` at offsets `dx`, `dz`: unchanged
/// when more than `cap` pellets live, or when there is no such plate or it
/// has no bounds; otherwise one new pellet at the drop point.
pub open spec fn dropped(
    s: Seq<Option<Creature>>,
    plates: Seq<FloorPlate>,
    cap: nat,
    pick: int,
    dx: int,
    dz: int,
) -> Seq<Option<Creature>> {
    if pellet_count(s) > cap || !(0 <= pick < plates.len()) || plates[pick].bounds is None {
        s
    } else {
        s.push(Some(fresh(Category::FoodPellet(FoodPellet), drop_point(plates[pick], dx, dz))))
    }
}

/// Whether slot `i` holds a live food pellet.
pub open spec fn is_pellet(s: Seq<Option<Creature>>, i: int) -> bool {
    0 <= i < s.len() && s[i] is Some && s[i]->Some_0.category is FoodPellet
}

/// The number of live food pellets among the first `n` slots.
pub open spec fn pellets_below(s: Seq<Option<Creature>>, n: int) -> nat
    decreases n,
{
    if n <= 0 {
        0
    } else {
        pellets_below(s, n - 1) + if is_pellet(s, n - 1) {
            1nat
        } else {
            0nat
        }
    }
}

/// The number of live food pellets.
pub open spec fn pellet_count(s: Seq<Option<Creature>>) -> nat {
    pellets_below(s, s.len() as int)
}

/// What one replenishment pass may do: nothing, or, when at most `cap`
/// pellets live, add one pellet over a plate that has bounds.
pub open spec fn rain_outcome(before: Seq<Option<Creature>>, after: Seq<Option<Creature>>, plates: Seq<FloorPlate>, cap: nat) -> bool {
    after == before || (pellet_count(before) <= cap && exists|k: int, p: Position|
        0 <= k < plates.len() && #[trigger] in_drop_area(p, plates[k]) && after == before.push(Some(fresh(Category::FoodPellet(FoodPellet), p))))
}

/// A place within the seeding square.
fn seed_position() -> (p: Position)
    ensures
        in_seed_square(p),
{
    let x = draw(0, 160000) as i32 - SEED_HALF_SIDE;
    let z = draw(0, 160000) as i32 - SEED_HALF_SIDE;
    Position { x, y: SEED_HEIGHT, z }
}

/// An offset drawn within `-half..half`, or zero for a zero half extent.
fn offset_within(half: i32) -> (v: i32)
    requires
        0 <= half <= PLATE_LIMIT,
    ensures
        within_half(v as int, half as int),
{
    if half == 0 {
        0
    } else {
        (draw(0, 2 * half as u32) as i64 - half as i64) as i32
    }
}

impl World {
    /// Appends `count` fresh entities of `category` at places within the
    /// seeding square.
    fn scatter(&mut self, category: Category, count: usize)
        requires
            old(self).slots@.len() + count < usize::MAX,
        ensures
            final(self).slots@.len() == old(self).slots@.len() + count,
            final(self).slots@.subrange(0, old(self).slots@.len() as int) == old(self).slots@,
            forall|k: int|
                old(self).slots@.len() <= k < final(self).slots@.len() ==> seeded_as(#[trigger] final(self).slots@[k], category),
    {
        let ghost n0 = self.slots@.len();
        let mut m: usize = 0;
        while m < count
            invariant
                m <= count,
                n0 + count < usize::MAX,
                self.slots@.len() == n0 + m,
                self.slots@.subrange(0, n0 as int) == old(self).slots@,
                n0 == old(self).slots@.len(),
                forall|k: int| n0 <= k < self.slots@.len() ==> seeded_as(#[trigger] self.slots@[k], category),
            decreases count - m,
        {
            let p = seed_position();
            let ghost before = self.slots@;
            self.slots.push(Some(Creature::tagged(category, p)));
            assert(self.slots@.subrange(0, n0 as int) == before.subrange(0, n0 as int));
            m += 1;
        }
    }

    /// The number of live food pellets.
    pub fn pellet_count(&self) -> (r: usize)
        ensures
            r == pellet_count(self.slots@),
    {
        let n = self.slots.len();
        let mut count: usize = 0;
        let mut i: usize = 0;
        while i < n
            invariant
                n == self.slots@.len(),
                i <= n,
                count == pellets_below(self.slots@, i as int),
                count <= i,
            decreases n - i,
        {
            if let Some(c) = self.slots[i] {
                if matches!(c.category, Category::FoodPellet(_)) {
                    count += 1;
                }
            }
            i += 1;
        }
        count
    }

    /// Drops one pellet over plate `pick`, `dx` and `dz` away from the centre
    /// of its bounds, unless more than `cap` pellets live or the plate does
    /// not exist or has no bounds.
    pub fn drop_pellet(&mut self, plates: &Vec<FloorPlate>, cap: usize, pick: usize, dx: i32, dz: i32)
        requires
            old(self).slots@.len() < usize::MAX,
            forall|k: int| 0 <= k < plates@.len() ==> (#[trigger] plates@[k]).wf(),
            pick < plates@.len() ==> offsets_fit(plates@[pick as int], dx as int, dz as int),
        ensures
            final(self).slots@ == dropped(old(self).slots@, plates@, cap as nat, pick as int, dx as int, dz as int),
            old(self).wf() ==> final(self).wf(),
    {
        if self.pellet_count() > cap || pick >= plates.len() {
            return;
        }
        let plate = plates[pick];
        if let Some(b) = plate.bounds {
            let x = plate.translation.x + b.center.x + dx;
            let z = plate.translation.z + b.center.z + dz;
            let y = plate.translation.y + b.center.y + DROP_HEIGHT;
            self.slots.push(Some(Creature::tagged(Category::FoodPellet(FoodPellet), Position { x, y, z })));
            assert(forall|i: int| 0 <= i < old(self).slots@.len() ==> self.slots@[i] == old(self).slots@[i]);
        }
    }

    /// Continuous replenishment: picks a floor plate at random and, while at
    /// most `cap` pellets live, drops one new pellet at a random place within
    /// the picked plate's bounds. Nothing happens when there is no plate or
    /// the picked one has no bounds.
    pub fn food_pellet_rain(&mut self, plates: &Vec<FloorPlate>, cap: usize)
        requires
            old(self).slots@.len() < usize::MAX,
            plates@.len() <= u32::MAX,
            forall|k: int| 0 <= k < plates@.len() ==> (#[trigger] plates@[k]).wf(),
        ensures
            plates@.len() == 0 ==> final(self).slots@ == old(self).slots@,
            plates@.len() > 0 ==> exists|pick: int, dx: int, dz: int|
                0 <= pick < plates@.len() && offsets_fit(plates@[pick], dx, dz) && final(self).slots@
                    == #[trigger] dropped(old(self).slots@, plates@, cap as nat, pick, dx, dz),
            rain_outcome(old(self).slots@, final(self).slots@, plates@, cap as nat),
            pellet_count(old(self).slots@) > cap ==> final(self).slots@ == old(self).slots@,
            pellet_count(old(self).slots@) <= cap && plates@.len() > 0 && (forall|k: int|
                0 <= k < plates@.len() ==> (#[trigger] plates@[k]).bounds is Some) ==> final(self).slots@.len()
                == old(self).slots@.len() + 1,
            old(self).wf() ==> final(self).wf(),
    {
        if plates.len() == 0 {
            return;
        }
        let pick = draw(0, plates.len() as u32) as usize;
        let (dx, dz) = match plates[pick].bounds {
            Some(b) => (offset_within(b.half_x), offset_within(b.half_z)),
            None => (0, 0),
        };
        let ghost s0 = self.slots@;
        self.drop_pellet(plates, cap, pick, dx, dz);
        assert(self.slots@ == dropped(s0, plates@, cap as nat, pick as int, dx as int, dz as int));
        proof {
            if self.slots@ != s0 {
                assert(in_drop_area(drop_point(plates@[pick as int], dx as int, dz as int), plates@[pick as int]));
            }
        }
    }
}

/// Builds a level: 30 herbivores, 3 predators and 200 food pellets, each
/// freshly tagged at its own random place within the seeding square, in
/// that order after the entities already there.
pub fn spawn_level(world: &mut World)
    requires
        old(world).slots@.len() + 233 < usize::MAX,
    ensures
        final(world).slots@.len() == old(world).slots@.len() + 233,
        final(world).slots@.subrange(0, old(world).slots@.len() as int) == old(world).slots@,
        old(world).wf() ==> final(world).wf(),
        forall|k: int|
            0 <= k < 233 ==> seeded_as(
                #[trigger] final(world).slots@[old(world).slots@.len() + k],
                if k < 30 {
                    Category::Herbivore(Herbivore)
                } else if k < 33 {
                    Category::Preditor(Preditor)
                } else {
                    Category::FoodPellet(FoodPellet)
                },
            ),
{
    let ghost s0 = world.slots@;
    world.scatter(Category::Herbivore(Herbivore), INITIAL_HERBIVORES);
    let ghost s1 = world.slots@;
    world.scatter(Category::Preditor(Preditor), INITIAL_PREDITORS);
    let ghost s2 = world.slots@;
    world.scatter(Category::FoodPellet(FoodPellet), INITIAL_PELLETS);
    let ghost s3 = world.slots@;
    assert forall|k: int| 0 <= k < 233 implies seeded_as(
        #[trigger] s3[s0.len() + k],
        if k < 30 {
            Category::Herbivore(Herbivore)
        } else if k < 33 {
            Category::Preditor(Preditor)
        } else {
            Category::FoodPellet(FoodPellet)
        },
    ) by {
        let idx = s0.len() + k;
        if k < 33 {
            assert(s3[idx] == s3.subrange(0, s2.len() as int)[idx]);
        }
        if k < 30 {
            assert(s2[idx] == s2.subrange(0, s1.len() as int)[idx]);
        }
    }
    assert(s3.subrange(0, s0.len() as int) == s3.subrange(0, s2.len() as int).subrange(0, s0.len() as int));
    assert(s2.subrange(0, s0.len() as int) == s2.subrange(0, s1.len() as int).subrange(0, s0.len() as int));
    assert forall|i: int| 0 <= i < s3.len() && (#[trigger] s3[i]) is Some && all_stocked(s0) implies stocked(s3[i]->Some_0) by {
        if i < s0.len() {
            assert(s3[i] == s3.subrange(0, s0.len() as int)[i]);
            assert(s0[i] is Some);
        } else {
            assert(!s3[s0.len() + (i - s0.len())]->Some_0.prepared);
        }
    }
}

proof fn lemma_pellets_below_push(s: Seq<Option<Creature>>, x: Option<Creature>, n: int)
    requires
        n <= s.len(),
    ensures
        pellets_below(s.push(x), n) == pellets_below(s, n),
    decreases n,
{
    if n > 0 {
        lemma_pellets_below_push(s, x, n - 1);
    }
}

/// One pass adds at most one pellet, and only when at most `cap` pellets
/// lived before it.
pub proof fn lemma_rain_step(before: Seq<Option<Creature>>, after: Seq<Option<Creature>>, plates: Seq<FloorPlate>, cap: nat)
    requires
        rain_outcome(before, after, plates, cap),
    ensures
        pellet_count(after) == pellet_count(before) || (pellet_count(before) <= cap && pellet_count(after) == pellet_count(before) + 1),
{
    if after != before {
        let (k, p) = choose|k: int, p: Position|
            0 <= k < plates.len() && #[trigger] in_drop_area(p, plates[k]) && after == before.push(Some(fresh(Category::FoodPellet(FoodPellet), p)));
        lemma_pellets_below_push(before, Some(fresh(Category::FoodPellet(FoodPellet), p)), before.len() as int);
        assert(is_pellet(after, before.len() as int));
    }
}

/// However many replenishment passes run, the pellet count stays at most one
/// above the cap: a pass adds a pellet only while the count does not exceed
/// the cap.
pub proof fn lemma_rain_bounded(states: Seq<Seq<Option<Creature>>>, plates: Seq<FloorPlate>, cap: nat)
    requires
        states.len() > 0,
        pellet_count(states[0]) <= cap + 1,
        forall|k: int| 0 <= k < states.len() - 1 ==> rain_outcome(#[trigger] states[k], states[k + 1], plates, cap),
    ensures
        forall|k: int| 0 <= k < states.len() ==> pellet_count(#[trigger] states[k]) <= cap + 1,
    decreases states.len(),
{
    if states.len() > 1 {
        let shorter = states.drop_last();
        assert forall|k: int| 0 <= k < shorter.len() - 1 implies rain_outcome(#[trigger] shorter[k], shorter[k + 1], plates, cap) by {
            assert(shorter[k] == states[k] && shorter[k + 1] == states[k + 1]);
            assert(rain_outcome(states[k], states[k + 1], plates, cap));
        }
        lemma_rain_bounded(shorter, plates, cap);
        let last = states.len() - 1;
        assert(shorter[last - 1] == states[last - 1]);
        assert(rain_outcome(states[last - 1], states[last], plates, cap));
        lemma_rain_step(states[last - 1], states[last], plates, cap);
        assert forall|k: int| 0 <= k < states.len() implies pellet_count(#[trigger] states[k]) <= cap + 1 by {
            if k < last {
                assert(shorter[k] == states[k]);
            }
        }
    }
}

} // verus!
