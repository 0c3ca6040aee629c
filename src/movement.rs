use vstd::prelude::*;

use crate::components::{Category, Creature, Position, Speed};
use crate::random::draw;
use crate::world::World;

verus! {

/// Base movement magnitude: five units per second.
pub const BASE_SPEED: u64 = 5;

/// Height at which a walking creature floats, in millimetres.
pub const FLOAT_HEIGHT: u32 = 1500;

/// Apex of a jump, in millimetres.
pub const JUMP_HEIGHT: u32 = 4000;

/// A walk intent for the movement actuator. The desired horizontal velocity
/// is the heading `(heading_x, heading_z)` scaled to length `speed`
/// (thousandths of a unit per second); a zero heading asks to stand still.
#[derive(Clone, Copy, Debug, PartialEq, Eq, Structural)]
pub struct Walk {
    pub heading_x: i64,
    pub heading_z: i64,
    pub speed: u64,
    pub float_height: u32,
}

/// What a movement rule asks of the actuator for one creature.
#[derive(Clone, Copy, Debug, PartialEq, Eq, Structural)]
pub struct MoveIntent {
    pub walk: Walk,
    /// The apex height of a jump, when one is asked for.
    pub jump: Option<u32>,
}

/// A random heading component: within -1.0 to 1.0, in thousandths.
pub open spec fn is_heading_draw(v: int) -> bool {
    -1000 <= v < 1000
}

/// A jump roll: a number below 1000, of which the top tenth jumps.
pub open spec fn is_jump_roll(v: int) -> bool {
    0 <= v < 1000
}

/// The horizontal heading from `own` toward `target`; a target straight
/// above or below `own` gives the angle zero, that is +x.
pub open spec fn heading_toward(own: Position, target: Position) -> (i64, i64) {
    if target.x == own.x && target.z == own.z {
        (1, 0)
    } else {
        ((target.x - own.x) as i64, (target.z - own.z) as i64)
    }
}

/// The intent of a creature at `own` with speed `speed`: head horizontally
/// toward `nearest` when there is one, else along `random_heading`; jump when
/// `jump_roll` is 900 or more.
pub open spec fn intent_of(
    own: Position,
    nearest: Option<Position>,
    speed: Speed,
    random_heading: (i32, i32),
    jump_roll: u32,
) -> MoveIntent {
    MoveIntent {
        walk: Walk {
            heading_x: match nearest {
                Some(t) => heading_toward(own, t).0,
                None => random_heading.0 as i64,
            },
            heading_z: match nearest {
                Some(t) => heading_toward(own, t).1,
                None => random_heading.1 as i64,
            },
            speed: (BASE_SPEED * speed.0) as u64,
            float_height: FLOAT_HEIGHT,
        },
        jump: if jump_roll >= 900 { Some(JUMP_HEIGHT) } else { None },
    }
}

/// The intent of a creature at `own` with speed `speed`, given the nearest
/// target (if any) and the random draws used when there is none.
pub fn steer(own: Position, nearest: Option<Position>, speed: Speed, random_heading: (i32, i32), jump_roll: u32) -> (r: MoveIntent)
    ensures
        r == intent_of(own, nearest, speed, random_heading, jump_roll),
{
    let (heading_x, heading_z) = match nearest {
        Some(t) => if t.x == own.x && t.z == own.z {
            (1i64, 0i64)
        } else {
            (t.x as i64 - own.x as i64, t.z as i64 - own.z as i64)
        },
        None => (random_heading.0 as i64, random_heading.1 as i64),
    };
    MoveIntent {
        walk: Walk { heading_x, heading_z, speed: BASE_SPEED * speed.0 as u64, float_height: FLOAT_HEIGHT },
        jump: if jump_roll >= 900 { Some(JUMP_HEIGHT) } else { None },
    }
}

/// Whether slot `i` holds a creature of `category` that a movement rule moves.
pub open spec fn moves(s: Seq<Option<Creature>>, i: int, category: Category) -> bool {
    0 <= i < s.len() && s[i] is Some && s[i]->Some_0.category == category && s[i]->Some_0.speed is Some
}

/// What a movement rule for `category` may answer for the store `s`: an
/// intent with drawn heading and jump roll for each creature it moves, and
/// `None` for every other slot.
pub open spec fn move_outcome(
    s: Seq<Option<Creature>>,
    nearest: Seq<Option<Position>>,
    category: Category,
    r: Seq<Option<MoveIntent>>,
) -> bool {
    &&& r.len() == s.len()
    &&& forall|i: int| 0 <= i < r.len() && !moves(s, i, category) ==> #[trigger] r[i] is None
    &&& forall|i: int|
        #![trigger moves(s, i, category)]
        moves(s, i, category) ==> exists|hx: i32, hz: i32, roll: u32|
            is_heading_draw(hx as int) && is_heading_draw(hz as int) && is_jump_roll(roll as int) && r[i] == Some(
                intent_of(s[i]->Some_0.position, nearest[i], s[i]->Some_0.speed->Some_0, (hx, hz), roll),
            )
}

impl World {
    /// A movement rule for `category`: for each of its creatures with a
    /// speed, the intent toward `nearest[i]`, the nearest target that the
    /// spatial index found for entity `i`, or along a random heading when it
    /// found none; each creature jumps with one chance in ten. Entry `i` of
    /// the result is `None` for every other slot.
    pub fn movement(&self, category: Category, nearest: &Vec<Option<Position>>) -> (r: Vec<Option<MoveIntent>>)
        requires
            nearest@.len() == self.slots@.len(),
        ensures
            move_outcome(self.slots@, nearest@, category, r@),
    {
        let n = self.slots.len();
        let mut r: Vec<Option<MoveIntent>> = Vec::new();
        let mut i: usize = 0;
        while i < n
            invariant
                n == self.slots@.len(),
                nearest@.len() == n,
                i <= n,
                r@.len() == i,
                forall|j: int| 0 <= j < i && !moves(self.slots@, j, category) ==> #[trigger] r@[j] is None,
                forall|j: int|
                    #![trigger moves(self.slots@, j, category)]
                    0 <= j < i && moves(self.slots@, j, category) ==> exists|hx: i32, hz: i32, roll: u32|
                        is_heading_draw(hx as int) && is_heading_draw(hz as int) && is_jump_roll(roll as int) && r@[j]
                            == Some(intent_of(
                                self.slots@[j]->Some_0.position,
                                nearest@[j],
                                self.slots@[j]->Some_0.speed->Some_0,
                                (hx, hz),
                                roll,
                            )),
            decreases n - i,
        {
            let mut intent: Option<MoveIntent> = None;
            if let Some(c) = self.slots[i] {
                if let Some(speed) = c.speed {
                    if c.category == category {
                        let hx = draw(0, 2000) as i32 - 1000;
                        let hz = draw(0, 2000) as i32 - 1000;
                        let roll = draw(0, 1000);
                        intent = Some(steer(c.position, nearest[i], speed, (hx, hz), roll));
                    }
                }
            }
            r.push(intent);
            i += 1;
        }
        r
    }
}

} // verus!
