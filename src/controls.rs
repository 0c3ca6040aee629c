use vstd::prelude::*;

use crate::movement::{MoveIntent, Walk, JUMP_HEIGHT};

verus! {

/// An input of the player's character.
#[derive(Clone, Copy, Debug, PartialEq, Eq, Hash, Structural)]
pub enum PlayerAction {
    Up,
    Down,
    Left,
    Right,
    Jump,
}

/// Speed of the player's character, in thousandths of a unit per second.
pub const PLAYER_SPEED: u64 = 10000;

/// Height at which the player's character floats, in millimetres.
pub const PLAYER_FLOAT_HEIGHT: u32 = 1300;

/// How many entries of `pressed` are `a`.
pub open spec fn times_pressed(pressed: Seq<PlayerAction>, a: PlayerAction) -> int
    decreases pressed.len(),
{
    if pressed.len() == 0 {
        0
    } else {
        times_pressed(pressed.drop_last(), a) + if pressed.last() == a {
            1int
        } else {
            0int
        }
    }
}

/// The intent of the player's character for the pressed inputs: each Up
/// heads one step toward -z, Down toward +z, Left toward -x, Right toward +x,
/// and any Jump asks for a jump.
pub open spec fn player_intent_of(pressed: Seq<PlayerAction>) -> MoveIntent {
    MoveIntent {
        walk: Walk {
            heading_x: (times_pressed(pressed, PlayerAction::Right) - times_pressed(pressed, PlayerAction::Left)) as i64,
            heading_z: (times_pressed(pressed, PlayerAction::Down) - times_pressed(pressed, PlayerAction::Up)) as i64,
            speed: PLAYER_SPEED,
            float_height: PLAYER_FLOAT_HEIGHT,
        },
        jump: if times_pressed(pressed, PlayerAction::Jump) > 0 { Some(JUMP_HEIGHT) } else { None },
    }
}

proof fn lemma_times_pressed_bounded(pressed: Seq<PlayerAction>, a: PlayerAction)
    ensures
        0 <= times_pressed(pressed, a) <= pressed.len(),
    decreases pressed.len(),
{
    if pressed.len() > 0 {
        lemma_times_pressed_bounded(pressed.drop_last(), a);
    }
}

/// The walk and jump intent of the player's character for the inputs
/// pressed this frame.
pub fn player_intent(pressed: &Vec<PlayerAction>) -> (r: MoveIntent)
    requires
        pressed@.len() <= i64::MAX,
    ensures
        r == player_intent_of(pressed@),
{
    let mut x: i64 = 0;
    let mut z: i64 = 0;
    let mut jumping = false;
    let mut k: usize = 0;
    while k < pressed.len()
        invariant
            k <= pressed@.len(),
            pressed@.len() <= i64::MAX,
            x == times_pressed(pressed@.subrange(0, k as int), PlayerAction::Right) - times_pressed(pressed@.subrange(0, k as int), PlayerAction::Left),
            z == times_pressed(pressed@.subrange(0, k as int), PlayerAction::Down) - times_pressed(pressed@.subrange(0, k as int), PlayerAction::Up),
            jumping == (times_pressed(pressed@.subrange(0, k as int), PlayerAction::Jump) > 0),
            -(k as int) <= x <= k,
            -(k as int) <= z <= k,
        decreases pressed@.len() - k,
    {
        let ghost prefix = pressed@.subrange(0, k as int);
        assert(pressed@.subrange(0, k + 1).drop_last() == prefix);
        proof {
            lemma_times_pressed_bounded(prefix, PlayerAction::Jump);
        }
        match pressed[k] {
            PlayerAction::Up => z -= 1,
            PlayerAction::Down => z += 1,
            PlayerAction::Left => x -= 1,
            PlayerAction::Right => x += 1,
            PlayerAction::Jump => jumping = true,
        }
        k += 1;
    }
    assert(pressed@.subrange(0, pressed@.len() as int) == pressed@);
    MoveIntent {
        walk: Walk { heading_x: x, heading_z: z, speed: PLAYER_SPEED, float_height: PLAYER_FLOAT_HEIGHT },
        jump: if jumping { Some(JUMP_HEIGHT) } else { None },
    }
}

} // verus!
