use vstd::arithmetic::div_mod::{lemma_add_mod_noop, lemma_mod_self_0, lemma_small_mod};
use vstd::prelude::*;

use crate::actions::{Actions, Direction};
use crate::level::{is_top_surface, Tile};

verus! {

/// Velocities are held in thousandths of a world unit per second.
pub const VELOCITY_SCALE: i64 = 1000;

/// Horizontal acceleration per frame while standing on a floor.
pub const MOVE_ACCEL: i64 = 30 * VELOCITY_SCALE;

/// Horizontal acceleration per frame in the air: half of `MOVE_ACCEL`.
pub const AIR_ACCEL: i64 = 15 * VELOCITY_SCALE;

/// Speed taken off the horizontal velocity every frame.
pub const DAMPING: i64 = 2 * VELOCITY_SCALE;

/// Largest horizontal speed, in either direction.
pub const MAX_SPEED_X: i64 = 175 * VELOCITY_SCALE;

/// Vertical velocity that a jump sets.
pub const JUMP_VELOCITY: i64 = 200 * VELOCITY_SCALE;

/// Linear velocity of the player's body.
#[derive(Clone, Copy, Debug, PartialEq, Eq, Structural)]
pub struct Velocity {
    pub x: i64,
    pub y: i64,
}

/// The player stands on a floor when one of the touched tiles has a top surface.
pub open spec fn on_floor(contacts: Seq<Tile>) -> bool {
    exists|i: int| 0 <= i < contacts.len() && is_top_surface(#[trigger] contacts[i])
}

/// Horizontal acceleration that the intent gives this frame.
pub open spec fn acceleration(movement: Option<Direction>, floor: bool) -> int {
    match movement {
        Some(d) => d.sign() * (if floor { MOVE_ACCEL } else { AIR_ACCEL }),
        None => 0,
    }
}

/// One damping step: `DAMPING` closer to zero, stopping at zero.
pub open spec fn damp(x: int) -> int {
    if x > DAMPING {
        x - DAMPING
    } else if x < -DAMPING {
        x + DAMPING
    } else {
        0
    }
}

/// `x` limited to `[-MAX_SPEED_X, MAX_SPEED_X]`.
pub open spec fn clamp_speed(x: int) -> int {
    if x > MAX_SPEED_X {
        MAX_SPEED_X as int
    } else if x < -MAX_SPEED_X {
        -MAX_SPEED_X
    } else {
        x
    }
}

/// The velocity after one frame of player control.
pub open spec fn next_velocity(actions: Actions, v: Velocity, contacts: Seq<Tile>) -> Velocity {
    let floor = on_floor(contacts);
    Velocity {
        x: clamp_speed(damp(v.x + acceleration(actions.player_x_movement, floor))) as i64,
        y: if actions.player_jump && floor {
            JUMP_VELOCITY
        } else {
            v.y
        },
    }
}

/// Whether any of the touched tiles is one the player can stand on.
pub fn touches_floor(contacts: &Vec<Tile>) -> (r: bool)
    ensures
        r == on_floor(contacts@),
{
    let mut i: usize = 0;
    while i < contacts.len()
        invariant
            i <= contacts.len(),
            forall|j: int| 0 <= j < i ==> !is_top_surface(#[trigger] contacts@[j]),
        decreases contacts.len() - i,
    {
        if contacts[i].is_top_surface() {
            return true;
        }
        i += 1;
    }
    false
}

/// One frame of player control: jump when asked and standing on a floor,
/// accelerate toward the intended direction (half as much in the air), damp,
/// and limit the horizontal speed.
pub fn move_player(actions: &Actions, vel: &mut Velocity, contacts: &Vec<Tile>)
    ensures
        *final(vel) == next_velocity(*actions, *old(vel), contacts@),
        -MAX_SPEED_X <= final(vel).x <= MAX_SPEED_X,
        !(actions.player_jump && on_floor(contacts@)) ==> final(vel).y == old(vel).y,
{
    let floor = touches_floor(contacts);
    if actions.player_jump && floor {
        vel.y = JUMP_VELOCITY;
    }
    let step: i64 = if floor { MOVE_ACCEL } else { AIR_ACCEL };
    let accel: i64 = match actions.player_x_movement {
        Some(Direction::Right) => step,
        Some(Direction::Left) => -step,
        None => 0,
    };
    let mut x: i64 = match vel.x.checked_add(accel) {
        Some(sum) => sum,
        None => if accel > 0 { i64::MAX } else { i64::MIN },
    };
    x = if x > DAMPING {
        x - DAMPING
    } else if x < -DAMPING {
        x + DAMPING
    } else {
        0
    };
    x = if x > MAX_SPEED_X {
        MAX_SPEED_X
    } else if x < -MAX_SPEED_X {
        -MAX_SPEED_X
    } else {
        x
    };
    vel.x = x;
}

/// With no horizontal intent, the horizontal velocity moves `DAMPING` toward
/// zero without passing it (more only where the speed limit cuts it), and
/// never grows; and a frame without contact leaves the vertical velocity alone.
pub proof fn lemma_idle_decay(actions: Actions, v: Velocity, contacts: Seq<Tile>)
    requires
        actions.player_x_movement is None,
    ensures
        ({
            let x = next_velocity(actions, v, contacts).x;
            &&& -DAMPING <= v.x <= DAMPING ==> x == 0
            &&& DAMPING < v.x ==> 0 <= x <= v.x && (v.x <= MAX_SPEED_X + DAMPING ==> x == v.x - DAMPING)
            &&& v.x < -DAMPING ==> v.x <= x <= 0 && (-MAX_SPEED_X - DAMPING <= v.x ==> x == v.x + DAMPING)
        }),
        contacts.len() == 0 ==> next_velocity(actions, v, contacts).y == v.y,
{
}

/// Jump intent changes nothing unless the player stands on a floor.
pub proof fn lemma_jump_needs_floor(actions: Actions, v: Velocity, contacts: Seq<Tile>)
    requires
        !on_floor(contacts),
    ensures
        next_velocity(actions, v, contacts) == next_velocity(
            Actions { player_jump: false, ..actions },
            v,
            contacts,
        ),
        next_velocity(actions, v, contacts).y == v.y,
{
}

/// The sprite frame after one animation tick: forward when moving right,
/// backward when moving left (both wrapping around), unchanged otherwise.
pub open spec fn next_frame(index: usize, frames: usize, movement: Option<Direction>) -> usize {
    match movement {
        Some(Direction::Right) => ((index + 1) % (frames as int)) as usize,
        Some(Direction::Left) => if index == 0 {
            (frames - 1) as usize
        } else {
            (index - 1) as usize
        },
        None => index,
    }
}

/// Steps the player's sprite frame in an atlas of `frames` frames.
pub fn next_sprite_index(index: usize, frames: usize, movement: Option<Direction>) -> (r: usize)
    requires
        frames > 0,
    ensures
        r == next_frame(index, frames, movement),
{
    match movement {
        Some(Direction::Right) => {
            let rem = index % frames;
            proof {
                lemma_add_mod_noop(index as int, 1, frames as int);
                if frames == 1 {
                    lemma_mod_self_0(1);
                    lemma_small_mod(0, 1);
                } else {
                    lemma_small_mod(1, frames as nat);
                }
                if rem + 1 < frames {
                    lemma_small_mod((rem + 1) as nat, frames as nat);
                } else {
                    lemma_mod_self_0(frames as int);
                }
            }
            if rem + 1 == frames {
                0
            } else {
                rem + 1
            }
        },
        Some(Direction::Left) => if index == 0 {
            frames - 1
        } else {
            index - 1
        },
        None => index,
    }
}

} // verus!
