use vstd::prelude::*;

verus! {

/// Horizontal direction of the player's movement intent.
#[derive(Clone, Copy, Debug, PartialEq, Eq, Structural)]
pub enum Direction {
    Left,
    Right,
}

impl Direction {
    /// The sign of the direction on the x axis: -1 for left, +1 for right.
    pub open spec fn sign(self) -> int {
        match self {
            Direction::Left => -1,
            Direction::Right => 1,
        }
    }
}

/// Per-frame intent derived from the keyboard.
#[derive(Clone, Copy, Debug, PartialEq, Eq, Structural)]
pub struct Actions {
    pub player_x_movement: Option<Direction>,
    pub player_jump: bool,
}

/// What the keyboard reports of one key this frame.
#[derive(Clone, Copy, Debug, PartialEq, Eq, Structural)]
pub struct KeyState {
    /// The key is held down.
    pub pressed: bool,
    /// The key went down since the previous frame.
    pub just_pressed: bool,
    /// The key went up since the previous frame.
    pub just_released: bool,
}

/// A snapshot of the keys that the game listens to.
#[derive(Clone, Copy, Debug, PartialEq, Eq, Structural)]
pub struct KeyboardState {
    pub space: KeyState,
    pub a: KeyState,
    pub d: KeyState,
    pub arrow_left: KeyState,
    pub arrow_right: KeyState,
}

/// A logical control, bound to one or more keys.
#[derive(Clone, Copy, Debug, PartialEq, Eq, Structural)]
pub enum GameControl {
    /// Space.
    Jump,
    /// A or the left arrow.
    Left,
    /// D or the right arrow.
    Right,
}

impl GameControl {
    pub open spec fn is_just_released(self, input: KeyboardState) -> bool {
        match self {
            GameControl::Jump => input.space.just_released,
            GameControl::Left => input.a.just_released || input.arrow_left.just_released,
            GameControl::Right => input.d.just_released || input.arrow_right.just_released,
        }
    }

    pub open spec fn is_pressed(self, input: KeyboardState) -> bool {
        match self {
            GameControl::Jump => input.space.pressed,
            GameControl::Left => input.a.pressed || input.arrow_left.pressed,
            GameControl::Right => input.d.pressed || input.arrow_right.pressed,
        }
    }

    pub open spec fn is_just_pressed(self, input: KeyboardState) -> bool {
        match self {
            GameControl::Jump => input.space.just_pressed,
            GameControl::Left => input.a.just_pressed || input.arrow_left.just_pressed,
            GameControl::Right => input.d.just_pressed || input.arrow_right.just_pressed,
        }
    }

    /// One of the control's keys went up since the previous frame.
    pub fn just_released(&self, input: &KeyboardState) -> (r: bool)
        ensures
            r == self.is_just_released(*input),
    {
        match self {
            GameControl::Jump => input.space.just_released,
            GameControl::Left => input.a.just_released || input.arrow_left.just_released,
            GameControl::Right => input.d.just_released || input.arrow_right.just_released,
        }
    }

    /// One of the control's keys is held down.
    pub fn pressed(&self, input: &KeyboardState) -> (r: bool)
        ensures
            r == self.is_pressed(*input),
    {
        match self {
            GameControl::Jump => input.space.pressed,
            GameControl::Left => input.a.pressed || input.arrow_left.pressed,
            GameControl::Right => input.d.pressed || input.arrow_right.pressed,
        }
    }

    /// One of the control's keys went down since the previous frame.
    pub fn just_pressed(&self, input: &KeyboardState) -> (r: bool)
        ensures
            r == self.is_just_pressed(*input),
    {
        match self {
            GameControl::Jump => input.space.just_pressed,
            GameControl::Left => input.a.just_pressed || input.arrow_left.just_pressed,
            GameControl::Right => input.d.just_pressed || input.arrow_right.just_pressed,
        }
    }
}

/// Jump intent: the jump key is held, or went up this frame.
pub open spec fn jump_intent(input: KeyboardState) -> bool {
    GameControl::Jump.is_just_released(input) || GameControl::Jump.is_pressed(input)
}

/// The horizontal intent for this frame, given the previous frame's.
///
/// Without any of the keys that keep movement alive, there is no intent.
/// Otherwise a release edge of either direction takes precedence: the
/// direction still held wins, right before left. Without a release edge a
/// press edge decides, right before left. When nothing decides, the previous
/// direction is kept.
pub open spec fn resolve_direction(prev: Option<Direction>, input: KeyboardState) -> Option<
    Direction,
> {
    let left = GameControl::Left;
    let right = GameControl::Right;
    if !(left.is_pressed(input) || right.is_just_released(input) || right.is_pressed(input)) {
        None
    } else if right.is_just_released(input) || left.is_just_released(input) {
        if right.is_pressed(input) {
            Some(Direction::Right)
        } else if left.is_pressed(input) {
            Some(Direction::Left)
        } else {
            prev
        }
    } else if right.is_just_pressed(input) {
        Some(Direction::Right)
    } else if left.is_just_pressed(input) {
        Some(Direction::Left)
    } else {
        prev
    }
}

/// The intent after reading this frame's keyboard.
pub open spec fn next_actions(prev: Actions, input: KeyboardState) -> Actions {
    Actions {
        player_x_movement: resolve_direction(prev.player_x_movement, input),
        player_jump: jump_intent(input),
    }
}

/// Turns this frame's keyboard snapshot into the movement intent.
pub fn set_movement_actions(actions: &mut Actions, keyboard_input: &KeyboardState)
    ensures
        *final(actions) == next_actions(*old(actions), *keyboard_input),
{
    if GameControl::Jump.just_released(keyboard_input) || GameControl::Jump.pressed(
        keyboard_input,
    ) {
        actions.player_jump = true;
    } else {
        actions.player_jump = false;
    }

    if GameControl::Left.pressed(keyboard_input) || GameControl::Right.just_released(
        keyboard_input,
    ) || GameControl::Right.pressed(keyboard_input) {
        let player_movement: Option<Direction>;
        if GameControl::Right.just_released(keyboard_input) || GameControl::Left.just_released(
            keyboard_input,
        ) {
            if GameControl::Right.pressed(keyboard_input) {
                player_movement = Some(Direction::Right);
            } else if GameControl::Left.pressed(keyboard_input) {
                player_movement = Some(Direction::Left);
            } else {
                player_movement = None;
            }
        } else if GameControl::Right.just_pressed(keyboard_input) {
            player_movement = Some(Direction::Right);
        } else if GameControl::Left.just_pressed(keyboard_input) {
            player_movement = Some(Direction::Left);
        } else {
            player_movement = actions.player_x_movement;
        }

        if player_movement.is_some() {
            actions.player_x_movement = player_movement;
        }
    } else {
        actions.player_x_movement = None;
    }
}

/// When both directions are released in the same frame, the direction still
/// held wins, right before left; when neither is held the previous direction
/// stays. The result does not depend on which keys were just pressed.
pub proof fn lemma_simultaneous_release_tie_break(prev: Actions, input: KeyboardState)
    requires
        GameControl::Left.is_just_released(input),
        GameControl::Right.is_just_released(input),
    ensures
        next_actions(prev, input).player_x_movement == (if GameControl::Right.is_pressed(input) {
            Some(Direction::Right)
        } else if GameControl::Left.is_pressed(input) {
            Some(Direction::Left)
        } else {
            prev.player_x_movement
        }),
{
}

} // verus!
