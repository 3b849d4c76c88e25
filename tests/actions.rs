use dr_fingers::actions::{
    set_movement_actions, Actions, Direction, GameControl, KeyState, KeyboardState,
};

const UP: KeyState = KeyState { pressed: false, just_pressed: false, just_released: false };
const HELD: KeyState = KeyState { pressed: true, just_pressed: false, just_released: false };
const DOWN_NOW: KeyState = KeyState { pressed: true, just_pressed: true, just_released: false };
const UP_NOW: KeyState = KeyState { pressed: false, just_pressed: false, just_released: true };

fn keys() -> KeyboardState {
    KeyboardState { space: UP, a: UP, d: UP, arrow_left: UP, arrow_right: UP }
}

fn step(prev: Option<Direction>, input: KeyboardState) -> Actions {
    let mut actions = Actions { player_x_movement: prev, player_jump: false };
    set_movement_actions(&mut actions, &input);
    actions
}

#[test]
fn controls_read_their_keys() {
    let input = KeyboardState { arrow_left: HELD, d: UP_NOW, space: DOWN_NOW, ..keys() };
    assert!(GameControl::Left.pressed(&input));
    assert!(!GameControl::Left.just_pressed(&input));
    assert!(GameControl::Right.just_released(&input));
    assert!(!GameControl::Right.pressed(&input));
    assert!(GameControl::Jump.pressed(&input));
    assert!(GameControl::Jump.just_pressed(&input));
    assert!(!GameControl::Jump.just_released(&input));
}

#[test]
fn no_keys_no_intent() {
    let a = step(Some(Direction::Right), keys());
    assert_eq!(a, Actions { player_x_movement: None, player_jump: false });
}

#[test]
fn jump_when_held_or_released() {
    assert!(step(None, KeyboardState { space: HELD, ..keys() }).player_jump);
    assert!(step(None, KeyboardState { space: UP_NOW, ..keys() }).player_jump);
    assert!(!step(None, keys()).player_jump);
}

#[test]
fn press_edges_pick_direction() {
    let a = step(None, KeyboardState { d: DOWN_NOW, ..keys() });
    assert_eq!(a.player_x_movement, Some(Direction::Right));
    let a = step(None, KeyboardState { a: DOWN_NOW, ..keys() });
    assert_eq!(a.player_x_movement, Some(Direction::Left));
    let a = step(Some(Direction::Left), KeyboardState { a: DOWN_NOW, arrow_right: DOWN_NOW, ..keys() });
    assert_eq!(a.player_x_movement, Some(Direction::Right));
}

#[test]
fn held_keys_keep_previous_direction() {
    let both = KeyboardState { a: HELD, d: HELD, ..keys() };
    assert_eq!(step(Some(Direction::Left), both).player_x_movement, Some(Direction::Left));
    assert_eq!(step(Some(Direction::Right), both).player_x_movement, Some(Direction::Right));
    assert_eq!(step(None, both).player_x_movement, None);
}

#[test]
fn release_edge_prefers_the_key_still_held() {
    let a = step(Some(Direction::Right), KeyboardState { d: UP_NOW, a: HELD, ..keys() });
    assert_eq!(a.player_x_movement, Some(Direction::Left));
    let a = step(Some(Direction::Left), KeyboardState { a: UP_NOW, d: HELD, ..keys() });
    assert_eq!(a.player_x_movement, Some(Direction::Right));
}

#[test]
fn simultaneous_release_tie_break() {
    // both directions go up together, nothing held: the previous direction stays
    let released = KeyboardState { a: UP_NOW, d: UP_NOW, ..keys() };
    assert_eq!(step(Some(Direction::Left), released).player_x_movement, Some(Direction::Left));
    assert_eq!(step(Some(Direction::Right), released).player_x_movement, Some(Direction::Right));
    // a second key of a direction still held decides, right before left
    let right_held = KeyboardState { a: UP_NOW, d: UP_NOW, arrow_right: HELD, arrow_left: HELD, ..keys() };
    assert_eq!(step(Some(Direction::Left), right_held).player_x_movement, Some(Direction::Right));
    let left_held = KeyboardState { a: UP_NOW, d: UP_NOW, arrow_left: HELD, ..keys() };
    assert_eq!(step(Some(Direction::Right), left_held).player_x_movement, Some(Direction::Left));
}

#[test]
fn lone_left_release_clears_intent() {
    let a = step(Some(Direction::Left), KeyboardState { a: UP_NOW, ..keys() });
    assert_eq!(a.player_x_movement, None);
    let a = step(Some(Direction::Right), KeyboardState { d: UP_NOW, ..keys() });
    assert_eq!(a.player_x_movement, Some(Direction::Right));
}
