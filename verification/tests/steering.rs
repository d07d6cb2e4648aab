use kerr::inputstate::{
    InputState, SCANCODE_DOWN, SCANCODE_LEFT, SCANCODE_RIGHT, SCANCODE_SPACE, SCANCODE_UP,
};
use kerr::systems::{steering_target, HEADINGS};

fn target(left: bool, right: bool, up: bool, down: bool) -> Option<u8> {
    let mut state = InputState::new();
    if left {
        state.set(SCANCODE_LEFT);
    }
    if right {
        state.set(SCANCODE_RIGHT);
    }
    if up {
        state.set(SCANCODE_UP);
    }
    if down {
        state.set(SCANCODE_DOWN);
    }
    steering_target(&state)
}

fn turns(eighths: u8) -> f32 {
    f32::from(eighths) / f32::from(HEADINGS)
}

#[test]
fn single_directions_steer_to_the_quarter_turns() {
    assert_eq!(target(true, false, false, false), Some(6));
    assert_eq!(target(false, true, false, false), Some(2));
    assert_eq!(target(false, false, true, false), Some(4));
    assert_eq!(target(false, false, false, true), Some(0));
}

#[test]
fn neighbouring_directions_steer_to_the_eighths_between() {
    assert_eq!(target(true, false, true, false), Some(5));
    assert_eq!(target(true, false, false, true), Some(7));
    assert_eq!(target(false, true, true, false), Some(3));
    assert_eq!(target(false, true, false, true), Some(1));
}

#[test]
fn headings_are_the_target_angles_in_turns() {
    assert_eq!(target(true, false, false, false).map(turns), Some(0.75));
    assert_eq!(target(false, true, false, false).map(turns), Some(0.25));
    assert_eq!(target(false, false, true, false).map(turns), Some(0.5));
    assert_eq!(target(false, false, false, true).map(turns), Some(0.0));
    assert_eq!(target(true, false, true, false).map(turns), Some(0.625));
    assert_eq!(target(true, false, false, true).map(turns), Some(0.875));
    assert_eq!(target(false, true, true, false).map(turns), Some(0.375));
    assert_eq!(target(false, true, false, true).map(turns), Some(0.125));
}

#[test]
fn no_direction_steers_nowhere() {
    assert_eq!(target(false, false, false, false), None);
}

#[test]
fn no_direction_for_two_ticks_steers_nowhere_each_tick() {
    let state = InputState::new();
    assert_eq!(steering_target(&state), None);
    assert_eq!(steering_target(&state), None);
}

#[test]
fn opposing_directions_steer_nowhere() {
    assert_eq!(target(true, true, false, false), None);
    assert_eq!(target(false, false, true, true), None);
    assert_eq!(target(true, true, true, false), None);
    assert_eq!(target(true, true, false, true), None);
    assert_eq!(target(true, false, true, true), None);
    assert_eq!(target(false, true, true, true), None);
    assert_eq!(target(true, true, true, true), None);
}

#[test]
fn every_heading_is_below_a_full_turn() {
    for bits in 0..16u8 {
        let t = target(bits & 1 != 0, bits & 2 != 0, bits & 4 != 0, bits & 8 != 0);
        if let Some(h) = t {
            assert!(h < HEADINGS);
        }
    }
}

#[test]
fn fire_does_not_steer() {
    let mut state = InputState::new();
    state.set(SCANCODE_SPACE);
    assert_eq!(steering_target(&state), None);
    state.set(SCANCODE_RIGHT);
    assert_eq!(steering_target(&state), Some(2));
}

#[test]
fn releasing_a_key_changes_the_target() {
    let mut state = InputState::new();
    state.set(SCANCODE_RIGHT);
    state.set(SCANCODE_UP);
    assert_eq!(steering_target(&state), Some(3));
    state.unset(SCANCODE_UP);
    assert_eq!(steering_target(&state), Some(2));
    state.unset(SCANCODE_RIGHT);
    assert_eq!(steering_target(&state), None);
}
