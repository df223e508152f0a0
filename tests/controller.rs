use voxel_input::{Input, InputEvent, Key, KeySet, MoveStep, PITCH_LIMIT};

fn held_at(t: u64) -> Input {
    let mut input = Input::new(t);
    input.record_mouse_button(true, true, t);
    input
}

/// World-space delta at yaw zero, where forward is (0, 0, -1) and right is (-1, 0, 0).
fn world_delta_at_zero_yaw(step: MoveStep) -> [f64; 3] {
    let scale = 1_000_000.0;
    [
        -(step.right as f64) / scale,
        step.up as f64 / scale,
        -(step.forward as f64) / scale,
    ]
}

fn length(v: [f64; 3]) -> f64 {
    (v[0] * v[0] + v[1] * v[1] + v[2] * v[2]).sqrt()
}

#[test]
fn pitch_stays_clamped_for_extreme_motion() {
    let input = Input::new(0);
    let mut yaw: i64 = 0;
    let mut pitch: i64 = 0;
    input.record_mouse_motion(0, -1_000_000_000_000, &mut yaw, &mut pitch);
    assert_eq!(pitch, PITCH_LIMIT);
    input.record_mouse_motion(0, 1_000_000_000_000, &mut yaw, &mut pitch);
    assert_eq!(pitch, -PITCH_LIMIT);
    input.record_mouse_motion(i64::MAX, i64::MIN, &mut yaw, &mut pitch);
    assert_eq!(pitch, PITCH_LIMIT);
    input.record_mouse_motion(0, 10_000, &mut yaw, &mut pitch);
    assert_eq!(pitch, PITCH_LIMIT - 50_000);
}

#[test]
fn motion_turns_yaw_by_sensitivity() {
    let input = Input::new(0);
    let mut yaw: i64 = 100;
    let mut pitch: i64 = 0;
    input.record_mouse_motion(3_000, -2_000, &mut yaw, &mut pitch);
    assert_eq!(yaw, 15_100);
    assert_eq!(pitch, 10_000);
}

#[test]
fn yaw_saturates_at_the_ends() {
    let input = Input::new(0);
    let mut yaw: i64 = i64::MAX - 1;
    let mut pitch: i64 = 0;
    input.record_mouse_motion(1_000, 0, &mut yaw, &mut pitch);
    assert_eq!(yaw, i64::MAX);
    yaw = i64::MIN + 1;
    input.record_mouse_motion(-1_000, 0, &mut yaw, &mut pitch);
    assert_eq!(yaw, i64::MIN);
}

#[test]
fn press_then_release_removes_key() {
    let mut input = Input::new(0);
    input.record_key(Key::W, true);
    assert!(input.is_pressed(Key::W));
    input.record_key(Key::W, false);
    assert!(!input.is_pressed(Key::W));
}

#[test]
fn release_of_unheld_key_is_noop() {
    let mut keys = KeySet::new();
    keys.insert(Key::A);
    keys.remove(Key::D);
    assert!(keys.contains(Key::A));
    assert!(!keys.contains(Key::D));
    keys.insert(Key::A);
    keys.remove(Key::A);
    assert!(!keys.contains(Key::A));
}

#[test]
fn held_button_fires_once_per_delay() {
    let mut input = held_at(0);
    let fired: Vec<bool> = [0u64, 100, 400, 600, 1100]
        .iter()
        .map(|t| input.can_remove_cube(*t))
        .collect();
    assert_eq!(fired, vec![false, false, false, true, true]);
}

#[test]
fn held_button_fires_at_once_after_a_full_delay() {
    let mut input = held_at(0);
    assert!(input.can_remove_cube(500));
    assert!(!input.can_remove_cube(999));
    assert!(input.can_remove_cube(1000));
}

#[test]
fn release_resets_baseline() {
    let mut input = held_at(0);
    assert!(input.can_remove_cube(600));
    input.record_mouse_button(true, false, 700);
    assert!(!input.can_remove_cube(1200));
    input.record_mouse_button(true, true, 1200);
    assert!(!input.can_remove_cube(1200));
    assert!(!input.can_remove_cube(1699));
    assert!(input.can_remove_cube(1700));
}

#[test]
fn repress_without_poll_starts_full_delay() {
    let mut input = held_at(0);
    assert!(input.can_remove_cube(600));
    input.record_mouse_button(true, false, 700);
    input.record_mouse_button(true, true, 700);
    assert!(!input.can_remove_cube(1150));
    assert!(!input.can_remove_cube(1199));
    assert!(input.can_remove_cube(1200));
}

#[test]
fn press_while_held_keeps_baseline() {
    let mut input = held_at(0);
    assert!(input.can_remove_cube(600));
    let mut yaw: i64 = 0;
    let mut pitch: i64 = 0;
    input.process_event(&InputEvent::MouseButton { left: true, pressed: true }, 900, &mut yaw, &mut pitch);
    assert!(input.can_remove_cube(1100));
}

#[test]
fn button_event_resets_baseline() {
    let mut input = held_at(0);
    assert!(input.can_remove_cube(600));
    let mut yaw: i64 = 0;
    let mut pitch: i64 = 0;
    input.process_event(&InputEvent::MouseButton { left: true, pressed: false }, 700, &mut yaw, &mut pitch);
    input.process_event(&InputEvent::MouseButton { left: true, pressed: true }, 800, &mut yaw, &mut pitch);
    assert!(!input.can_remove_cube(1100));
    assert!(input.can_remove_cube(1300));
}

#[test]
fn fractional_motion_is_kept() {
    let input = Input::new(0);
    let mut yaw: i64 = 0;
    let mut pitch: i64 = 0;
    input.record_mouse_motion(500, -250, &mut yaw, &mut pitch);
    assert_eq!((yaw, pitch), (2_500, 1_250));
}

#[test]
fn clock_going_back_does_not_fire() {
    let mut input = held_at(1000);
    assert!(!input.can_remove_cube(10));
}

#[test]
fn other_buttons_are_ignored() {
    let mut input = Input::new(0);
    input.record_mouse_button(false, true, 0);
    assert!(!input.mouse_held());
    assert!(!input.can_remove_cube(10_000));
    input.record_mouse_button(true, true, 10_000);
    assert!(input.mouse_held());
    input.record_mouse_button(false, false, 10_000);
    assert!(input.mouse_held());
}

#[test]
fn forward_key_moves_two_units_in_a_second() {
    let mut input = Input::new(0);
    input.record_key(Key::A, true);
    let step = input.process_input(1_000_000);
    assert_eq!(step, MoveStep { forward: 2_000_000, right: 0, up: 0 });
    let delta = world_delta_at_zero_yaw(step);
    assert!((delta[2] + 2.0).abs() < 1e-9);
    assert!((length(delta) - 2.0).abs() < 1e-9);
}

#[test]
fn diagonal_is_not_normalized() {
    let mut input = Input::new(0);
    input.record_key(Key::A, true);
    input.record_key(Key::S, true);
    let step = input.process_input(1_000_000);
    assert_eq!(step, MoveStep { forward: 2_000_000, right: 2_000_000, up: 0 });
    let delta = world_delta_at_zero_yaw(step);
    assert!((length(delta) - 2.0 * 2f64.sqrt()).abs() < 1e-9);
}

#[test]
fn opposite_keys_cancel_and_reverse() {
    let mut input = Input::new(0);
    input.record_key(Key::D, true);
    input.record_key(Key::W, true);
    input.record_key(Key::LShift, true);
    assert_eq!(
        input.process_input(250_000),
        MoveStep { forward: -500_000, right: -500_000, up: -500_000 }
    );
    input.record_key(Key::A, true);
    input.record_key(Key::Space, true);
    assert_eq!(
        input.process_input(250_000),
        MoveStep { forward: 0, right: -500_000, up: 0 }
    );
}

#[test]
fn no_key_and_no_time_give_no_movement() {
    let zero = MoveStep { forward: 0, right: 0, up: 0 };
    let mut input = Input::new(0);
    assert_eq!(input.process_input(1_000_000), zero);
    input.record_key(Key::A, true);
    input.record_key(Key::Space, true);
    assert_eq!(input.process_input(0), zero);
    assert_eq!(input.process_input(-5_000_000), zero);
}

#[test]
fn distance_saturates_for_huge_elapsed() {
    let mut input = Input::new(0);
    input.record_key(Key::Space, true);
    assert_eq!(input.process_input(i64::MAX).up, i64::MAX);
}

#[test]
fn events_dispatch_to_their_handlers() {
    let mut input = Input::new(0);
    let mut yaw: i64 = 0;
    let mut pitch: i64 = 0;
    input.process_event(&InputEvent::Key { key: Key::S, pressed: true }, 0, &mut yaw, &mut pitch);
    input.process_event(&InputEvent::MouseButton { left: true, pressed: true }, 0, &mut yaw, &mut pitch);
    input.process_event(&InputEvent::MouseMotion { dx: -2_000, dy: 4_000 }, 0, &mut yaw, &mut pitch);
    assert!(input.is_pressed(Key::S));
    assert!(input.mouse_held());
    assert_eq!((yaw, pitch), (-10_000, -20_000));
    input.process_event(&InputEvent::Key { key: Key::S, pressed: false }, 0, &mut yaw, &mut pitch);
    assert!(!input.is_pressed(Key::S));
    assert_eq!((yaw, pitch), (-10_000, -20_000));
}
