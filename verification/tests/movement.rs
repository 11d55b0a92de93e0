use sandbox::phys::movement::{
    choose_pole, horizontal_movement, jump, keyboard_input, pole_climb, pole_movement, wall_jump, ActionInput,
    ActionKind, DisabledInputs, HorizontalMove, JumpMove, JumpTimers, LookDir, MovementAction, MovementState,
    PoleMove, Stopwatch, Timer, WallJump, COYOTE_TIME, WALL_JUMP_LOCK,
};
use sandbox::phys::terrain::PoleType;

fn input() -> ActionInput {
    ActionInput::default()
}

#[test]
fn look_dir_opposites() {
    assert_eq!(LookDir::Left.opposite(), LookDir::Right);
    assert_eq!(LookDir::Right.opposite().opposite(), LookDir::Right);
    assert_eq!(LookDir::Left.sign(), -1);
    assert_eq!(LookDir::Right.sign(), 1);
    assert_eq!(LookDir::Left.as_action_kind(), ActionKind::Left);
    assert_eq!(LookDir::Right.as_action_kind(), ActionKind::Right);
}

#[test]
fn keyboard_input_requests() {
    assert_eq!(keyboard_input(&ActionInput { right: true, ..input() }), vec![MovementAction::Move(1)]);
    assert_eq!(keyboard_input(&ActionInput { left: true, ..input() }), vec![MovementAction::Move(-1)]);
    assert!(keyboard_input(&ActionInput { left: true, right: true, ..input() }).is_empty());
    assert_eq!(
        keyboard_input(&ActionInput { left: true, jump_just_pressed: true, ..input() }),
        vec![MovementAction::Move(-1), MovementAction::Jump]
    );
}

#[test]
fn running_both_ways_cancels_and_faces_right() {
    let state = MovementState { falling: true, wall_left: true, ..MovementState::default() };
    let d = DisabledInputs::new();
    let r = horizontal_movement(&ActionInput { left: true, right: true, ..input() }, &state, &d);
    assert_eq!(r, HorizontalMove { dx: 0, look: Some(LookDir::Right), slide: true });
}

#[test]
fn running_left_slides_only_when_falling_at_wall() {
    let d = DisabledInputs::new();
    let r = horizontal_movement(&ActionInput { left: true, ..input() }, &MovementState::default(), &d);
    assert_eq!(r, HorizontalMove { dx: -6, look: Some(LookDir::Left), slide: false });
    let state = MovementState { falling: true, wall_right: true, ..MovementState::default() };
    let r = horizontal_movement(&ActionInput { right: true, ..input() }, &state, &d);
    assert_eq!(r, HorizontalMove { dx: 6, look: Some(LookDir::Right), slide: true });
    let r = horizontal_movement(&input(), &state, &d);
    assert_eq!(r, HorizontalMove { dx: 0, look: None, slide: false });
}

#[test]
fn locked_direction_is_ignored_until_the_lock_ends() {
    let mut d = DisabledInputs::new();
    d.insert(ActionKind::Left, Timer::new(100));
    let r = horizontal_movement(&ActionInput { left: true, ..input() }, &MovementState::default(), &d);
    assert_eq!(r.dx, 0);
    assert_eq!(r.look, None);
    d.tick_all(60);
    assert!(!d.enabled(ActionKind::Left));
    d.tick_all(60);
    assert_eq!(d.get(ActionKind::Left), Some(Timer { duration: 100, elapsed: 100 }));
    let r = horizontal_movement(&ActionInput { left: true, ..input() }, &MovementState::default(), &d);
    assert_eq!(r.dx, -6);
}

#[test]
fn timer_stops_at_its_end() {
    let mut t = Timer::new(10);
    assert!(!t.finished());
    t.tick(4);
    assert_eq!(t.elapsed, 4);
    t.tick(u64::MAX);
    assert_eq!(t.elapsed, 10);
    assert!(t.finished());
}

#[test]
fn jump_from_ground() {
    let mut timers = JumpTimers::default();
    let state = MovementState { grounded: true, ..MovementState::default() };
    let r = jump(&ActionInput { jump: true, jump_just_pressed: true, ..input() }, &state, &mut timers, 16);
    assert_eq!(r, JumpMove { jump: true, extend: false });
    assert_eq!(timers.jump_extender, Stopwatch { elapsed: 0 });
    assert_eq!(timers.coyote, Stopwatch { elapsed: 0 });
}

#[test]
fn held_jump_extends_in_the_air_for_a_while() {
    let mut timers = JumpTimers::default();
    let air = MovementState::default();
    let r = jump(&ActionInput { jump: true, ..input() }, &air, &mut timers, 100_000_000);
    assert_eq!(r, JumpMove { jump: false, extend: true });
    let r = jump(&ActionInput { jump: true, ..input() }, &air, &mut timers, 100_000_000);
    assert_eq!(r, JumpMove { jump: false, extend: false });
}

#[test]
fn coyote_jump_only_shortly_after_leaving_ground_while_falling() {
    let mut timers = JumpTimers::default();
    let falling = MovementState { falling: true, ..MovementState::default() };
    let press = ActionInput { jump: true, jump_just_pressed: true, ..input() };
    let r = jump(&press, &falling, &mut timers, COYOTE_TIME - 1);
    assert!(r.jump);
    let mut late = JumpTimers::default();
    let r = jump(&press, &falling, &mut late, COYOTE_TIME);
    assert!(!r.jump);
    let mut rising = JumpTimers::default();
    let r = jump(&press, &MovementState::default(), &mut rising, 1);
    assert!(!r.jump);
}

#[test]
fn wall_jump_pushes_away_and_locks_towards_wall() {
    let mut d = DisabledInputs::new();
    let state = MovementState { facing_wall: true, ..MovementState::default() };
    let press = ActionInput { right: true, jump: true, jump_just_pressed: true, ..input() };
    let r = wall_jump(&press, LookDir::Right, &state, &mut d, 5);
    assert_eq!(r, Some(WallJump { dx: -192 }));
    assert_eq!(d.get(ActionKind::Right), Some(Timer { duration: WALL_JUMP_LOCK, elapsed: 0 }));
    assert!(!d.enabled(ActionKind::Right));
    assert!(d.enabled(ActionKind::Left));
    let r = horizontal_movement(&ActionInput { right: true, ..input() }, &state, &d);
    assert_eq!(r.dx, 0);
}

#[test]
fn no_wall_jump_away_from_wall_or_without_holding_towards_it() {
    let mut d = DisabledInputs::new();
    let state = MovementState { facing_wall: true, ..MovementState::default() };
    let press = ActionInput { left: true, jump_just_pressed: true, ..input() };
    assert_eq!(wall_jump(&press, LookDir::Right, &state, &mut d, 5), None);
    let press = ActionInput { right: true, jump_just_pressed: true, ..input() };
    assert_eq!(wall_jump(&press, LookDir::Right, &MovementState::default(), &mut d, 5), None);
    assert_eq!(d.get(ActionKind::Right), None);
}

#[test]
fn pole_choice_prefers_combined() {
    assert_eq!(choose_pole(&vec![]), None);
    assert_eq!(choose_pole(&vec![PoleType::Vertical, PoleType::Horizontal]), Some(PoleType::Vertical));
    assert_eq!(
        choose_pole(&vec![PoleType::Vertical, PoleType::Combined, PoleType::Horizontal]),
        Some(PoleType::Combined)
    );
}

#[test]
fn climbing_starts_with_up_and_ends_off_the_pole() {
    let poles = vec![PoleType::Horizontal];
    assert_eq!(pole_climb(&poles, None, &input()), None);
    assert_eq!(pole_climb(&poles, None, &ActionInput { up: true, ..input() }), Some(PoleType::Horizontal));
    assert_eq!(pole_climb(&poles, Some(PoleType::Vertical), &input()), Some(PoleType::Horizontal));
    assert_eq!(pole_climb(&vec![], Some(PoleType::Vertical), &ActionInput { up: true, ..input() }), None);
}

#[test]
fn pole_velocities() {
    let all = ActionInput { up: true, down: true, left: true, right: true, ..input() };
    assert_eq!(pole_movement(PoleType::Vertical, &all), PoleMove { vx: 0, vy: -64, release: false });
    assert_eq!(pole_movement(PoleType::Horizontal, &all), PoleMove { vx: 64, vy: 0, release: false });
    assert_eq!(pole_movement(PoleType::Combined, &all), PoleMove { vx: 64, vy: -64, release: false });
    assert_eq!(
        pole_movement(PoleType::Vertical, &ActionInput { up: true, jump_just_pressed: true, ..input() }),
        PoleMove { vx: 0, vy: 64, release: true }
    );
    assert_eq!(
        pole_movement(PoleType::Combined, &ActionInput { left: true, ..input() }),
        PoleMove { vx: -64, vy: 0, release: false }
    );
}
