//! The player's movement rules: running, wall sliding, jumping with coyote
//! time and held-jump extension, wall jumps that briefly lock the input
//! towards the wall, and climbing poles. Velocities are decided here as
//! whole changes; the physics applies them.

use vstd::prelude::*;

use crate::collections::{action_timers_contents, ActionTimers};
use crate::phys::terrain::PoleType;

verus! {

/// The way the player faces.
#[derive(Clone, Copy, Debug, PartialEq, Eq, Structural)]
pub enum LookDir {
    Left,
    Right,
}

/// The player's input actions.
#[derive(Clone, Copy, Debug, PartialEq, Eq, Structural, Hash)]
pub enum ActionKind {
    Up,
    Down,
    Left,
    Right,
    Jump,
}

/// The sign of a facing along the x axis.
pub open spec fn spec_look_sign(d: LookDir) -> i32 {
    match d {
        LookDir::Left => -1i32,
        LookDir::Right => 1i32,
    }
}

/// The other way.
pub open spec fn spec_opposite(d: LookDir) -> LookDir {
    match d {
        LookDir::Left => LookDir::Right,
        LookDir::Right => LookDir::Left,
    }
}

/// Turning round points the other way along x, and turning round twice
/// faces the way one started.
pub proof fn law_opposite(d: LookDir)
    ensures
        spec_opposite(d) != d,
        spec_look_sign(spec_opposite(d)) == -spec_look_sign(d),
        spec_opposite(spec_opposite(d)) == d,
{
}

impl LookDir {
    /// The unit step along x that the facing points to (the x of its
    /// direction vector).
    pub fn sign(&self) -> (r: i32)
        ensures
            r == spec_look_sign(*self),
    {
        match self {
            LookDir::Left => -1,
            LookDir::Right => 1,
        }
    }

    pub fn opposite(&self) -> (r: Self)
        ensures
            r == spec_opposite(*self),
    {
        match self {
            LookDir::Left => LookDir::Right,
            LookDir::Right => LookDir::Left,
        }
    }

    pub fn as_action_kind(&self) -> (r: ActionKind)
        ensures
            r == (match *self {
                LookDir::Left => ActionKind::Left,
                LookDir::Right => ActionKind::Right,
            }),
    {
        match self {
            LookDir::Left => ActionKind::Left,
            LookDir::Right => ActionKind::Right,
        }
    }
}

/// A movement request: run in a direction (-1 or 1), or jump.
#[derive(Clone, Copy, Debug, PartialEq, Eq, Structural)]
pub enum MovementAction {
    Move(i8),
    Jump,
}

/// The state of the player's actions in this frame: which are held, and
/// whether jump was just pressed.
#[derive(Clone, Copy, Debug, PartialEq, Eq, Structural, Default)]
pub struct ActionInput {
    pub up: bool,
    pub down: bool,
    pub left: bool,
    pub right: bool,
    pub jump: bool,
    pub jump_just_pressed: bool,
}

/// Whether `action` is held.
pub open spec fn spec_pressed(input: ActionInput, action: ActionKind) -> bool {
    match action {
        ActionKind::Up => input.up,
        ActionKind::Down => input.down,
        ActionKind::Left => input.left,
        ActionKind::Right => input.right,
        ActionKind::Jump => input.jump,
    }
}

impl ActionInput {
    pub fn pressed(&self, action: ActionKind) -> (r: bool)
        ensures
            r == spec_pressed(*self, action),
    {
        match action {
            ActionKind::Up => self.up,
            ActionKind::Down => self.down,
            ActionKind::Left => self.left,
            ActionKind::Right => self.right,
            ActionKind::Jump => self.jump,
        }
    }
}

/// The movement requests of a frame: a run in the held direction (none when
/// both or neither are held), then a jump when it was just pressed.
pub fn keyboard_input(input: &ActionInput) -> (r: Vec<MovementAction>)
    ensures
        r@ == (if input.left != input.right {
            seq![MovementAction::Move(if input.right { 1i8 } else { -1i8 })]
        } else {
            Seq::empty()
        }) + (if input.jump_just_pressed {
            seq![MovementAction::Jump]
        } else {
            Seq::empty()
        }),
{
    let mut r: Vec<MovementAction> = Vec::new();
    let direction: i8 = input.right as i8 - input.left as i8;
    if direction != 0 {
        r.push(MovementAction::Move(direction));
    }
    if input.jump_just_pressed {
        r.push(MovementAction::Jump);
    }
    proof {
        let run = if input.left != input.right {
            seq![MovementAction::Move(if input.right { 1i8 } else { -1i8 })]
        } else {
            Seq::<MovementAction>::empty()
        };
        let jump = if input.jump_just_pressed { seq![MovementAction::Jump] } else { Seq::<MovementAction>::empty() };
        assert(r@ =~= run + jump);
    }
    r
}

/// What the player touches, found by the physics each frame.
#[derive(Clone, Copy, Debug, PartialEq, Eq, Structural, Default)]
pub struct MovementState {
    pub grounded: bool,
    pub facing_wall: bool,
    pub wall_left: bool,
    pub wall_right: bool,
    pub falling: bool,
}

/// A one-shot timer in nanoseconds: it finishes once `elapsed` reaches
/// `duration`, and stops there.
#[derive(Clone, Copy, Debug, PartialEq, Eq, Structural)]
pub struct Timer {
    pub duration: u64,
    pub elapsed: u64,
}

impl Timer {
    /// A timer of `duration` nanoseconds that has just started.
    pub fn new(duration: u64) -> (t: Timer)
        ensures
            t == (Timer { duration, elapsed: 0 }),
    {
        Timer { duration, elapsed: 0 }
    }

    pub fn finished(&self) -> (r: bool)
        ensures
            r == (self.elapsed >= self.duration),
    {
        self.elapsed >= self.duration
    }

    /// Lets `delta` nanoseconds pass, as bevy's one-shot timer counts.
    pub fn tick(&mut self, delta: u64)
        ensures
            final(self).duration == old(self).duration,
            final(self).elapsed == (if old(self).elapsed + delta >= old(self).duration {
                old(self).duration as int
            } else {
                old(self).elapsed + delta
            }),
    {
        let r = once_timer_tick(self.duration, self.elapsed, delta);
        self.elapsed = r as u64;
    }
}

/// bevy's `Timer::tick` on a one-shot timer of `duration` nanoseconds that
/// has run for `elapsed`, ticked by `delta`: the time it has then run, in
/// nanoseconds. A fresh one-shot timer is neither paused nor finished, so
/// the tick adds `delta` and, once the sum reaches the duration, sets the
/// elapsed time to the duration.
#[verifier::external_body]
fn once_timer_tick(duration: u64, elapsed: u64, delta: u64) -> (r: u128)
    ensures
        r == (if elapsed + delta >= duration { duration as int } else { elapsed + delta }),
{
    let mut t = bevy::time::Timer::new(std::time::Duration::from_nanos(duration), bevy::time::TimerMode::Once);
    t.set_elapsed(std::time::Duration::from_nanos(elapsed));
    t.tick(std::time::Duration::from_nanos(delta));
    t.elapsed().as_nanos()
}

/// bevy's `Stopwatch::tick` on a stopwatch that has run for `elapsed`
/// nanoseconds, ticked by `delta`: the time it has then run, in
/// nanoseconds. A new stopwatch is not paused, so the tick adds `delta`.
#[verifier::external_body]
fn stopwatch_tick(elapsed: u64, delta: u64) -> (r: u128)
    ensures
        r == elapsed + delta,
{
    let mut w = bevy::time::Stopwatch::new();
    w.set_elapsed(std::time::Duration::from_nanos(elapsed));
    w.tick(std::time::Duration::from_nanos(delta));
    w.elapsed().as_nanos()
}

/// The number an action has among the five.
pub open spec fn action_number(a: ActionKind) -> int {
    match a {
        ActionKind::Up => 0,
        ActionKind::Down => 1,
        ActionKind::Left => 2,
        ActionKind::Right => 3,
        ActionKind::Jump => 4,
    }
}

fn action_index(a: ActionKind) -> (r: usize)
    ensures
        r == action_number(a),
{
    match a {
        ActionKind::Up => 0,
        ActionKind::Down => 1,
        ActionKind::Left => 2,
        ActionKind::Right => 3,
        ActionKind::Jump => 4,
    }
}

/// `after` is the lock `before` after `delta` nanoseconds: none stays none,
/// a timer counts on and stops at its end.
pub open spec fn ticked(before: Option<Timer>, after: Option<Timer>, delta: u64) -> bool {
    match (before, after) {
        (None, None) => true,
        (Some(t), Some(u)) => u.duration == t.duration && u.elapsed == (if t.elapsed + delta >= t.duration {
            t.duration as int
        } else {
            t.elapsed + delta
        }),
        _ => false,
    }
}

/// The timer stored under `k`, if any.
pub open spec fn stored_timer(m: Map<usize, Timer>, k: usize) -> Option<Timer> {
    if m.contains_key(k) {
        Some(m[k])
    } else {
        None
    }
}

/// Inputs locked for a while after a wall jump: a timer per locked action.
pub struct DisabledInputs {
    timers: ActionTimers,
}

impl DisabledInputs {
    /// The lock timer of each action.
    pub closed spec fn timer(&self, a: ActionKind) -> Option<Timer> {
        stored_timer(action_timers_contents(self.timers), action_number(a) as usize)
    }

    /// No timer is past its end.
    pub closed spec fn well_formed(&self) -> bool {
        forall|k: usize| #[trigger] action_timers_contents(self.timers).contains_key(k)
            ==> action_timers_contents(self.timers)[k].elapsed <= action_timers_contents(self.timers)[k].duration
    }

    /// No action locked.
    pub fn new() -> (d: DisabledInputs)
        ensures
            d.well_formed(),
            forall|a: ActionKind| #[trigger] d.timer(a) is None,
    {
        DisabledInputs { timers: ActionTimers::new() }
    }

    pub fn get(&self, a: ActionKind) -> (r: Option<Timer>)
        requires
            self.well_formed(),
        ensures
            r == self.timer(a),
    {
        self.timers.get(action_index(a))
    }

    /// Whether `a` may be used: no lock, or a lock that has run out.
    pub fn enabled(&self, a: ActionKind) -> (r: bool)
        requires
            self.well_formed(),
        ensures
            r == (match self.timer(a) {
                Some(t) => t.elapsed >= t.duration,
                None => true,
            }),
    {
        match self.get(a) {
            Some(t) => t.finished(),
            None => true,
        }
    }

    /// Locks `a` with `timer`, replacing any lock it had.
    pub fn insert(&mut self, a: ActionKind, timer: Timer)
        requires
            old(self).well_formed(),
            timer.elapsed <= timer.duration,
        ensures
            final(self).well_formed(),
            final(self).timer(a) == Some(timer),
            forall|b: ActionKind| b != a ==> #[trigger] final(self).timer(b) == old(self).timer(b),
    {
        let i = action_index(a);
        self.timers.insert(i, timer);
        assert forall|b: ActionKind| b != a implies #[trigger] self.timer(b) == old(self).timer(b) by {
            assert(action_number(b) != action_number(a));
        }
    }

    /// Lets `delta` nanoseconds pass on every lock.
    pub fn tick_all(&mut self, delta: u64)
        requires
            old(self).well_formed(),
        ensures
            final(self).well_formed(),
            forall|a: ActionKind| #![trigger final(self).timer(a)] ticked(old(self).timer(a), final(self).timer(a), delta),
    {
        let ghost before = action_timers_contents(self.timers);
        let mut i: usize = 0;
        assert forall|k: usize| #[trigger] before.contains_key(k) implies before[k].elapsed <= before[k].duration by {}
        while i < 5
            invariant
                i <= 5,
                self.well_formed(),
                forall|k: usize| i <= k < 5 ==> #[trigger] stored_timer(action_timers_contents(self.timers), k) == stored_timer(before, k),
                forall|k: usize| k < i ==> ticked(stored_timer(before, k), #[trigger] stored_timer(action_timers_contents(self.timers), k), delta),
                forall|k: usize| #[trigger] before.contains_key(k) ==> before[k].elapsed <= before[k].duration,
            decreases 5 - i,
        {
            let ghost cur = action_timers_contents(self.timers);
            if let Some(mut t) = self.timers.get(i) {
                t.tick(delta);
                self.timers.insert(i, t);
                assert(stored_timer(action_timers_contents(self.timers), i) == Some(t));
            }
            assert forall|k: usize| k != i implies #[trigger] stored_timer(action_timers_contents(self.timers), k) == stored_timer(cur, k) by {}
            i = i + 1;
        }
        assert forall|a: ActionKind| #![trigger self.timer(a)] ticked(old(self).timer(a), self.timer(a), delta) by {
            let k = action_number(a) as usize;
            assert(k < 5);
            assert(ticked(stored_timer(before, k), stored_timer(action_timers_contents(self.timers), k), delta));
        }
    }
}

/// A change of the player's velocity from running: `dx` added to the x
/// velocity, the new facing if any, and whether the player slides down a
/// wall (y velocity set to -30). The x velocity is then kept within
/// -128..128.
#[derive(Clone, Copy, Debug, PartialEq, Eq, Structural)]
pub struct HorizontalMove {
    pub dx: i32,
    pub look: Option<LookDir>,
    pub slide: bool,
}

/// Running: each held direction whose input is not locked adds 6 towards it
/// and turns the player that way (right after left), and sliding down a
/// wall on that side while falling.
pub open spec fn spec_horizontal(left: bool, right: bool, state: MovementState) -> HorizontalMove {
    HorizontalMove {
        dx: if right == left { 0i32 } else if right { 6i32 } else { -6i32 },
        look: if right {
            Some(LookDir::Right)
        } else if left {
            Some(LookDir::Left)
        } else {
            None
        },
        slide: (left && state.wall_left && state.falling) || (right && state.wall_right && state.falling),
    }
}

/// The x speed the player never exceeds.
pub const MAX_SPEED: i32 = 128;

pub fn horizontal_movement(input: &ActionInput, state: &MovementState, disabled: &DisabledInputs) -> (r: HorizontalMove)
    requires
        disabled.well_formed(),
    ensures
        ({
            let left_enabled = match disabled.timer(ActionKind::Left) {
                Some(t) => t.elapsed >= t.duration,
                None => true,
            };
            let right_enabled = match disabled.timer(ActionKind::Right) {
                Some(t) => t.elapsed >= t.duration,
                None => true,
            };
            r == spec_horizontal(input.left && left_enabled, input.right && right_enabled, *state)
        }),
{
    let left_enabled = disabled.enabled(ActionKind::Left);
    let right_enabled = disabled.enabled(ActionKind::Right);
    let mut r = HorizontalMove { dx: 0, look: None, slide: false };
    if input.left && left_enabled {
        r.dx = r.dx - 6;
        r.look = Some(LookDir::Left);
        if state.wall_left && state.falling {
            r.slide = true;
        }
    }
    if input.right && right_enabled {
        r.dx = r.dx + 6;
        r.look = Some(LookDir::Right);
        if state.wall_right && state.falling {
            r.slide = true;
        }
    }
    r
}

/// Time since an event, in nanoseconds; it stops counting at the largest
/// value.
#[derive(Clone, Copy, Debug, PartialEq, Eq, Structural, Default)]
pub struct Stopwatch {
    pub elapsed: u64,
}

impl Stopwatch {
    /// Lets `delta` nanoseconds pass, as bevy's stopwatch counts; the count
    /// stops at the largest value.
    pub fn tick(&mut self, delta: u64)
        ensures
            final(self).elapsed == sat_add(old(self).elapsed, delta),
    {
        let r = stopwatch_tick(self.elapsed, delta);
        self.elapsed = if r > 18_446_744_073_709_551_615u128 {
            u64::MAX
        } else {
            r as u64
        };
    }
}

/// The stopwatches of the jump rule: time since the last jump, and time
/// since the player was last on the ground.
#[derive(Clone, Copy, Debug, PartialEq, Eq, Structural, Default)]
pub struct JumpTimers {
    pub jump_extender: Stopwatch,
    pub coyote: Stopwatch,
}

/// Time after leaving the ground in which a jump is still allowed.
pub const COYOTE_TIME: u64 = 150_000_000;
/// Time after a jump in which holding jump keeps lifting.
pub const JUMP_EXTEND_TIME: u64 = 200_000_000;

/// What the jump rule does to the y velocity: set it to 96 (a jump), then
/// add 4 (holding jump).
#[derive(Clone, Copy, Debug, PartialEq, Eq, Structural)]
pub struct JumpMove {
    pub jump: bool,
    pub extend: bool,
}

/// `a + b`, stopping at the largest value.
pub open spec fn sat_add(a: u64, b: u64) -> u64 {
    if a + b > u64::MAX {
        u64::MAX
    } else {
        (a + b) as u64
    }
}

/// The jump rule after `delta` nanoseconds: both watches count on, the
/// coyote watch restarts on the ground; a jump happens when jump was just
/// pressed on the ground, or while falling within the coyote time, and
/// restarts the extender; holding jump in the air within the extend time
/// lifts further.
pub open spec fn spec_jump(input: ActionInput, state: MovementState, timers: JumpTimers, delta: u64) -> (JumpTimers, JumpMove) {
    let extender = sat_add(timers.jump_extender.elapsed, delta);
    let coyote = if state.grounded {
        0
    } else {
        sat_add(timers.coyote.elapsed, delta)
    };
    let can_jump = state.grounded || (coyote < COYOTE_TIME && state.falling);
    let jump = input.jump_just_pressed && can_jump;
    let extender = if jump {
        0
    } else {
        extender
    };
    let extend = input.jump && !state.grounded && extender < JUMP_EXTEND_TIME;
    (
        JumpTimers { jump_extender: Stopwatch { elapsed: extender }, coyote: Stopwatch { elapsed: coyote } },
        JumpMove { jump, extend },
    )
}

pub fn jump(input: &ActionInput, state: &MovementState, timers: &mut JumpTimers, delta: u64) -> (r: JumpMove)
    ensures
        (*final(timers), r) == spec_jump(*input, *state, *old(timers), delta),
{
    timers.jump_extender.tick(delta);
    timers.coyote.tick(delta);
    if state.grounded {
        timers.coyote.elapsed = 0;
    }
    let can_coyote = timers.coyote.elapsed < COYOTE_TIME && state.falling;
    let can_jump = state.grounded || can_coyote;
    let mut r = JumpMove { jump: false, extend: false };
    if input.jump_just_pressed && can_jump {
        r.jump = true;
        timers.jump_extender.elapsed = 0;
    }
    if input.jump && !state.grounded && timers.jump_extender.elapsed < JUMP_EXTEND_TIME {
        r.extend = true;
    }
    r
}

/// How long a wall jump locks the input towards the wall.
pub const WALL_JUMP_LOCK: u64 = 500_000_000;

/// A wall jump: the y velocity is set to 128 and `dx` is added to the x
/// velocity, away from the wall.
#[derive(Clone, Copy, Debug, PartialEq, Eq, Structural)]
pub struct WallJump {
    pub dx: i32,
}

/// Wall jumps: every lock counts on by `delta`; pressing jump while holding
/// towards the wall one faces pushes away from it and locks that direction.
pub fn wall_jump(input: &ActionInput, look_dir: LookDir, state: &MovementState, disabled: &mut DisabledInputs, delta: u64) -> (r: Option<WallJump>)
    requires
        old(disabled).well_formed(),
    ensures
        final(disabled).well_formed(),
        ({
            let towards = match look_dir {
                LookDir::Left => ActionKind::Left,
                LookDir::Right => ActionKind::Right,
            };
            let jumps = input.jump_just_pressed && spec_pressed(*input, towards) && state.facing_wall;
            &&& r == (if jumps {
                Some(WallJump { dx: (-192 * spec_look_sign(look_dir)) as i32 })
            } else {
                None
            })
            &&& forall|a: ActionKind| #![trigger final(disabled).timer(a)]
                if jumps && a == towards {
                    final(disabled).timer(a) == Some(Timer { duration: WALL_JUMP_LOCK, elapsed: 0 })
                } else {
                    ticked(old(disabled).timer(a), final(disabled).timer(a), delta)
                }
        }),
{
    disabled.tick_all(delta);
    if input.jump_just_pressed {
        let towards = look_dir.as_action_kind();
        if input.pressed(towards) && state.facing_wall {
            disabled.insert(towards, Timer::new(WALL_JUMP_LOCK));
            let away = look_dir.opposite();
            return Some(WallJump { dx: 192 * away.sign() });
        }
    }
    None
}

/// The pole the player holds among the poles it touches, in the order they
/// are found: the first one, unless a later one is a combined pole (the
/// last of those).
pub open spec fn spec_choose_pole(poles: Seq<PoleType>) -> Option<PoleType>
    decreases poles.len(),
{
    if poles.len() == 0 {
        None
    } else {
        match spec_choose_pole(poles.drop_last()) {
            None => Some(poles.last()),
            Some(p) => if poles.last() == PoleType::Combined {
                Some(PoleType::Combined)
            } else {
                Some(p)
            },
        }
    }
}

pub fn choose_pole(poles: &Vec<PoleType>) -> (r: Option<PoleType>)
    ensures
        r == spec_choose_pole(poles@),
{
    let mut pole: Option<PoleType> = None;
    let mut i: usize = 0;
    while i < poles.len()
        invariant
            i <= poles@.len(),
            pole == spec_choose_pole(poles@.take(i as int)),
        decreases poles@.len() - i,
    {
        assert(poles@.take(i + 1).drop_last() =~= poles@.take(i as int));
        match pole {
            None => pole = Some(poles[i]),
            Some(_) => match poles[i] {
                PoleType::Combined => pole = Some(poles[i]),
                _ => {},
            },
        }
        i = i + 1;
    }
    assert(poles@.take(i as int) =~= poles@);
    pole
}

/// Climbing after this frame, given the pole touched and the climb under
/// way: a climber follows the pole touched; one not climbing starts when
/// up is held; touching no pole ends any climb.
pub open spec fn spec_pole_climb(pole: Option<PoleType>, climbing: Option<PoleType>, up: bool) -> Option<PoleType> {
    match pole {
        Some(p) => if climbing is Some || up {
            Some(p)
        } else {
            None
        },
        None => None,
    }
}

pub fn pole_climb(poles: &Vec<PoleType>, climbing: Option<PoleType>, input: &ActionInput) -> (r: Option<PoleType>)
    ensures
        r == spec_pole_climb(spec_choose_pole(poles@), climbing, input.up),
{
    match choose_pole(poles) {
        Some(p) => match climbing {
            Some(_) => Some(p),
            None => if input.pressed(ActionKind::Up) {
                Some(p)
            } else {
                None
            },
        },
        None => None,
    }
}

/// The player is on a pole of this type.
#[derive(Clone, Copy, Debug, PartialEq, Eq, Structural, Default)]
pub struct PoleClimb(pub PoleType);

/// The climbing speed.
pub const CLIMB_SPEED: i32 = 64;

/// Velocity on a pole: still, except along the pole's directions where a
/// held direction sets the speed (down over up, right over left); and
/// whether the player lets go (jump just pressed).
#[derive(Clone, Copy, Debug, PartialEq, Eq, Structural)]
pub struct PoleMove {
    pub vx: i32,
    pub vy: i32,
    pub release: bool,
}

pub open spec fn spec_pole_movement(climb: PoleType, input: ActionInput) -> PoleMove {
    let vertical = climb == PoleType::Vertical || climb == PoleType::Combined;
    let horizontal = climb == PoleType::Horizontal || climb == PoleType::Combined;
    PoleMove {
        vx: if horizontal && input.right {
            CLIMB_SPEED
        } else if horizontal && input.left {
            (-CLIMB_SPEED) as i32
        } else {
            0
        },
        vy: if vertical && input.down {
            (-CLIMB_SPEED) as i32
        } else if vertical && input.up {
            CLIMB_SPEED
        } else {
            0
        },
        release: input.jump_just_pressed,
    }
}

pub fn pole_movement(climb: PoleType, input: &ActionInput) -> (r: PoleMove)
    ensures
        r == spec_pole_movement(climb, *input),
{
    let mut r = PoleMove { vx: 0, vy: 0, release: false };
    match climb {
        PoleType::Vertical => {
            if input.pressed(ActionKind::Up) {
                r.vy = CLIMB_SPEED;
            }
            if input.pressed(ActionKind::Down) {
                r.vy = -CLIMB_SPEED;
            }
        },
        PoleType::Horizontal => {
            if input.pressed(ActionKind::Left) {
                r.vx = -CLIMB_SPEED;
            }
            if input.pressed(ActionKind::Right) {
                r.vx = CLIMB_SPEED;
            }
        },
        PoleType::Combined => {
            if input.pressed(ActionKind::Up) {
                r.vy = CLIMB_SPEED;
            }
            if input.pressed(ActionKind::Down) {
                r.vy = -CLIMB_SPEED;
            }
            if input.pressed(ActionKind::Left) {
                r.vx = -CLIMB_SPEED;
            }
            if input.pressed(ActionKind::Right) {
                r.vx = CLIMB_SPEED;
            }
        },
    }
    if input.jump_just_pressed {
        r.release = true;
    }
    r
}

/// Among the poles touched, a combined pole is always the one held;
/// without one, the first pole found is held; touching none, none is held.
pub proof fn law_choose_pole(poles: Seq<PoleType>)
    ensures
        (exists|i: int| 0 <= i < poles.len() && poles[i] == PoleType::Combined) ==> spec_choose_pole(poles) == Some(
            PoleType::Combined,
        ),
        (forall|i: int| 0 <= i < poles.len() ==> poles[i] != PoleType::Combined) && poles.len() > 0 ==> spec_choose_pole(
            poles,
        ) == Some(poles[0]),
        poles.len() == 0 <==> spec_choose_pole(poles) is None,
    decreases poles.len(),
{
    if poles.len() > 0 {
        let init = poles.drop_last();
        law_choose_pole(init);
        assert forall|i: int| 0 <= i < init.len() implies init[i] == poles[i] by {}
        if exists|i: int| 0 <= i < poles.len() && poles[i] == PoleType::Combined {
            let i = choose|i: int| 0 <= i < poles.len() && poles[i] == PoleType::Combined;
            if i < poles.len() - 1 {
                assert(init[i] == PoleType::Combined);
            }
        }
    }
}

/// The input with left and right swapped.
pub open spec fn mirrored_input(input: ActionInput) -> ActionInput {
    ActionInput { left: input.right, right: input.left, ..input }
}

/// On a pole one moves along it at the climbing speed: along a horizontal
/// or combined pole, holding left alone moves left and holding right moves
/// right (right winning over left); along a vertical or combined pole,
/// holding up alone moves up and holding down moves down (down winning);
/// across the pole nothing moves. Left and right are mirror images: with at
/// most one of them held, swapping them negates the x speed and keeps the
/// y speed. Jump lets go of the pole.
pub proof fn law_pole_moves_along_pole(climb: PoleType, input: ActionInput)
    ensures
        ({
            let m = spec_pole_movement(climb, input);
            let along_x = climb == PoleType::Horizontal || climb == PoleType::Combined;
            let along_y = climb == PoleType::Vertical || climb == PoleType::Combined;
            &&& along_x && input.left && !input.right ==> m.vx == -64
            &&& along_x && input.right ==> m.vx == 64
            &&& !along_x || (!input.left && !input.right) ==> m.vx == 0
            &&& along_y && input.up && !input.down ==> m.vy == 64
            &&& along_y && input.down ==> m.vy == -64
            &&& !along_y || (!input.up && !input.down) ==> m.vy == 0
            &&& m.release == input.jump_just_pressed
            &&& !(input.left && input.right) ==> {
                &&& spec_pole_movement(climb, mirrored_input(input)).vx == -m.vx
                &&& spec_pole_movement(climb, mirrored_input(input)).vy == m.vy
            }
        }),
{
}

} // verus!
