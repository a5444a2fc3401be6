use vstd::prelude::*;

use std::collections::VecDeque;

use crate::command::{Command, CommandWrapper};
use crate::config::{bind_fires, InputEvent, InputMethod, Player, PlayerBinds};
use crate::unit::{get_level_fall_duration, UnitCommand, UnitCommandKind};

verus! {

#[derive(Clone, Copy, Debug, PartialEq, Eq, Structural)]
pub enum RotDirection {
    Neither,
    Left,
    Right,
}

/// Where a held side key is in its repeat cycle.
#[derive(Clone, Copy, Debug, PartialEq, Eq, Structural)]
pub enum MoveState {
    /// No side key held.
    Still,
    /// Just pressed: move once now.
    Instant,
    /// Waiting for the first repeat.
    Prepeat,
    /// Repeating.
    Repeat,
}

#[derive(Clone, Copy, Debug, PartialEq, Eq, Structural)]
pub enum MoveDirection {
    Neither,
    Left,
    Right,
}

#[derive(Clone, Copy, Debug, PartialEq, Eq, Structural)]
pub enum FallState {
    Fall,
    Softdrop,
    Harddrop,
}

/// Time between gravity steps while soft dropping, in nanoseconds.
pub const SOFTDROP_DURATION: u64 = 50_000_000;

/// Turns a local player's input into unit commands. Durations and countdowns
/// are in nanoseconds.
#[derive(Clone, Copy, Debug)]
pub struct MinoController {
    pub move_direction: MoveDirection,
    pub move_state: MoveState,
    pub rot_direction: RotDirection,
    pub fall_state: FallState,
    pub store: bool,
    pub fall_countdown: u64,
    pub move_repeat_countdown: u64,
    pub fall_duration: u64,
    pub joystick_id: Option<usize>,
    pub config_id: usize,
}

/// The movement state after an event: a side press starts moving that way,
/// and releasing the side being moved stops the movement. Right wins over left.
pub open spec fn moved_by_event(
    dir: MoveDirection,
    st: MoveState,
    left_down: bool,
    right_down: bool,
    left_up: bool,
    right_up: bool,
) -> (MoveDirection, MoveState) {
    let (d1, s1) = if left_down { (MoveDirection::Left, MoveState::Instant) } else { (dir, st) };
    let (d2, s2) = if right_down { (MoveDirection::Right, MoveState::Instant) } else { (d1, s1) };
    let (d3, s3) = if left_up && d2 == MoveDirection::Left { (MoveDirection::Neither, MoveState::Still) } else { (d2, s2) };
    if right_up && d3 == MoveDirection::Right { (MoveDirection::Neither, MoveState::Still) } else { (d3, s3) }
}

/// The moves made by the side key handling of one frame, the new movement
/// state, and the repeat countdown before the frame's time is added.
pub open spec fn move_phase(st: MoveState, c: int, pre: int, rep: int) -> (int, MoveState, int) {
    let (n1, s1, c1) = if st == MoveState::Instant { (1int, MoveState::Prepeat, 0int) } else { (0int, st, c) };
    let (n2, s2, c2) = if s1 == MoveState::Prepeat && c1 >= pre {
        (n1 + 1, MoveState::Repeat, c1 - pre)
    } else {
        (n1, s1, c1)
    };
    if s2 == MoveState::Repeat {
        (n2 + c2 / rep, s2, c2 % rep)
    } else {
        (n2, s2, c2)
    }
}

/// The time between gravity steps for a fall state.
pub open spec fn fall_interval(fs: FallState, fall_duration: int) -> int {
    match fs {
        FallState::Fall => fall_duration,
        FallState::Softdrop => SOFTDROP_DURATION as int,
        FallState::Harddrop => 0,
    }
}

/// The fall countdown once soft dropping has capped it and a hard drop has
/// cleared it.
pub open spec fn capped_countdown(fs: FallState, fc: int) -> int {
    match fs {
        FallState::Fall => fc,
        FallState::Softdrop => if fc <= SOFTDROP_DURATION { fc } else { SOFTDROP_DURATION as int },
        FallState::Harddrop => 0,
    }
}

/// How many rows the piece falls this frame: as many whole intervals as the
/// countdown holds, or as far as it can when the interval is under a microsecond.
pub open spec fn gravity_of(fs: FallState, fc: int, fall_duration: int) -> int {
    let d = fall_interval(fs, fall_duration);
    let c = capped_countdown(fs, fc);
    if d / 1000 == 0 { i32::MAX as int } else { c / d }
}

/// The fall countdown after this frame's gravity steps, before the frame's time is added.
pub open spec fn gravity_rest(fs: FallState, fc: int, fall_duration: int) -> int {
    let d = fall_interval(fs, fall_duration);
    let c = capped_countdown(fs, fc);
    if d / 1000 == 0 { c } else { c % d }
}

/// The move command for a direction.
pub open spec fn move_command(d: MoveDirection) -> UnitCommandKind {
    if d == MoveDirection::Left { UnitCommandKind::MoveLeft } else { UnitCommandKind::MoveRight }
}

/// `n` moves in direction `d`.
pub open spec fn repeat_cmd(n: int, d: MoveDirection) -> Seq<UnitCommandKind> {
    Seq::new(n as nat, |i: int| move_command(d))
}

/// The side moves of one frame.
pub open spec fn move_cmds(c: MinoController, pre: int, rep: int) -> Seq<UnitCommandKind> {
    let (n, _s, _r) = move_phase(c.move_state, c.move_repeat_countdown as int, pre, rep);
    Seq::new(n as nat, |i: int| move_command(c.move_direction))
}

/// The turn command of one frame, if a turn is pending.
pub open spec fn rot_cmds(r: RotDirection) -> Seq<UnitCommandKind> {
    match r {
        RotDirection::Left => seq![UnitCommandKind::RotateLeft],
        RotDirection::Right => seq![UnitCommandKind::RotateRight],
        RotDirection::Neither => Seq::empty(),
    }
}

/// The side-move part of a frame can run without a panic, an endless loop
/// or an overflow.
pub open spec fn move_part_ok(c: MinoController, pre: int, rep: int, dpf: u64) -> bool {
    let (n, s, r) = move_phase(c.move_state, c.move_repeat_countdown as int, pre, rep);
    &&& n > 0 ==> c.move_direction != MoveDirection::Neither
    &&& s == MoveState::Repeat ==> rep > 0
    &&& s != MoveState::Still ==> r + dpf <= u64::MAX
}

/// The commands of one frame, in order: the side moves, the turn if any,
/// the gravity step, and storing the piece if asked for.
pub open spec fn frame_commands(c: MinoController, pre: int, rep: int) -> Seq<UnitCommandKind> {
    let moves = move_cmds(c, pre, rep);
    let rot = rot_cmds(c.rot_direction);
    let g = seq![UnitCommandKind::ApplyGravity(gravity_of(c.fall_state, c.fall_countdown as int, c.fall_duration as int) as i32)];
    let st = if c.store { seq![UnitCommandKind::Store] } else { Seq::empty() };
    moves + rot + g + st
}

/// The commands wrapped as issued here, addressed to `unit_id`.
pub open spec fn wrap_all(unit_id: usize, kinds: Seq<UnitCommandKind>) -> Seq<UnitCommand> {
    Seq::new(kinds.len(), |i: int| CommandWrapper { inner: (unit_id, kinds[i]), original: true })
}

/// The controller after an input event, read through the binds of its
/// player (`binds[config_id]`) on the keyboard and its controller: side
/// presses and releases change the movement (see `moved_by_event`), a turn
/// key sets the turn (right wins), the soft drop keys switch soft dropping
/// on and off, the hard drop key starts a hard drop, and the store key asks
/// to store the piece. Timing is left alone.
pub open spec fn after_event(c: MinoController, binds: [PlayerBinds; 4], e: InputEvent) -> MinoController {
    let b = binds[c.config_id as int];
    let im = InputMethod { keyboard: Some(()), controller: c.joystick_id };
    let (d, s) = moved_by_event(
        c.move_direction,
        c.move_state,
        bind_fires(b.left, e, im, true) || bind_fires(b.left_alt, e, im, true),
        bind_fires(b.right, e, im, true) || bind_fires(b.right_alt, e, im, true),
        bind_fires(b.left, e, im, false) || bind_fires(b.left_alt, e, im, false),
        bind_fires(b.right, e, im, false) || bind_fires(b.right_alt, e, im, false),
    );
    let r1 = if bind_fires(b.rot_left, e, im, true) { RotDirection::Left } else { c.rot_direction };
    let r2 = if bind_fires(b.rot_right, e, im, true) || bind_fires(b.rot_right_alt, e, im, true) {
        RotDirection::Right
    } else {
        r1
    };
    let f1 = if bind_fires(b.softdrop, e, im, true) || bind_fires(b.softdrop_alt, e, im, true) {
        FallState::Softdrop
    } else {
        c.fall_state
    };
    let f2 = if bind_fires(b.softdrop, e, im, false) || bind_fires(b.softdrop_alt, e, im, false) {
        FallState::Fall
    } else {
        f1
    };
    let f3 = if bind_fires(b.harddrop, e, im, true) { FallState::Harddrop } else { f2 };
    MinoController {
        move_direction: d,
        move_state: s,
        rot_direction: r2,
        fall_state: f3,
        store: c.store || bind_fires(b.store, e, im, true),
        ..c
    }
}

impl MinoController {
    pub fn new(config_id: usize, joystick_id: Option<usize>) -> (c: Self)
        ensures
            c.move_direction == MoveDirection::Neither,
            c.move_state == MoveState::Still,
            c.rot_direction == RotDirection::Neither,
            c.fall_state == FallState::Fall,
            !c.store,
            c.fall_countdown == 0,
            c.move_repeat_countdown == 0,
            c.fall_duration == 400_000_000,
            c.joystick_id == joystick_id,
            c.config_id == config_id,
    {
        let fall_duration = get_level_fall_duration(1);
        assert((80_000_000_000int + (85 + 15 * 1int)) / (2 * (85 + 15 * 1int)) == 400_000_000) by (nonlinear_arith);
        MinoController {
            move_direction: MoveDirection::Neither,
            move_state: MoveState::Still,
            rot_direction: RotDirection::Neither,
            fall_state: FallState::Fall,
            store: false,
            fall_countdown: 0,
            move_repeat_countdown: 0,
            fall_duration,
            joystick_id,
            config_id,
        }
    }

    /// Updates the controller from one input event, read through the binds
    /// of its player (`binds[config_id]`) on the keyboard and its controller.
    pub fn update(&mut self, binds: &[PlayerBinds; 4], event: &InputEvent)
        requires
            old(self).config_id < 4,
        ensures
            *final(self) == after_event(*old(self), *binds, *event),
    {
        let b = &binds[self.config_id];
        let im = InputMethod::new(true, self.joystick_id);
        if b.left.is_down(event, &im) || b.left_alt.is_down(event, &im) {
            self.move_direction = MoveDirection::Left;
            self.move_state = MoveState::Instant;
        }
        if b.right.is_down(event, &im) || b.right_alt.is_down(event, &im) {
            self.move_direction = MoveDirection::Right;
            self.move_state = MoveState::Instant;
        }
        if b.left.is_up(event, &im) || b.left_alt.is_up(event, &im) {
            if self.move_direction == MoveDirection::Left {
                self.move_direction = MoveDirection::Neither;
                self.move_state = MoveState::Still;
            }
        }
        if b.right.is_up(event, &im) || b.right_alt.is_up(event, &im) {
            if self.move_direction == MoveDirection::Right {
                self.move_direction = MoveDirection::Neither;
                self.move_state = MoveState::Still;
            }
        }
        if b.rot_left.is_down(event, &im) {
            self.rot_direction = RotDirection::Left;
        }
        if b.rot_right.is_down(event, &im) || b.rot_right_alt.is_down(event, &im) {
            self.rot_direction = RotDirection::Right;
        }
        if b.softdrop.is_down(event, &im) || b.softdrop_alt.is_down(event, &im) {
            self.fall_state = FallState::Softdrop;
        }
        if b.softdrop.is_up(event, &im) || b.softdrop_alt.is_up(event, &im) {
            self.fall_state = FallState::Fall;
        }
        if b.harddrop.is_down(event, &im) {
            self.fall_state = FallState::Harddrop;
        }
        if b.store.is_down(event, &im) {
            self.store = true;
        }
    }
}

} // verus!

verus! {

/// The commands of one frame for the controller `c` with the timing of its
/// player (see `frame_commands`).
pub open spec fn frame_cmds(c: MinoController, config: [Player; 4]) -> Seq<UnitCommandKind> {
    frame_commands(
        c,
        config[c.config_id as int].move_prepeat_duration as int,
        config[c.config_id as int].move_repeat_duration as int,
    )
}

/// The controller after one frame of `dpf` nanoseconds: the side moves are
/// made and their countdown runs on, the gravity steps are taken and the
/// fall countdown runs on, a hard drop ends, and the pending turn and store
/// are done.
pub open spec fn after_frame(c: MinoController, config: [Player; 4], dpf: u64) -> MinoController {
    let pre = config[c.config_id as int].move_prepeat_duration as int;
    let rep = config[c.config_id as int].move_repeat_duration as int;
    let (n, s, r) = move_phase(c.move_state, c.move_repeat_countdown as int, pre, rep);
    MinoController {
        move_state: s,
        move_repeat_countdown: (if s != MoveState::Still { r + dpf } else { r }) as u64,
        fall_countdown: (gravity_rest(c.fall_state, c.fall_countdown as int, c.fall_duration as int) + dpf) as u64,
        fall_state: if c.fall_state == FallState::Harddrop { FallState::Fall } else { c.fall_state },
        rot_direction: RotDirection::Neither,
        store: false,
        ..c
    }
}

/// `append_commands` can run without a panic, an endless loop or an overflow.
pub open spec fn append_ok(c: MinoController, config: [Player; 4], dpf: u64) -> bool {
    &&& c.config_id < 4
    &&& move_part_ok(c, config[c.config_id as int].move_prepeat_duration as int, config[c.config_id as int].move_repeat_duration as int, dpf)
    &&& gravity_of(c.fall_state, c.fall_countdown as int, c.fall_duration as int) <= i32::MAX
    &&& gravity_rest(c.fall_state, c.fall_countdown as int, c.fall_duration as int) + dpf <= u64::MAX
}

impl MinoController {
    /// Whether `append_commands` can run with these settings (`append_ok`).
    pub fn append_check(&self, config: &[Player; 4], dpf: u64) -> (r: bool)
        ensures
            r == append_ok(*self, *config, dpf),
    {
        if self.config_id >= 4 {
            return false;
        }
        let pre = config[self.config_id].move_prepeat_duration;
        let rep = config[self.config_id].move_repeat_duration;
        let (n1, s1, c1): (u64, MoveState, u64) = if self.move_state == MoveState::Instant {
            (1, MoveState::Prepeat, 0)
        } else {
            (0, self.move_state, self.move_repeat_countdown)
        };
        let (n2, s2, c2): (u64, MoveState, u64) = if s1 == MoveState::Prepeat && c1 >= pre {
            (n1 + 1, MoveState::Repeat, c1 - pre)
        } else {
            (n1, s1, c1)
        };
        let (moves, st, rest): (bool, MoveState, u64) = if s2 == MoveState::Repeat {
            if rep == 0 {
                return false;
            }
            (n2 > 0 || c2 / rep > 0, s2, c2 % rep)
        } else {
            (n2 > 0, s2, c2)
        };
        if moves && self.move_direction == MoveDirection::Neither {
            return false;
        }
        if st != MoveState::Still && rest > u64::MAX - dpf {
            return false;
        }
        let d: u64 = match self.fall_state {
            FallState::Fall => self.fall_duration,
            FallState::Softdrop => SOFTDROP_DURATION,
            FallState::Harddrop => 0,
        };
        let c: u64 = match self.fall_state {
            FallState::Fall => self.fall_countdown,
            FallState::Softdrop => if self.fall_countdown <= SOFTDROP_DURATION {
                self.fall_countdown
            } else {
                SOFTDROP_DURATION
            },
            FallState::Harddrop => 0,
        };
        if d / 1000 == 0 {
            c <= u64::MAX - dpf
        } else {
            c / d <= i32::MAX as u64 && c % d <= u64::MAX - dpf
        }
    }
}

/// A quotient at least one more than `q` when the rest still holds a divisor.
proof fn lemma_quot_bound(x: int, d: int, q: int, r: int)
    requires
        d > 0,
        q >= 0,
        r >= d,
        x == q * d + r,
    ensures
        q + 1 <= x / d,
{
    vstd::arithmetic::div_mod::lemma_fundamental_div_mod(x, d);
    let a = x / d;
    let b = x % d;
    assert(x == d * a + b);
    assert(0 <= b < d) by {
        vstd::arithmetic::div_mod::lemma_mod_pos_bound(x, d);
    }
    assert(q + 1 <= a) by (nonlinear_arith)
        requires
            d > 0,
            q >= 0,
            r >= d,
            x == q * d + r,
            x == d * a + b,
            0 <= b < d,
    ;
}

impl MinoController {
    fn push_move(&self, unit_id: usize, queue: &mut VecDeque<UnitCommand>)
        requires
            self.move_direction != MoveDirection::Neither,
        ensures
            final(queue)@ == old(queue)@.push(CommandWrapper { inner: (unit_id, move_command(self.move_direction)), original: true }),
    {
        match self.move_direction {
            MoveDirection::Left => queue.push_back((unit_id, UnitCommandKind::MoveLeft).wrap()),
            MoveDirection::Right => queue.push_back((unit_id, UnitCommandKind::MoveRight).wrap()),
            MoveDirection::Neither => {},
        }
    }

    /// The side-move part of a frame.
    fn append_moves(&mut self, unit_id: usize, queue: &mut VecDeque<UnitCommand>, pre: u64, rep: u64, dpf: u64)
        requires
            move_part_ok(*old(self), pre as int, rep as int, dpf),
        ensures
            ({
                let c = *old(self);
                let (n, s, r) = move_phase(c.move_state, c.move_repeat_countdown as int, pre as int, rep as int);
                &&& final(queue)@ == old(queue)@ + wrap_all(unit_id, move_cmds(c, pre as int, rep as int))
                &&& *final(self) == (MinoController {
                    move_state: s,
                    move_repeat_countdown: (if s != MoveState::Still { r + dpf } else { r }) as u64,
                    ..c
                })
            }),
    {
        let ghost c0 = *self;
        let ghost q0 = queue@;
        let ghost (n, s, r) = move_phase(c0.move_state, c0.move_repeat_countdown as int, pre as int, rep as int);
        let ghost mut done: int = 0;
        if self.move_state == MoveState::Instant {
            self.push_move(unit_id, queue);
            proof { done = 1; }
            self.move_repeat_countdown = 0;
            self.move_state = MoveState::Prepeat;
        }
        if self.move_state == MoveState::Prepeat {
            if self.move_repeat_countdown >= pre {
                self.move_repeat_countdown = self.move_repeat_countdown - pre;
                self.push_move(unit_id, queue);
                proof { done = done + 1; }
                self.move_state = MoveState::Repeat;
            }
        }
        assert(queue@ =~= q0 + wrap_all(unit_id, repeat_cmd(done, c0.move_direction)));
        if self.move_state == MoveState::Repeat {
            let ghost c2 = self.move_repeat_countdown as int;
            let ghost d2 = done;
            let ghost mut k: int = 0;
            let ghost snap = *self;
            assert(c2 >= rep ==> c2 / (rep as int) >= 1) by (nonlinear_arith)
                requires
                    rep > 0,
            ;
            while self.move_repeat_countdown >= rep
                invariant
                    *self == (MinoController { move_repeat_countdown: self.move_repeat_countdown, ..snap }),
                    snap.move_direction == c0.move_direction,
                    self.move_repeat_countdown >= rep ==> c0.move_direction != MoveDirection::Neither,
                    rep > 0,
                    0 <= k,
                    0 <= d2,
                    done == d2 + k,
                    self.move_repeat_countdown + k * rep == c2,
                    queue@ == q0 + wrap_all(unit_id, repeat_cmd(done, c0.move_direction)),
                decreases self.move_repeat_countdown,
            {
                self.move_repeat_countdown = self.move_repeat_countdown - rep;
                self.push_move(unit_id, queue);
                proof {
                    lemma_step_mul(k, rep as int);
                    assert(repeat_cmd(done + 1, c0.move_direction) =~= repeat_cmd(done, c0.move_direction).push(move_command(c0.move_direction)));
                    assert(wrap_all(unit_id, repeat_cmd(done + 1, c0.move_direction)) =~= wrap_all(unit_id, repeat_cmd(done, c0.move_direction)).push(
                        CommandWrapper { inner: (unit_id, move_command(c0.move_direction)), original: true },
                    ));
                    done = done + 1;
                    k = k + 1;
                }
            }
            proof {
                vstd::arithmetic::div_mod::lemma_fundamental_div_mod_converse(
                    c2,
                    rep as int,
                    k,
                    self.move_repeat_countdown as int,
                );
            }
        }
        assert(done == n);
        assert(repeat_cmd(n, c0.move_direction) =~= move_cmds(c0, pre as int, rep as int));
        if self.move_state != MoveState::Still {
            self.move_repeat_countdown = self.move_repeat_countdown + dpf;
        }
    }

    /// The turn part of a frame.
    fn append_rotation(&mut self, unit_id: usize, queue: &mut VecDeque<UnitCommand>)
        ensures
            final(queue)@ == old(queue)@ + wrap_all(unit_id, rot_cmds(old(self).rot_direction)),
            *final(self) == (MinoController { rot_direction: RotDirection::Neither, ..*old(self) }),
    {
        let ghost q0 = queue@;
        match self.rot_direction {
            RotDirection::Left => queue.push_back((unit_id, UnitCommandKind::RotateLeft).wrap()),
            RotDirection::Right => queue.push_back((unit_id, UnitCommandKind::RotateRight).wrap()),
            RotDirection::Neither => {},
        }
        assert(queue@ =~= q0 + wrap_all(unit_id, rot_cmds(old(self).rot_direction)));
        self.rot_direction = RotDirection::Neither;
    }

    /// The gravity part of a frame.
    fn append_gravity(&mut self, unit_id: usize, queue: &mut VecDeque<UnitCommand>, dpf: u64)
        requires
            gravity_of(old(self).fall_state, old(self).fall_countdown as int, old(self).fall_duration as int) <= i32::MAX,
            gravity_rest(old(self).fall_state, old(self).fall_countdown as int, old(self).fall_duration as int) + dpf <= u64::MAX,
        ensures
            ({
                let c = *old(self);
                &&& final(queue)@ == old(queue)@ + wrap_all(unit_id, seq![UnitCommandKind::ApplyGravity(gravity_of(c.fall_state, c.fall_countdown as int, c.fall_duration as int) as i32)])
                &&& *final(self) == (MinoController {
                    fall_countdown: (gravity_rest(c.fall_state, c.fall_countdown as int, c.fall_duration as int) + dpf) as u64,
                    fall_state: if c.fall_state == FallState::Harddrop { FallState::Fall } else { c.fall_state },
                    ..c
                })
            }),
    {
        let ghost c0 = *self;
        let ghost q0 = queue@;
        let fall_duration = match self.fall_state {
            FallState::Fall => self.fall_duration,
            FallState::Softdrop => SOFTDROP_DURATION,
            FallState::Harddrop => 0,
        };
        if self.fall_state == FallState::Softdrop {
            if SOFTDROP_DURATION < self.fall_countdown {
                self.fall_countdown = SOFTDROP_DURATION;
            }
        }
        if self.fall_state == FallState::Harddrop {
            self.fall_state = FallState::Fall;
            self.fall_countdown = 0;
        }
        let mut g: i32 = 0;
        if fall_duration / 1000 == 0 {
            g = i32::MAX;
        } else {
            let ghost f1 = self.fall_countdown as int;
            let ghost snap = *self;
            assert(f1 == capped_countdown(c0.fall_state, c0.fall_countdown as int));
            assert(fall_duration == fall_interval(c0.fall_state, c0.fall_duration as int));
            while self.fall_countdown >= fall_duration
                invariant
                    *self == (MinoController { fall_countdown: self.fall_countdown, ..snap }),
                    fall_duration > 0,
                    self.fall_countdown + g * fall_duration == f1,
                    0 <= g,
                    f1 / (fall_duration as int) <= i32::MAX,
                decreases self.fall_countdown,
            {
                proof {
                    lemma_quot_bound(f1, fall_duration as int, g as int, self.fall_countdown as int);
                    lemma_step_mul(g as int, fall_duration as int);
                }
                g = g + 1;
                self.fall_countdown = self.fall_countdown - fall_duration;
            }
            proof {
                vstd::arithmetic::div_mod::lemma_fundamental_div_mod_converse(
                    f1,
                    fall_duration as int,
                    g as int,
                    self.fall_countdown as int,
                );
            }
        }
        self.fall_countdown = self.fall_countdown + dpf;
        queue.push_back((unit_id, UnitCommandKind::ApplyGravity(g)).wrap());
        assert(queue@ =~= q0 + wrap_all(unit_id, seq![UnitCommandKind::ApplyGravity(g)]));
    }

    /// Appends this frame's commands for unit `unit_id` to `queue` (side
    /// moves, the pending turn, the gravity step, storing) and advances the
    /// controller by `dpf` nanoseconds; `config[config_id]` gives the side key
    /// repeat timing.
    pub fn append_commands(&mut self, unit_id: usize, queue: &mut VecDeque<UnitCommand>, config: &[Player; 4], dpf: u64)
        requires
            append_ok(*old(self), *config, dpf),
        ensures
            ({
                let c = *old(self);
                let pre = config[c.config_id as int].move_prepeat_duration as int;
                let rep = config[c.config_id as int].move_repeat_duration as int;
                let (n, s, r) = move_phase(c.move_state, c.move_repeat_countdown as int, pre, rep);
                &&& final(queue)@ == old(queue)@ + wrap_all(unit_id, frame_commands(c, pre, rep))
                &&& final(self).move_state == s
                &&& final(self).move_repeat_countdown == if s != MoveState::Still { r + dpf } else { r }
                &&& final(self).fall_countdown == gravity_rest(c.fall_state, c.fall_countdown as int, c.fall_duration as int) + dpf
                &&& final(self).fall_state == if c.fall_state == FallState::Harddrop { FallState::Fall } else { c.fall_state }
            }),
            final(self).rot_direction == RotDirection::Neither,
            !final(self).store,
            final(self).move_direction == old(self).move_direction,
            final(self).fall_duration == old(self).fall_duration,
            final(self).joystick_id == old(self).joystick_id,
            final(self).config_id == old(self).config_id,
            *final(self) == after_frame(*old(self), *config, dpf),
            final(queue)@ == old(queue)@ + wrap_all(unit_id, frame_cmds(*old(self), *config)),
    {
        let ghost c0 = *self;
        let ghost q0 = queue@;
        let pre = config[self.config_id].move_prepeat_duration;
        let rep = config[self.config_id].move_repeat_duration;
        self.append_moves(unit_id, queue, pre, rep, dpf);
        let ghost q1 = queue@;
        self.append_rotation(unit_id, queue);
        let ghost q2 = queue@;
        self.append_gravity(unit_id, queue, dpf);
        let ghost q3 = queue@;
        if self.store {
            queue.push_back((unit_id, UnitCommandKind::Store).wrap());
            self.store = false;
        }
        proof {
            let g = seq![UnitCommandKind::ApplyGravity(gravity_of(c0.fall_state, c0.fall_countdown as int, c0.fall_duration as int) as i32)];
            let st = if c0.store { seq![UnitCommandKind::Store] } else { Seq::<UnitCommandKind>::empty() };
            let m = move_cmds(c0, pre as int, rep as int);
            let rt = rot_cmds(c0.rot_direction);
            assert(queue@ =~= q3 + wrap_all(unit_id, st));
            assert(frame_commands(c0, pre as int, rep as int) =~= m + rt + g + st);
            assert(wrap_all(unit_id, m + rt + g + st) =~= wrap_all(unit_id, m) + wrap_all(unit_id, rt) + wrap_all(unit_id, g) + wrap_all(unit_id, st));
        }
    }
}

/// How far the piece falls in a frame. Falling normally, it falls one row
/// per whole fall interval in the countdown and keeps the remainder (when
/// the interval is a microsecond or more). Soft dropping, the countdown is
/// first capped at 50 ms and the piece falls one row per 50 ms whatever the
/// level's interval: one row when the countdown has reached 50 ms, which
/// empties it, and none before. A hard drop falls as far as it can.
pub proof fn gravity_per_fall_state(fc: int, fall_duration: int)
    requires
        fc >= 0,
    ensures
        fall_duration >= 1000 ==> ({
            let g = gravity_of(FallState::Fall, fc, fall_duration);
            let r = gravity_rest(FallState::Fall, fc, fall_duration);
            &&& g * fall_duration + r == fc
            &&& 0 <= r < fall_duration
        }),
        gravity_of(FallState::Softdrop, fc, fall_duration) == (if fc >= 50_000_000 { 1int } else { 0int }),
        gravity_rest(FallState::Softdrop, fc, fall_duration) == (if fc >= 50_000_000 { 0int } else { fc }),
        gravity_of(FallState::Harddrop, fc, fall_duration) == i32::MAX,
        gravity_rest(FallState::Harddrop, fc, fall_duration) == 0,
{
    if fall_duration >= 1000 {
        let g = gravity_of(FallState::Fall, fc, fall_duration);
        let r = gravity_rest(FallState::Fall, fc, fall_duration);
        assert(fall_duration / 1000 != 0);
        vstd::arithmetic::div_mod::lemma_fundamental_div_mod(fc, fall_duration);
        vstd::arithmetic::div_mod::lemma_mod_pos_bound(fc, fall_duration);
        assert(g * fall_duration == fall_duration * g) by (nonlinear_arith);
    }
    let c = capped_countdown(FallState::Softdrop, fc);
    assert(fall_interval(FallState::Softdrop, fall_duration) == 50_000_000);
    if fc >= 50_000_000 {
        assert(c == 50_000_000);
        assert(c / 50_000_000int == 1);
        assert(c % 50_000_000int == 0);
    } else {
        assert(c == fc);
        assert(c / 50_000_000int == 0) by {
            vstd::arithmetic::div_mod::lemma_basic_div(c, 50_000_000int);
        }
        assert(c % 50_000_000int == c) by {
            vstd::arithmetic::div_mod::lemma_small_mod(c as nat, 50_000_000nat);
        }
    }
}

/// A soft-dropping controller: the frame's gravity command is
/// `ApplyGravity(1)` once its countdown has reached 50 ms and
/// `ApplyGravity(0)` before, whatever the level's fall interval, and the
/// countdown then runs on from what is left of it.
pub proof fn soft_drop_falls_every_50ms(c: MinoController, config: [Player; 4], dpf: u64)
    requires
        c.fall_state == FallState::Softdrop,
        append_ok(c, config, dpf),
    ensures
        frame_cmds(c, config).contains(UnitCommandKind::ApplyGravity(if c.fall_countdown >= 50_000_000 { 1i32 } else { 0i32 })),
        after_frame(c, config, dpf).fall_countdown == (if c.fall_countdown >= 50_000_000 { 0int } else { c.fall_countdown as int }) + dpf,
        after_frame(c, config, dpf).fall_state == FallState::Softdrop,
{
    gravity_per_fall_state(c.fall_countdown as int, c.fall_duration as int);
    let pre = config[c.config_id as int].move_prepeat_duration as int;
    let rep = config[c.config_id as int].move_repeat_duration as int;
    let moves = move_cmds(c, pre, rep);
    let rot = rot_cmds(c.rot_direction);
    let g = seq![UnitCommandKind::ApplyGravity(gravity_of(c.fall_state, c.fall_countdown as int, c.fall_duration as int) as i32)];
    let st = if c.store { seq![UnitCommandKind::Store] } else { Seq::empty() };
    let all = frame_cmds(c, config);
    assert(all == moves + rot + g + st);
    assert(all[moves.len() + rot.len() as int] == g[0]);
}

/// One more step of `d` adds `d` to the product.
proof fn lemma_step_mul(k: int, d: int)
    ensures
        (k + 1) * d == k * d + d,
{
    assert((k + 1) * d == k * d + d) by (nonlinear_arith);
}

} // verus!
